//! The per-exchange state machine: what to do on each proxy callback, which
//! asynchronous call is outstanding, and how its response is handled.

use vstd::prelude::*;
use crate::config::Config;
use crate::headers::HeaderMap;
use crate::otel::SpanBuilder;
use crate::traffic::{collect_decision, should_collect_by_rules};

verus! {

/// What the proxy does with the exchange after a callback.
#[derive(PartialEq, Eq, Structural, Clone, Copy, Debug)]
pub enum Directive {
    /// Let the exchange proceed.
    Continue,
    /// Hold the exchange until the outstanding lookup is answered.
    Pause,
}

/// The asynchronous call an exchange waits on, with its correlation token.
#[derive(PartialEq, Eq, Structural, Clone, Copy, Debug)]
pub enum PendingCall {
    NoPending,
    AwaitingLookup(u32),
    AwaitingSave(u32),
}

/// What follows from the response of an asynchronous call.
#[derive(PartialEq, Eq, Structural, Clone, Copy, Debug)]
pub enum CallOutcome {
    /// The token is not the one the exchange waits on.
    Ignored,
    /// The stored record was accepted.
    SaveSucceeded,
    /// The stored record was refused; it is not sent again.
    SaveFailed,
    /// The lookup returned data to decode before deciding.
    DecodeLookup,
    /// Resume the exchange toward the upstream.
    Resume,
    /// Answer the exchange with the synthesized response.
    SendInjected,
}

/// What the request-headers callback asks for.
#[derive(PartialEq, Eq, Structural, Clone, Copy, Debug)]
pub struct RequestStep {
    /// Propagate the trace context and keep processing the exchange.
    pub process: bool,
    /// Issue the lookup call now.
    pub issue_lookup: bool,
}

/// What a response callback asks for.
#[derive(PartialEq, Eq, Structural, Clone, Copy, Debug)]
pub struct ResponseStep {
    /// Capture the response headers and propagate the trace context.
    pub capture: bool,
    /// Decide on capture and send the record now.
    pub save: bool,
}

/// The state of one in-flight exchange.
#[derive(PartialEq, Eq, Structural, Clone, Copy, Debug)]
pub struct Exchange {
    /// When the request arrived, set by the first request-headers callback.
    pub start_time: Option<u64>,
    /// The exchange is not processed; set once, never cleared.
    pub skip: bool,
    /// A synthesized response was sent; the upstream is never reached.
    pub injected: bool,
    pub pending: PendingCall,
}

/// The lookup is answered with data when it succeeded with a body.
pub open spec fn lookup_has_data(status: u32, body_len: usize) -> bool {
    status == 200 && body_len > 0
}

/// A save succeeded when its status is in the 2xx range.
pub open spec fn save_succeeded(status: u32) -> bool {
    200 <= status < 300
}

/// The capture decision: an exchange without a non-empty session id of its
/// own is always captured, otherwise the rules decide.
pub open spec fn capture_decision(
    prior_session: bool,
    cfg: Config,
    hs: Seq<(Seq<char>, Seq<char>)>,
    direction: Seq<char>,
) -> bool {
    !prior_session || collect_decision(cfg, hs, direction)
}

/// An exchange whose request carries no session id, or an empty one, is
/// captured whatever the rules decide: its resolved context has no prior
/// session, and the capture decision holds for every configuration and
/// direction.
pub proof fn lemma_isolated_exchange_captured(
    hs: Seq<(Seq<char>, Seq<char>)>,
    cfg: Config,
    direction: Seq<char>,
)
    requires
        !crate::otel::has_prior_session(hs),
    ensures
        capture_decision(crate::otel::has_prior_session(hs), cfg, hs, direction),
{
}

/// Decides whether the record of a completed exchange is sent.
pub fn should_capture(builder: &SpanBuilder, config: &Config, request_headers: &HeaderMap) -> (r: bool)
    ensures
        r == capture_decision(
            builder.prior_session,
            *config,
            request_headers@,
            builder.traffic_direction@,
        ),
{
    if !builder.prior_session {
        return true;
    }
    should_collect_by_rules(config, request_headers, builder.traffic_direction.as_str())
}

impl Exchange {
    /// A fresh exchange.
    pub fn new() -> (r: Exchange)
        ensures
            r == (Exchange {
                start_time: None,
                skip: false,
                injected: false,
                pending: PendingCall::NoPending,
            }),
    {
        Exchange { start_time: None, skip: false, injected: false, pending: PendingCall::NoPending }
    }

    /// Request headers arrived at `now_nanos`; `from_gateway` tells whether the
    /// exchange is the gateway's own traffic.
    pub fn on_request_headers(
        &mut self,
        now_nanos: u64,
        from_gateway: bool,
        end_of_stream: bool,
        lookup_enabled: bool,
    ) -> (r: RequestStep)
        ensures
            final(self).start_time == (match old(self).start_time {
                Some(t) => Some(t),
                None => Some(now_nanos),
            }),
            final(self).skip == (old(self).skip || from_gateway),
            final(self).injected == old(self).injected,
            final(self).pending == old(self).pending,
            r.process == !final(self).skip,
            r.issue_lookup == (!final(self).skip && end_of_stream && lookup_enabled),
    {
        if self.start_time.is_none() {
            self.start_time = Some(now_nanos);
        }
        if from_gateway {
            self.skip = true;
        }
        RequestStep { process: !self.skip, issue_lookup: !self.skip && end_of_stream && lookup_enabled }
    }

    /// A piece of the request body arrived; returns whether to issue the lookup.
    pub fn on_request_body(&self, end_of_stream: bool, lookup_enabled: bool) -> (r: bool)
        ensures
            r == (!self.skip && end_of_stream && lookup_enabled),
    {
        !self.skip && end_of_stream && lookup_enabled
    }

    /// The lookup call was dispatched with `token`, or could not be.
    pub fn on_lookup_dispatched(&mut self, token: Option<u32>) -> (r: Directive)
        ensures
            final(self).pending == (match token {
                Some(t) => PendingCall::AwaitingLookup(t),
                None => old(self).pending,
            }),
            r == (if token.is_some() {
                Directive::Pause
            } else {
                Directive::Continue
            }),
            final(self).start_time == old(self).start_time,
            final(self).skip == old(self).skip,
            final(self).injected == old(self).injected,
    {
        match token {
            Some(t) => {
                self.pending = PendingCall::AwaitingLookup(t);
                Directive::Pause
            },
            None => Directive::Continue,
        }
    }

    /// Response headers arrived, `num_headers` of them.
    pub fn on_response_headers(&self, num_headers: usize, end_of_stream: bool) -> (r: ResponseStep)
        ensures
            r.capture == (!self.skip && !self.injected && num_headers > 0),
            r.save == (r.capture && end_of_stream),
    {
        let capture = !self.skip && !self.injected && num_headers > 0;
        ResponseStep { capture, save: capture && end_of_stream }
    }

    /// A piece of the response body arrived; `has_status` tells whether the
    /// response headers held a status. Returns whether to buffer the piece and
    /// whether to decide on capture and send the record now.
    pub fn on_response_body(&self, end_of_stream: bool, has_status: bool) -> (r: ResponseStep)
        ensures
            r.capture == (!self.skip && !self.injected),
            r.save == (r.capture && end_of_stream && has_status),
    {
        let capture = !self.skip && !self.injected;
        ResponseStep { capture, save: capture && end_of_stream && has_status }
    }

    /// The save call was dispatched with `token`, or could not be.
    pub fn on_save_dispatched(&mut self, token: Option<u32>)
        ensures
            final(self).pending == (match token {
                Some(t) => PendingCall::AwaitingSave(t),
                None => old(self).pending,
            }),
            final(self).start_time == old(self).start_time,
            final(self).skip == old(self).skip,
            final(self).injected == old(self).injected,
    {
        match token {
            Some(t) => {
                self.pending = PendingCall::AwaitingSave(t);
            },
            None => {},
        }
    }

    /// The response to the call with `token` arrived with `status` and a body
    /// of `body_len` bytes.
    pub fn on_call_response(&mut self, token: u32, status: u32, body_len: usize) -> (r: CallOutcome)
        ensures
            final(self).start_time == old(self).start_time,
            final(self).skip == old(self).skip,
            final(self).injected == old(self).injected,
            match old(self).pending {
                PendingCall::AwaitingSave(t) if t == token => {
                    &&& final(self).pending == PendingCall::NoPending
                    &&& r == (if save_succeeded(status) {
                        CallOutcome::SaveSucceeded
                    } else {
                        CallOutcome::SaveFailed
                    })
                },
                PendingCall::AwaitingLookup(t) if t == token => {
                    &&& final(self).pending == PendingCall::NoPending
                    &&& r == (if lookup_has_data(status, body_len) {
                        CallOutcome::DecodeLookup
                    } else {
                        CallOutcome::Resume
                    })
                },
                _ => final(self).pending == old(self).pending && r == CallOutcome::Ignored,
            },
    {
        match self.pending {
            PendingCall::AwaitingSave(t) => {
                if t == token {
                    self.pending = PendingCall::NoPending;
                    if 200 <= status && status < 300 {
                        return CallOutcome::SaveSucceeded;
                    } else {
                        return CallOutcome::SaveFailed;
                    }
                }
                CallOutcome::Ignored
            },
            PendingCall::AwaitingLookup(t) => {
                if t == token {
                    self.pending = PendingCall::NoPending;
                    if status == 200 && body_len > 0 {
                        return CallOutcome::DecodeLookup;
                    } else {
                        return CallOutcome::Resume;
                    }
                }
                CallOutcome::Ignored
            },
            PendingCall::NoPending => CallOutcome::Ignored,
        }
    }

    /// The lookup's data was decoded; `found` tells whether it held a response
    /// to inject.
    pub fn on_lookup_decoded(&mut self, found: bool) -> (r: CallOutcome)
        ensures
            final(self).injected == (old(self).injected || found),
            r == (if found {
                CallOutcome::SendInjected
            } else {
                CallOutcome::Resume
            }),
            final(self).start_time == old(self).start_time,
            final(self).skip == old(self).skip,
            final(self).pending == old(self).pending,
    {
        if found {
            self.injected = true;
            CallOutcome::SendInjected
        } else {
            CallOutcome::Resume
        }
    }
}

} // verus!
