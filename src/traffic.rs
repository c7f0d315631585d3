//! Traffic classification and the collection-rule engine: direction of an
//! exchange, gateway-origin detection, exemption and collection decisions.

use vstd::prelude::*;
use crate::config::{ClientConfig, Config, ExemptionRule};
use crate::headers::{lookup, opt_view, HeaderMap};
use crate::patterns::{any_pattern_matches, match_any, match_pattern, pattern_matches};
use crate::text::{contains_seq, contains_str, has_prefix, starts_with_str, str_eq, string_views};
use crate::urls::{client_info, extract_client_info};

verus! {

/// Whether some pattern of `ps` matches one of the known texts `a` and `b`;
/// an empty pattern list matches anything.
pub open spec fn patterns_match_either(
    ps: Seq<Seq<char>>,
    a: Option<Seq<char>>,
    b: Option<Seq<char>>,
) -> bool {
    ||| ps.len() == 0
    ||| (a.is_some() && any_pattern_matches(ps, a.unwrap()))
    ||| (b.is_some() && any_pattern_matches(ps, b.unwrap()))
}

/// The host that an inbound request names: its Host header, else `:authority`.
pub open spec fn request_host(hs: Seq<(Seq<char>, Seq<char>)>) -> Option<Seq<char>> {
    match lookup(hs, "host"@) {
        Some(h) => Some(h),
        None => lookup(hs, ":authority"@),
    }
}

/// Whether an exemption rule covers a request.
pub open spec fn rule_exempts(rule: ExemptionRule, hs: Seq<(Seq<char>, Seq<char>)>) -> bool {
    &&& patterns_match_either(
        string_views(rule.host_patterns@),
        request_host(hs),
        client_info(hs).0,
    )
    &&& patterns_match_either(
        string_views(rule.path_patterns@),
        lookup(hs, ":path"@),
        client_info(hs).1,
    )
}

/// Whether some configured exemption rule covers a request.
pub open spec fn exempted(cfg: Config, hs: Seq<(Seq<char>, Seq<char>)>) -> bool {
    exists|i: int|
        0 <= i < cfg.exemption_rules@.len() && rule_exempts(#[trigger] cfg.exemption_rules@[i], hs)
}

/// Whether some server rule's path pattern matches the request path.
pub open spec fn inbound_matched(cfg: Config, hs: Seq<(Seq<char>, Seq<char>)>) -> bool {
    match lookup(hs, ":path"@) {
        Some(p) => exists|i: int|
            0 <= i < cfg.collection_rules@.len() && {
                let r = #[trigger] cfg.collection_rules@[i];
                r.http.server.path@.len() > 0 && pattern_matches(r.http.server.path@, p)
            },
        None => false,
    }
}

/// Whether a client rule matches the client host, and one of its path
/// patterns the client path when it has any.
pub open spec fn client_rule_matches(
    c: ClientConfig,
    host: Option<Seq<char>>,
    path: Option<Seq<char>>,
) -> bool {
    &&& host.is_some()
    &&& pattern_matches(c.host@, host.unwrap())
    &&& (c.paths@.len() == 0 || (path.is_some() && any_pattern_matches(
        string_views(c.paths@),
        path.unwrap(),
    )))
}

/// Whether some client rule matches the client host and path of a request.
pub open spec fn outbound_matched(cfg: Config, hs: Seq<(Seq<char>, Seq<char>)>) -> bool {
    exists|i: int, j: int|
        0 <= i < cfg.collection_rules@.len() && 0 <= j < cfg.collection_rules@[i].http.client@.len()
            && client_rule_matches(
            #[trigger] cfg.collection_rules@[i].http.client@[j],
            client_info(hs).0,
            client_info(hs).1,
        )
}

/// Some rule has a server path pattern.
pub open spec fn has_server_rules(cfg: Config) -> bool {
    exists|i: int|
        0 <= i < cfg.collection_rules@.len() && (#[trigger] cfg.collection_rules@[i]).http.server.path@.len()
            > 0
}

/// Some rule has a client part.
pub open spec fn has_client_rules(cfg: Config) -> bool {
    exists|i: int|
        0 <= i < cfg.collection_rules@.len() && (#[trigger] cfg.collection_rules@[i]).http.client@.len()
            > 0
}

/// Server rules apply unless the exchange is known to be outbound.
pub open spec fn server_rules_apply(direction: Seq<char>) -> bool {
    direction != "outbound"@
}

/// Client rules apply unless the exchange is known to be inbound.
pub open spec fn client_rules_apply(direction: Seq<char>) -> bool {
    direction != "inbound"@
}

/// The capture decision: never for an exempted exchange; always when no
/// collection rule is configured; when a rule that applies to the direction
/// matches; and by default when no rule of the kinds that apply exists.
pub open spec fn collect_decision(cfg: Config, hs: Seq<(Seq<char>, Seq<char>)>, direction: Seq<char>) -> bool {
    if exempted(cfg, hs) {
        false
    } else if cfg.collection_rules@.len() == 0 {
        true
    } else if server_rules_apply(direction) && inbound_matched(cfg, hs) {
        true
    } else if client_rules_apply(direction) && outbound_matched(cfg, hs) {
        true
    } else {
        !((server_rules_apply(direction) && has_server_rules(cfg)) || (client_rules_apply(direction)
            && has_client_rules(cfg)))
    }
}

/// An exchange that an exemption rule covers is never collected by the rules,
/// whatever collection rules are configured and whatever its direction.
pub proof fn lemma_exemption_short_circuits(
    cfg: Config,
    hs: Seq<(Seq<char>, Seq<char>)>,
    direction: Seq<char>,
)
    requires
        exempted(cfg, hs),
    ensures
        !collect_decision(cfg, hs, direction),
{
}

fn check_patterns(patterns: &Vec<String>, a: &Option<String>, b: &Option<String>) -> (r: bool)
    ensures
        r == patterns_match_either(string_views(patterns@), opt_view(*a), opt_view(*b)),
{
    if patterns.len() == 0 {
        return true;
    }
    let in_a = match a {
        Some(t) => match_any(patterns, t.as_str()),
        None => false,
    };
    if in_a {
        return true;
    }
    match b {
        Some(t) => match_any(patterns, t.as_str()),
        None => false,
    }
}

/// Whether a host pattern list matches the request host or the client host.
pub fn check_host_patterns(
    host_patterns: &Vec<String>,
    request_host: &Option<String>,
    client_host: &Option<String>,
) -> (r: bool)
    ensures
        r == patterns_match_either(
            string_views(host_patterns@),
            opt_view(*request_host),
            opt_view(*client_host),
        ),
{
    check_patterns(host_patterns, request_host, client_host)
}

/// Whether a path pattern list matches the request path or the client path.
pub fn check_path_patterns(
    path_patterns: &Vec<String>,
    request_path: &Option<String>,
    client_path: &Option<String>,
) -> (r: bool)
    ensures
        r == patterns_match_either(
            string_views(path_patterns@),
            opt_view(*request_path),
            opt_view(*client_path),
        ),
{
    check_patterns(path_patterns, request_path, client_path)
}

/// Whether some configured exemption rule covers the request.
pub fn is_exempted(config: &Config, request_headers: &HeaderMap) -> (r: bool)
    ensures
        r == exempted(*config, request_headers@),
{
    let request_host = match request_headers.get("host") {
        Some(h) => Some(h),
        None => request_headers.get(":authority"),
    };
    let request_path = request_headers.get(":path");
    let (client_host, client_path) = extract_client_info(request_headers);
    let mut i: usize = 0;
    while i < config.exemption_rules.len()
        invariant
            i <= config.exemption_rules@.len(),
            opt_view(request_host) == crate::traffic::request_host(request_headers@),
            opt_view(request_path) == lookup(request_headers@, ":path"@),
            (opt_view(client_host), opt_view(client_path)) == client_info(request_headers@),
            forall|j: int|
                0 <= j < i ==> !rule_exempts(#[trigger] config.exemption_rules@[j], request_headers@),
        decreases config.exemption_rules@.len() - i,
    {
        let rule = &config.exemption_rules[i];
        if check_host_patterns(&rule.host_patterns, &request_host, &client_host)
            && check_path_patterns(&rule.path_patterns, &request_path, &client_path) {
            return true;
        }
        i = i + 1;
    }
    false
}

/// Whether some server rule's path pattern matches the request path.
pub fn check_inbound_rules(config: &Config, request_headers: &HeaderMap) -> (r: bool)
    ensures
        r == inbound_matched(*config, request_headers@),
{
    match request_headers.get(":path") {
        Some(path) => {
            let mut i: usize = 0;
            while i < config.collection_rules.len()
                invariant
                    i <= config.collection_rules@.len(),
                    lookup(request_headers@, ":path"@) == Some(path@),
                    forall|j: int|
                        0 <= j < i ==> {
                            let r = #[trigger] config.collection_rules@[j];
                            !(r.http.server.path@.len() > 0 && pattern_matches(
                                r.http.server.path@,
                                path@,
                            ))
                        },
                decreases config.collection_rules@.len() - i,
            {
                let rule = &config.collection_rules[i];
                if !rule.http.server.path.as_str().is_empty() && match_pattern(
                    rule.http.server.path.as_str(),
                    path.as_str(),
                ) {
                    return true;
                }
                i = i + 1;
            }
            false
        },
        None => false,
    }
}

fn client_matches(c: &ClientConfig, host: &Option<String>, path: &Option<String>) -> (r: bool)
    ensures
        r == client_rule_matches(*c, opt_view(*host), opt_view(*path)),
{
    match host {
        Some(h) => {
            if !match_pattern(c.host.as_str(), h.as_str()) {
                return false;
            }
        },
        None => {
            return false;
        },
    }
    if c.paths.len() == 0 {
        return true;
    }
    match path {
        Some(p) => match_any(&c.paths, p.as_str()),
        None => false,
    }
}

/// Whether some client rule matches the client host and path of the request.
pub fn check_outbound_rules(config: &Config, request_headers: &HeaderMap) -> (r: bool)
    ensures
        r == outbound_matched(*config, request_headers@),
{
    let (client_host, client_path) = extract_client_info(request_headers);
    let ghost hs = request_headers@;
    let mut i: usize = 0;
    while i < config.collection_rules.len()
        invariant
            i <= config.collection_rules@.len(),
            hs == request_headers@,
            (opt_view(client_host), opt_view(client_path)) == client_info(hs),
            forall|a: int, b: int|
                0 <= a < i && 0 <= b < config.collection_rules@[a].http.client@.len()
                    ==> !client_rule_matches(
                    #[trigger] config.collection_rules@[a].http.client@[b],
                    client_info(hs).0,
                    client_info(hs).1,
                ),
        decreases config.collection_rules@.len() - i,
    {
        let rule = &config.collection_rules[i];
        let mut k: usize = 0;
        while k < rule.http.client.len()
            invariant
                i < config.collection_rules@.len(),
                *rule == config.collection_rules@[i as int],
                k <= rule.http.client@.len(),
                hs == request_headers@,
                (opt_view(client_host), opt_view(client_path)) == client_info(hs),
                forall|b: int|
                    0 <= b < k ==> !client_rule_matches(
                        #[trigger] rule.http.client@[b],
                        client_info(hs).0,
                        client_info(hs).1,
                    ),
            decreases rule.http.client@.len() - k,
        {
            if client_matches(&rule.http.client[k], &client_host, &client_path) {
                proof {
                    assert(client_rule_matches(
                        config.collection_rules@[i as int].http.client@[k as int],
                        client_info(hs).0,
                        client_info(hs).1,
                    ));
                }
                return true;
            }
            k = k + 1;
        }
        i = i + 1;
    }
    false
}

fn any_server_rule(config: &Config) -> (r: bool)
    ensures
        r == has_server_rules(*config),
{
    let mut i: usize = 0;
    while i < config.collection_rules.len()
        invariant
            i <= config.collection_rules@.len(),
            forall|j: int|
                0 <= j < i ==> (#[trigger] config.collection_rules@[j]).http.server.path@.len() == 0,
        decreases config.collection_rules@.len() - i,
    {
        if !config.collection_rules[i].http.server.path.as_str().is_empty() {
            return true;
        }
        i = i + 1;
    }
    false
}

fn any_client_rule(config: &Config) -> (r: bool)
    ensures
        r == has_client_rules(*config),
{
    let mut i: usize = 0;
    while i < config.collection_rules.len()
        invariant
            i <= config.collection_rules@.len(),
            forall|j: int|
                0 <= j < i ==> (#[trigger] config.collection_rules@[j]).http.client@.len() == 0,
        decreases config.collection_rules@.len() - i,
    {
        if config.collection_rules[i].http.client.len() > 0 {
            return true;
        }
        i = i + 1;
    }
    false
}

/// Decides whether an exchange in `direction` is captured.
pub fn should_collect_by_rules(config: &Config, request_headers: &HeaderMap, direction: &str) -> (r:
    bool)
    ensures
        r == collect_decision(*config, request_headers@, direction@),
{
    if is_exempted(config, request_headers) {
        return false;
    }
    if config.collection_rules.len() == 0 {
        return true;
    }
    let server_apply = !str_eq(direction, "outbound");
    let client_apply = !str_eq(direction, "inbound");
    if server_apply && check_inbound_rules(config, request_headers) {
        return true;
    }
    if client_apply && check_outbound_rules(config, request_headers) {
        return true;
    }
    !((server_apply && any_server_rule(config)) || (client_apply && any_client_rule(config)))
}

/// Host-provided signals about the direction of an exchange; each is absent
/// when the host has no such property or its value is not text.
pub struct DirectionSignals {
    pub upstream_host: Option<String>,
    pub cluster_name: Option<String>,
    pub connection_mtls: Option<String>,
    pub listener_direction: Option<String>,
    pub metadata_direction: Option<String>,
    pub source_address: Option<String>,
    pub has_forwarded_for: bool,
}

/// The direction of an exchange, by the first signal that decides it: the
/// configured direction (`server` is inbound, `client` outbound); an upstream
/// host (outbound); the routing cluster's `outbound|` or `inbound|` prefix;
/// client certificate information (inbound); the listener or metadata
/// direction; the inbound or outbound listener port in the source address; a
/// forwarded-for header (inbound); else `auto`.
pub open spec fn direction_of(configured: Option<Seq<char>>, s: DirectionSignals) -> Seq<char> {
    if configured.is_some() {
        let d = configured.unwrap();
        if d == "server"@ {
            "inbound"@
        } else if d == "client"@ {
            "outbound"@
        } else {
            d
        }
    } else if s.upstream_host.is_some() {
        "outbound"@
    } else if s.cluster_name.is_some() && has_prefix(s.cluster_name.unwrap()@, "outbound|"@) {
        "outbound"@
    } else if s.cluster_name.is_some() && has_prefix(s.cluster_name.unwrap()@, "inbound|"@) {
        "inbound"@
    } else if s.connection_mtls.is_some() && contains_seq(s.connection_mtls.unwrap()@, "client"@) {
        "inbound"@
    } else if s.listener_direction.is_some() {
        s.listener_direction.unwrap()@
    } else if s.metadata_direction.is_some() {
        s.metadata_direction.unwrap()@
    } else if s.source_address.is_some() && contains_seq(s.source_address.unwrap()@, ":15006"@) {
        "inbound"@
    } else if s.source_address.is_some() && contains_seq(s.source_address.unwrap()@, ":15001"@) {
        "outbound"@
    } else if s.has_forwarded_for {
        "inbound"@
    } else {
        "auto"@
    }
}

fn has_prefix_opt(o: &Option<String>, p: &str) -> (r: bool)
    ensures
        r == (o.is_some() && has_prefix(o.unwrap()@, p@)),
{
    match o {
        Some(v) => starts_with_str(v.as_str(), p),
        None => false,
    }
}

fn contains_opt(o: &Option<String>, p: &str) -> (r: bool)
    ensures
        r == (o.is_some() && contains_seq(o.unwrap()@, p@)),
{
    match o {
        Some(v) => contains_str(v.as_str(), p),
        None => false,
    }
}

/// Detects the direction of an exchange from the configuration and host signals.
pub fn detect_traffic_direction(configured: &Option<String>, signals: &DirectionSignals) -> (r: String)
    ensures
        r@ == direction_of(opt_view(*configured), *signals),
{
    match configured {
        Some(d) => {
            if str_eq(d.as_str(), "server") {
                return String::from_str("inbound");
            } else if str_eq(d.as_str(), "client") {
                return String::from_str("outbound");
            } else {
                return d.clone();
            }
        },
        None => {},
    }
    if signals.upstream_host.is_some() {
        return String::from_str("outbound");
    }
    if has_prefix_opt(&signals.cluster_name, "outbound|") {
        return String::from_str("outbound");
    }
    if has_prefix_opt(&signals.cluster_name, "inbound|") {
        return String::from_str("inbound");
    }
    if contains_opt(&signals.connection_mtls, "client") {
        return String::from_str("inbound");
    }
    match &signals.listener_direction {
        Some(d) => {
            return d.clone();
        },
        None => {},
    }
    match &signals.metadata_direction {
        Some(d) => {
            return d.clone();
        },
        None => {},
    }
    if contains_opt(&signals.source_address, ":15006") {
        return String::from_str("inbound");
    }
    if contains_opt(&signals.source_address, ":15001") {
        return String::from_str("outbound");
    }
    if signals.has_forwarded_for {
        return String::from_str("inbound");
    }
    String::from_str("auto")
}

/// Access to the host's properties and the live request headers of an exchange.
pub trait RequestHeadersAccess {
    /// The value of the host property at `path`.
    fn get_context_property(&self, path: Vec<&str>) -> Option<Vec<u8>>;

    /// The value of a request header.
    fn get_request_header(&self, name: &str) -> Option<String>;
}

/// Classification and rule decisions for an exchange whose host context is at hand.
pub trait TrafficAnalyzer {
    /// The direction of the exchange, from the configuration and the host's
    /// signals: whatever the host reports, it is the direction that some set
    /// of signals gives, so a configured direction decides it.
    fn detect_traffic_direction(&self, config: &Config) -> (r: String)
        ensures
            exists|s: DirectionSignals|
                r@ == #[trigger] direction_of(opt_view(config.traffic_direction), s),
    ;

    /// Whether the exchange is the gateway's own traffic.
    fn is_from_istio_ingressgateway(&self) -> bool;

    /// Whether the rules collect the exchange, with rules of both kinds applying.
    fn should_collect_by_rules(&self, config: &Config, request_headers: &HeaderMap) -> (r: bool)
        ensures
            r == collect_decision(*config, request_headers@, "auto"@),
    ;

    /// Whether some exemption rule covers the exchange.
    fn is_exempted(&self, config: &Config, request_headers: &HeaderMap) -> (r: bool)
        ensures
            r == exempted(*config, request_headers@),
    ;
}

/// The text of a host property, when it is present and valid UTF-8.
fn property_text<T: RequestHeadersAccess>(host: &T, path: Vec<&str>) -> Option<String> {
    match host.get_context_property(path) {
        Some(bytes) => crate::codec::utf8_text(bytes),
        None => None,
    }
}

impl<T: RequestHeadersAccess> TrafficAnalyzer for T {
    fn detect_traffic_direction(&self, config: &Config) -> (r: String) {
        if config.traffic_direction.is_some() {
            let none = DirectionSignals {
                upstream_host: None,
                cluster_name: None,
                connection_mtls: None,
                listener_direction: None,
                metadata_direction: None,
                source_address: None,
                has_forwarded_for: false,
            };
            let r = detect_traffic_direction(&config.traffic_direction, &none);
            proof {
                assert(r@ == direction_of(opt_view(config.traffic_direction), none));
            }
            return r;
        }
        let mut metadata_path: Vec<&str> = Vec::new();
        metadata_path.push("metadata");
        metadata_path.push("filter_metadata");
        metadata_path.push("envoy.common");
        metadata_path.push("direction");
        let mut mtls_path: Vec<&str> = Vec::new();
        mtls_path.push("connection");
        mtls_path.push("mtls");
        let mut source_path: Vec<&str> = Vec::new();
        source_path.push("source");
        source_path.push("address");
        let signals = DirectionSignals {
            upstream_host: property_text(self, vec!["upstream_host"]),
            cluster_name: property_text(self, vec!["cluster_name"]),
            connection_mtls: property_text(self, mtls_path),
            listener_direction: property_text(self, vec!["listener_direction"]),
            metadata_direction: property_text(self, metadata_path),
            source_address: property_text(self, source_path),
            has_forwarded_for: self.get_request_header("x-forwarded-for").is_some(),
        };
        let r = detect_traffic_direction(&config.traffic_direction, &signals);
        proof {
            assert(r@ == direction_of(opt_view(config.traffic_direction), signals));
        }
        r
    }

    fn is_from_istio_ingressgateway(&self) -> bool {
        let mut values: Vec<String> = Vec::new();
        let paths: Vec<Vec<&str>> = vec![
            vec!["node", "metadata", "WORKLOAD_NAME"],
            vec!["node", "metadata", "app"],
            vec!["node", "metadata", "NAME"],
            vec!["cluster_metadata"],
            vec!["source", "workload", "name"],
            vec!["node", "id"],
            vec!["node", "metadata", "LABELS"],
        ];
        let mut i: usize = 0;
        while i < paths.len()
            decreases paths@.len() - i,
        {
            match property_text(self, paths[i].clone()) {
                Some(v) => values.push(v),
                None => {},
            }
            i = i + 1;
        }
        match self.get_request_header("x-envoy-peer-metadata-id") {
            Some(v) => values.push(v),
            None => {},
        }
        is_from_istio_ingressgateway(&values)
    }

    fn should_collect_by_rules(&self, config: &Config, request_headers: &HeaderMap) -> (r: bool) {
        should_collect_by_rules(config, request_headers, "auto")
    }

    fn is_exempted(&self, config: &Config, request_headers: &HeaderMap) -> (r: bool) {
        is_exempted(config, request_headers)
    }
}

/// The identity that marks the gateway's own traffic.
pub open spec fn gateway_identity() -> Seq<char> {
    "istio-ingressgateway"@
}

/// Whether some identity value (workload name, app label, node name, cluster
/// metadata, source workload, node id, peer-metadata header, node labels)
/// names the gateway.
pub open spec fn from_gateway(values: Seq<Seq<char>>) -> bool {
    exists|i: int| 0 <= i < values.len() && contains_seq(#[trigger] values[i], gateway_identity())
}

/// Whether the exchange comes from the gateway, judged by the identity values
/// that the host provides.
pub fn is_from_istio_ingressgateway(identity_values: &Vec<String>) -> (r: bool)
    ensures
        r == from_gateway(string_views(identity_values@)),
{
    let ghost vs = string_views(identity_values@);
    let mut i: usize = 0;
    while i < identity_values.len()
        invariant
            i <= identity_values@.len(),
            vs == string_views(identity_values@),
            forall|j: int| 0 <= j < i ==> !contains_seq(#[trigger] vs[j], gateway_identity()),
        decreases identity_values@.len() - i,
    {
        proof {
            assert(vs[i as int] == identity_values@[i as int]@);
        }
        if contains_str(identity_values[i].as_str(), "istio-ingressgateway") {
            return true;
        }
        i = i + 1;
    }
    false
}

} // verus!
