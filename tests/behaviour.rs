use sp_istio_agent::cache::{CacheError, CacheHandler};
use sp_istio_agent::config::{ClientConfig, CollectionRule, Config, ExemptionRule, HttpCollectionRule, ServerConfig};
use sp_istio_agent::headers::HeaderMap;
use sp_istio_agent::http_client::{save_call, HttpClient, HttpError};
use sp_istio_agent::injection::{extract_agent_response_from_span, find_agent_response, is_base64_encoded};
use sp_istio_agent::lifecycle::{should_capture, CallOutcome, Directive, Exchange, PendingCall};
use sp_istio_agent::masking::mask_string;
use sp_istio_agent::numbers::{decimal_string, parse_i64, parse_u32};
use sp_istio_agent::otel::{should_skip_header, AttrValue, KeyValue, SpanBuilder, SpanKind};
use sp_istio_agent::patterns::match_pattern;
use sp_istio_agent::propagation::outgoing_headers;
use sp_istio_agent::trace_context::{
    format_traceparent, generate_session_id, generate_span_id, generate_trace_id, hex_decode,
    hex_encode, parse_traceparent_value,
};
use sp_istio_agent::traffic::{
    detect_traffic_direction, is_exempted, is_from_istio_ingressgateway, should_collect_by_rules,
    DirectionSignals,
};

fn headers_of(pairs: &[(&str, &str)]) -> HeaderMap {
    let mut h = HeaderMap::new();
    for (k, v) in pairs {
        h.insert(k.to_string(), v.to_string());
    }
    h
}

fn server_rule(path: &str) -> CollectionRule {
    CollectionRule {
        http: HttpCollectionRule { server: ServerConfig { path: path.to_string() }, client: vec![] },
    }
}

fn client_rule(host: &str, paths: &[&str]) -> CollectionRule {
    CollectionRule {
        http: HttpCollectionRule {
            server: ServerConfig { path: String::new() },
            client: vec![ClientConfig {
                host: host.to_string(),
                paths: paths.iter().map(|p| p.to_string()).collect(),
            }],
        },
    }
}

fn str_of(kv: &KeyValue) -> String {
    match &kv.value {
        AttrValue::Str(s) => s.clone(),
        AttrValue::Int(n) => format!("#{}", n),
    }
}

const NOW: u64 = 1_700_000_000_123_456_789;

#[test]
fn hex_codec_exact_values() {
    assert_eq!(hex_decode("0aFf"), Some(vec![0x0a, 0xff]));
    assert_eq!(hex_decode("abc"), None);
    assert_eq!(hex_decode("zz"), None);
    assert_eq!(hex_encode(&[0x00, 0x7f, 0xab]), "007fab");
}

#[test]
fn traceparent_parse_and_reencode_keep_shape() {
    let v = "00-11112222333344445555666677778888-aaaabbbbccccdddd-01";
    let (t, s) = parse_traceparent_value(v).unwrap();
    assert_eq!(t.len(), 16);
    assert_eq!(s.len(), 8);
    let span = generate_span_id(NOW);
    let e = format_traceparent(&t, &span);
    let parts: Vec<&str> = e.split('-').collect();
    assert_eq!(parts.len(), 4);
    assert_eq!(parts[1], "11112222333344445555666677778888");
    assert_eq!(parts[2].len(), 16);
    assert_eq!(parse_traceparent_value(&e), Some((t, span)));
    assert_eq!(parse_traceparent_value("00-11-22"), None);
    assert_eq!(parse_traceparent_value("00-1x-22-01"), None);
}

#[test]
fn ids_from_timestamp() {
    let t = generate_trace_id(NOW);
    assert_eq!(t[..8], 1_700_000_000u64.to_be_bytes());
    assert_eq!(t[8..], 123_456_789u64.to_be_bytes());
    assert_eq!(generate_span_id(NOW), (NOW ^ 0xCAFEBABE).to_be_bytes().to_vec());
    let sid = generate_session_id(NOW);
    assert!(sid.starts_with("sp-session-"));
    assert_eq!(sid.len(), "sp-session-".len() + 36);
    assert_eq!(&sid[11..19], "00000000");
    assert_eq!(&sid[20..24], "6553");
}

#[test]
fn context_resolved_from_embedded_entry_first() {
    let headers = headers_of(&[
        ("tracestate", "vendor=1, x-sp-traceparent=00-0102030405060708090a0b0c0d0e0f10-1112131415161718-01"),
        ("traceparent", "00-11112222333344445555666677778888-aaaabbbbccccdddd-01"),
        ("x-session-id", "abc"),
    ]);
    let b = SpanBuilder::new(NOW).with_context(&headers, NOW);
    assert_eq!(b.get_trace_id_hex(), "0102030405060708090a0b0c0d0e0f10");
    assert_eq!(b.parent_span_id, Some(vec![0x11, 0x12, 0x13, 0x14, 0x15, 0x16, 0x17, 0x18]));
    assert_eq!(b.get_session_id(), "abc");
    assert!(b.prior_session);
}

#[test]
fn context_falls_back_to_single_value_header_and_generates_session() {
    let headers = headers_of(&[("traceparent", "00-11112222333344445555666677778888-aaaabbbbccccdddd-01")]);
    let b = SpanBuilder::new(NOW).with_context(&headers, NOW);
    assert_eq!(b.get_trace_id_hex(), "11112222333344445555666677778888");
    assert_eq!(b.get_session_id(), generate_session_id(NOW));
    assert!(!b.prior_session);
    assert!(b.has_session_id());
    let none = SpanBuilder::new(NOW).with_context(&HeaderMap::new(), NOW);
    assert_eq!(none.trace_id, generate_trace_id(NOW));
    assert_eq!(none.parent_span_id, None);
}

#[test]
fn session_entry_in_tracestate_is_used() {
    let headers = headers_of(&[("tracestate", "x-sp-session-id=s-42,other=x")]);
    let b = SpanBuilder::new(NOW).with_context(&headers, NOW);
    assert_eq!(b.get_session_id(), "s-42");
    assert!(b.prior_session);
}

#[test]
fn rewrite_scenario_keeps_vendor_entry() {
    let headers = headers_of(&[
        ("tracestate", "vendor=1"),
        ("traceparent", "00-11112222333344445555666677778888-aaaabbbbccccdddd-01"),
        ("x-sp-session-id", "s1"),
    ]);
    let b = SpanBuilder::new(NOW).with_context(&headers, NOW);
    let span_hex = b.get_current_span_id_hex();
    assert_eq!(span_hex.len(), 16);
    let expected_tp = format!("00-11112222333344445555666677778888-{}-01", span_hex);
    let ts = sp_istio_agent::headers::build_new_tracestate(&headers, &expected_tp, "");
    assert_eq!(ts, format!("x-sp-traceparent={},vendor=1", expected_tp));
    let p = outgoing_headers(&b, &headers);
    assert_eq!(p.tracestate, format!("x-sp-traceparent={},x-sp-session-id=s1,vendor=1", expected_tp));
    assert_eq!(p.traceparent, None);
    assert_eq!(p.hop_count, "1");
}

#[test]
fn rewrite_preserves_third_party_order_and_replaces_own_entry() {
    let headers = headers_of(&[("tracestate", "a=1,x-sp-traceparent=old,b=2,x-sp-session-id=s,c=3")]);
    let ts = sp_istio_agent::headers::build_new_tracestate(&headers, "NEW", "ignored");
    assert_eq!(ts, "x-sp-traceparent=NEW,a=1,b=2,x-sp-session-id=s,c=3");
    let again = sp_istio_agent::headers::build_new_tracestate(&headers_of(&[("tracestate", &ts)]), "NEWER", "x");
    assert_eq!(again, "x-sp-traceparent=NEWER,a=1,b=2,x-sp-session-id=s,c=3");
}

#[test]
fn hop_counter_increments_and_single_value_header_added_when_absent() {
    let b = SpanBuilder::new(NOW);
    let p = outgoing_headers(&b, &headers_of(&[("x-sp-num", "41")]));
    assert_eq!(p.hop_count, "42");
    assert!(p.traceparent.is_some());
    let p2 = outgoing_headers(&b, &headers_of(&[("x-sp-num", "junk")]));
    assert_eq!(p2.hop_count, "1");
    let p3 = outgoing_headers(&b, &headers_of(&[("x-sp-num", "4294967295")]));
    assert_eq!(p3.hop_count, "4294967296");
}

#[test]
fn mask_string_shape() {
    let v = "abcdefghij";
    for (p, s) in [(0usize, 0usize), (2, 3), (5, 5), (10, 1), (3, 0)] {
        let m = mask_string(v, p, s);
        assert_eq!(m.chars().count(), v.chars().count());
        if v.len() > p + s {
            assert!(m.starts_with(&v[..p]));
            assert!(m.ends_with(&v[v.len() - s..]));
        } else {
            assert!(m.chars().all(|c| c == '*'));
        }
    }
    assert_eq!(mask_string("héllo wörld", 2, 2), "hé*******ld");
}

#[test]
fn no_rules_collects_everything() {
    let config = Config::default();
    let headers = headers_of(&[(":path", "/anything")]);
    assert!(should_collect_by_rules(&config, &headers, "inbound"));
}

#[test]
fn inbound_rule_matches_path() {
    let mut config = Config::default();
    config.collection_rules.push(server_rule("^/api/.*"));
    assert!(should_collect_by_rules(&config, &headers_of(&[(":path", "/api/orders")]), "inbound"));
    assert!(!should_collect_by_rules(&config, &headers_of(&[(":path", "/health")]), "inbound"));
}

#[test]
fn outbound_rule_needs_host_and_path() {
    let mut config = Config::default();
    config.collection_rules.push(client_rule("example\\.com", &["^/v1/"]));
    let hit = headers_of(&[("host", "example.com"), (":path", "/v1/items")]);
    let miss = headers_of(&[("host", "example.com"), (":path", "/v2/items")]);
    assert!(should_collect_by_rules(&config, &hit, "outbound"));
    assert!(!should_collect_by_rules(&config, &miss, "outbound"));
    assert!(should_collect_by_rules(&config, &miss, "inbound"));
}

#[test]
fn invalid_pattern_falls_back_to_equality() {
    assert!(match_pattern("(", "("));
    assert!(!match_pattern("(", "x("));
    assert!(match_pattern("^/a", "/abc"));
}

#[test]
fn exemption_short_circuits_collection() {
    let mut config = Config::default();
    config.collection_rules.push(server_rule(".*"));
    config.exemption_rules.push(ExemptionRule::default());
    let headers = headers_of(&[(":path", "/v1/traces")]);
    assert!(is_exempted(&config, &headers));
    assert!(!should_collect_by_rules(&config, &headers, "inbound"));
    assert!(!should_collect_by_rules(&config, &headers, "auto"));
    let host_rule = ExemptionRule { host_patterns: vec!["internal".to_string()], path_patterns: vec![] };
    let mut c2 = Config::default();
    c2.exemption_rules.push(host_rule);
    assert!(is_exempted(&c2, &headers_of(&[("host", "svc.internal")])));
    assert!(!is_exempted(&c2, &headers_of(&[("host", "public.com")])));
}

#[test]
fn missing_session_forces_capture() {
    let mut config = Config::default();
    config.collection_rules.push(server_rule("^/api/"));
    let headers = headers_of(&[(":path", "/health")]);
    let isolated = SpanBuilder::new(NOW).with_traffic_direction("inbound".to_string()).with_context(&headers, NOW);
    assert!(!should_collect_by_rules(&config, &headers, "inbound"));
    assert!(should_capture(&isolated, &config, &headers));
    let with_session = headers_of(&[(":path", "/health"), ("x-sp-session-id", "s")]);
    let linked = SpanBuilder::new(NOW).with_traffic_direction("inbound".to_string()).with_context(&with_session, NOW);
    assert!(!should_capture(&linked, &config, &with_session));
}

#[test]
fn lookup_404_resumes_and_save_500_fails_without_effect() {
    let mut ex = Exchange::new();
    let step = ex.on_request_headers(NOW, false, true, true);
    assert!(step.process && step.issue_lookup);
    assert_eq!(ex.on_lookup_dispatched(Some(7)), Directive::Pause);
    assert_eq!(ex.on_call_response(8, 200, 10), CallOutcome::Ignored);
    assert_eq!(ex.on_call_response(7, 404, 10), CallOutcome::Resume);
    assert_eq!(ex.pending, PendingCall::NoPending);
    assert!(!ex.injected);
    ex.on_save_dispatched(Some(9));
    let before = ex;
    assert_eq!(ex.on_call_response(9, 500, 0), CallOutcome::SaveFailed);
    assert_eq!(ex.pending, PendingCall::NoPending);
    assert_eq!(ex.injected, before.injected);
    assert_eq!(ex.start_time, Some(NOW));
}

#[test]
fn lookup_with_data_injects_and_skips_response_processing() {
    let mut ex = Exchange::new();
    ex.on_request_headers(NOW, false, true, true);
    ex.on_lookup_dispatched(Some(1));
    assert_eq!(ex.on_call_response(1, 200, 5), CallOutcome::DecodeLookup);
    assert_eq!(ex.on_lookup_decoded(true), CallOutcome::SendInjected);
    assert!(ex.injected);
    assert!(!ex.on_response_headers(3, true).capture);
    let mut ok = Exchange::new();
    ok.on_save_dispatched(Some(4));
    assert_eq!(ok.on_call_response(4, 204, 0), CallOutcome::SaveSucceeded);
}

#[test]
fn gateway_traffic_is_skipped_for_good() {
    let mut ex = Exchange::new();
    let step = ex.on_request_headers(5, true, true, true);
    assert!(!step.process && !step.issue_lookup);
    let again = ex.on_request_headers(6, false, true, true);
    assert!(!again.process);
    assert_eq!(ex.start_time, Some(5));
    assert!(!ex.on_response_body(true, true).save);
    assert!(is_from_istio_ingressgateway(&vec!["a".to_string(), "x-istio-ingressgateway-1".to_string()]));
    assert!(!is_from_istio_ingressgateway(&vec!["reviews".to_string()]));
}

#[test]
fn direction_detection_order() {
    let none = DirectionSignals {
        upstream_host: None,
        cluster_name: None,
        connection_mtls: None,
        listener_direction: None,
        metadata_direction: None,
        source_address: None,
        has_forwarded_for: false,
    };
    assert_eq!(detect_traffic_direction(&Some("server".to_string()), &none), "inbound");
    assert_eq!(detect_traffic_direction(&Some("client".to_string()), &none), "outbound");
    assert_eq!(detect_traffic_direction(&None, &none), "auto");
    let cluster = DirectionSignals { cluster_name: Some("inbound|8080||svc".to_string()), ..none };
    assert_eq!(detect_traffic_direction(&None, &cluster), "inbound");
    let port = DirectionSignals {
        source_address: Some("10.0.0.1:15001".to_string()),
        cluster_name: None,
        ..cluster
    };
    assert_eq!(detect_traffic_direction(&None, &port), "outbound");
    let fwd = DirectionSignals { source_address: None, has_forwarded_for: true, ..port };
    assert_eq!(detect_traffic_direction(&None, &fwd), "inbound");
}

#[test]
fn extract_record_attributes() {
    let b = SpanBuilder::new(NOW)
        .with_service_name("svc".to_string())
        .with_traffic_direction("inbound".to_string())
        .with_context(&headers_of(&[("x-sp-session-id", "s9")]), NOW);
    let req = headers_of(&[("content-type", "text/plain"), ("Authorization", "secret"), ("X-Custom", "v")]);
    let resp = headers_of(&[(":status", "201"), ("content-type", "application/octet-stream")]);
    let data = b.create_extract_span(&req, b"hi", &resp, &[1, 2, 3], Some("h"), Some("/p"), Some(5), NOW);
    let span = &data.spans[0];
    assert_eq!(span.kind, SpanKind::Server);
    assert_eq!(span.start_time_unix_nano, 5);
    assert_eq!(span.name, "/p");
    let keys: Vec<&str> = span.attributes.iter().map(|a| a.key.as_str()).collect();
    assert_eq!(
        keys,
        vec![
            "sp.service.name",
            "sp.traffic.direction",
            "sp.span.type",
            "sp.session.id",
            "http.request.header.content-type",
            "http.request.header.x-custom",
            "url.path",
            "url.host",
            "http.request.body",
            "http.response.header.:status",
            "http.response.header.content-type",
            "http.response.status_code",
            "http.response.body",
        ]
    );
    assert_eq!(str_of(&span.attributes[8]), "hi");
    assert_eq!(str_of(&span.attributes[11]), "#201");
    assert_eq!(str_of(&span.attributes[12]), "AQID");
    assert!(should_skip_header("Cookie"));
    assert!(!should_skip_header("accept"));
    let inject = b.create_inject_span(&req, b"", None, None, NOW);
    assert_eq!(inject.spans[0].name, "unknown_path");
    assert_eq!(inject.spans[0].kind, SpanKind::Client);
    assert_eq!(inject.resource_attributes.len(), 2);
}

#[test]
fn agent_response_from_record() {
    let long = "QUJD".repeat(30);
    let attrs = vec![
        KeyValue { key: "http.response.status_code".to_string(), value: AttrValue::Int(418) },
        KeyValue { key: "http.response.header.x-a".to_string(), value: AttrValue::Str("1".to_string()) },
        KeyValue { key: "http.response.body".to_string(), value: AttrValue::Str(long.clone()) },
    ];
    let b = SpanBuilder::new(NOW);
    let mut data = b.create_inject_span(&HeaderMap::new(), b"", None, None, NOW);
    data.spans[0].attributes = attrs;
    let r = find_agent_response(&data).unwrap();
    assert_eq!(r.status_code, 418);
    assert_eq!(r.headers, vec![("x-a".to_string(), "1".to_string())]);
    assert_eq!(r.body, b"ABC".repeat(30));
    assert!(is_base64_encoded(&long));
    assert!(!is_base64_encoded("QUJD"));
    data.spans[0].attributes = vec![];
    assert!(extract_agent_response_from_span(&data.spans[0]).is_none());
}

#[test]
fn cache_and_client_errors() {
    let h = CacheHandler::new(NOW);
    match h.prepare_cache_lookup(Err("boom".to_string())) {
        Err(CacheError::SerializationError(m)) => assert_eq!(m, "boom"),
        _ => panic!("expected a serialization error"),
    }
    let d = h.prepare_cache_lookup(Ok(vec![0u8; 12])).unwrap();
    assert_eq!(d.content_length, "12");
    assert_eq!(d.headers_as_refs()[1], (":path", "/v1/inject"));
    let req = h.store_cache_async(Ok(vec![1, 2])).unwrap();
    assert_eq!(req.upstream, "local_backend");
    assert_eq!(req.headers[2], (":authority".to_string(), "host.docker.internal:8080".to_string()));
    let mut far = CacheHandler::new(NOW);
    far.softprobe_endpoint = "https://elsewhere.example".to_string();
    assert!(matches!(far.store_cache_async(Ok(vec![])), Err(CacheError::HttpError(_))));
    assert_eq!(CacheError::TimeoutError.message(), "Timeout error");
    assert_eq!(CacheError::InvalidResponse.message(), "Invalid response");
    let c = HttpClient::new();
    assert!(matches!(c.post_sync("u", vec![], vec![]), Err(HttpError::ParseError(_))));
    let hs = c.post_headers("/x", "a", &vec![("Host".to_string(), "h".to_string()), ("k".to_string(), "v".to_string())]);
    assert_eq!(hs.len(), 4);
    let mut config = Config::default();
    config.api_key = "key".to_string();
    let call = save_call(&config, 300);
    assert_eq!(call.cluster, "outbound|443||o.softprobe.ai");
    assert_eq!(call.headers[4], ("content-length".to_string(), "300".to_string()));
}

#[test]
fn decimal_parsing_matches_std() {
    for s in ["0", "+7", "-7", "42", "", "-", "+", "12a", "9223372036854775807", "-9223372036854775808", "9223372036854775808"] {
        assert_eq!(parse_i64(s), s.parse::<i64>().ok(), "{}", s);
    }
    for s in ["0", "+7", "-0", "4294967295", "4294967296", "x"] {
        assert_eq!(parse_u32(s), s.parse::<u32>().ok(), "{}", s);
    }
    assert_eq!(decimal_string(0), "0");
    assert_eq!(decimal_string(18446744073709551615), "18446744073709551615");
}

#[test]
fn short_or_empty_ids_are_ignored() {
    for entry in ["x-sp-traceparent=00-ab-cd-01", "x-sp-traceparent=00---01"] {
        let headers = headers_of(&[("tracestate", entry)]);
        let b = SpanBuilder::new(NOW).with_context(&headers, NOW);
        assert_eq!(b.parent_span_id, None);
        assert_eq!(b.trace_id, generate_trace_id(NOW));
        assert_eq!(b.get_trace_id_hex().len(), 32);
    }
    assert_eq!(parse_traceparent_value("00-ab-cd-01"), None);
    assert_eq!(parse_traceparent_value("00-11112222333344445555666677778888-aaaa-01"), None);
}

#[test]
fn upper_case_digits_come_back_lower_case() {
    let headers = headers_of(&[("tracestate", "x-sp-traceparent=00-ABCDEF0123456789ABCDEF0123456789-AAAABBBBCCCCDDDD-01")]);
    let b = SpanBuilder::new(NOW).with_context(&headers, NOW);
    let span = generate_span_id(NOW + 1);
    let tp = b.generate_traceparent(&span);
    let parts: Vec<&str> = tp.split('-').collect();
    assert_eq!(parts, vec!["00", "abcdef0123456789abcdef0123456789", hex_encode(&span).as_str(), "01"]);
}

#[test]
fn empty_session_header_is_kept_and_counts_as_none() {
    let mut config = Config::default();
    config.collection_rules.push(server_rule("^/api/"));
    let headers = headers_of(&[("x-sp-session-id", ""), (":path", "/health")]);
    let b = SpanBuilder::new(NOW).with_traffic_direction("inbound".to_string()).with_context(&headers, NOW);
    assert_eq!(b.get_session_id(), "");
    assert!(!b.has_session_id());
    assert!(!b.prior_session);
    assert!(should_capture(&b, &config, &headers));
}

#[test]
fn second_rewrite_with_same_values_changes_nothing() {
    for ts in ["a=1, x-sp-traceparent=old ,b=2", "x-sp-session-id=s,c=3", ""] {
        let h = headers_of(&[("tracestate", ts)]);
        let r1 = sp_istio_agent::headers::build_new_tracestate(&h, "00-aa-bb-01", "sid");
        let h2 = headers_of(&[("tracestate", &r1)]);
        let r2 = sp_istio_agent::headers::build_new_tracestate(&h2, "00-aa-bb-01", "sid");
        assert_eq!(r1, r2);
    }
}
