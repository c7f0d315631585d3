use sp_istio_agent::cache::CacheHandler;
use sp_istio_agent::config::Config;
use sp_istio_agent::headers::HeaderMap;
use sp_istio_agent::traffic::{RequestHeadersAccess, TrafficAnalyzer};

struct FakeHost {
    properties: Vec<(Vec<&'static str>, Vec<u8>)>,
    headers: Vec<(&'static str, &'static str)>,
}

impl RequestHeadersAccess for FakeHost {
    fn get_context_property(&self, path: Vec<&str>) -> Option<Vec<u8>> {
        self.properties.iter().find(|(p, _)| *p == path).map(|(_, v)| v.clone())
    }

    fn get_request_header(&self, name: &str) -> Option<String> {
        self.headers.iter().find(|(k, _)| *k == name).map(|(_, v)| v.to_string())
    }
}

#[test]
fn trait_direction_reads_host_properties() {
    let config = Config::default();
    let host = FakeHost { properties: vec![(vec!["cluster_name"], b"outbound|80||svc".to_vec())], headers: vec![] };
    assert_eq!(host.detect_traffic_direction(&config), "outbound");
    let bad_utf8 = FakeHost { properties: vec![(vec!["listener_direction"], vec![0xff, 0xfe])], headers: vec![] };
    assert_eq!(bad_utf8.detect_traffic_direction(&config), "auto");
    let listener = FakeHost { properties: vec![(vec!["listener_direction"], b"INBOUND".to_vec())], headers: vec![] };
    assert_eq!(listener.detect_traffic_direction(&config), "INBOUND");
    let forwarded = FakeHost { properties: vec![], headers: vec![("x-forwarded-for", "1.2.3.4")] };
    assert_eq!(forwarded.detect_traffic_direction(&config), "inbound");
    let mut configured = Config::default();
    configured.traffic_direction = Some("client".to_string());
    assert_eq!(forwarded.detect_traffic_direction(&configured), "outbound");
}

#[test]
fn trait_gateway_detection_and_rules() {
    let host = FakeHost {
        properties: vec![(vec!["node", "id"], b"router~istio-ingressgateway-abc".to_vec())],
        headers: vec![],
    };
    assert!(host.is_from_istio_ingressgateway());
    let peer = FakeHost { properties: vec![], headers: vec![("x-envoy-peer-metadata-id", "istio-ingressgateway")] };
    assert!(peer.is_from_istio_ingressgateway());
    let plain = FakeHost { properties: vec![(vec!["node", "id"], b"sidecar".to_vec())], headers: vec![] };
    assert!(!plain.is_from_istio_ingressgateway());
    let mut config = Config::default();
    config.create_collection_rules(vec!["^/api/".to_string()], vec![("example.com".to_string(), vec![])]);
    assert_eq!(config.collection_rules.len(), 2);
    assert_eq!(config.collection_rules[1].http.client[0].host, "example.com");
    let mut headers = HeaderMap::new();
    headers.insert(":path".to_string(), "/api/x".to_string());
    assert!(plain.should_collect_by_rules(&config, &headers));
    assert!(!plain.is_exempted(&config, &headers));
    let mut other = HeaderMap::new();
    other.insert(":path".to_string(), "/other".to_string());
    assert!(!plain.should_collect_by_rules(&config, &other));
}

#[test]
fn store_record_describes_completed_exchange() {
    let handler = CacheHandler::new(7).with_context(&HeaderMap::new(), 7);
    let mut response = HeaderMap::new();
    response.insert(":status".to_string(), "200".to_string());
    let data = handler.store_record(&HeaderMap::new(), b"", &response, b"", 9);
    assert_eq!(data.spans.len(), 1);
    assert_eq!(data.spans[0].end_time_unix_nano, 9);
    let lookup = handler.lookup_record(&HeaderMap::new(), b"", 9);
    assert_eq!(lookup.spans[0].start_time_unix_nano, 9);
}

#[test]
fn configured_direction_decides_without_host_signals() {
    let mut config = Config::default();
    config.traffic_direction = Some("server".to_string());
    let host = FakeHost { properties: vec![(vec!["upstream_host"], b"x".to_vec())], headers: vec![] };
    assert_eq!(host.detect_traffic_direction(&config), "inbound");
}
