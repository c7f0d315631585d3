use sp_istio_agent::config::{Config, ExemptionRule};
use sp_istio_agent::headers::{build_new_tracestate, detect_service_name, HeaderMap};

fn headers_of(pairs: &[(&str, &str)]) -> HeaderMap {
    let mut h = HeaderMap::new();
    for (k, v) in pairs {
        h.insert(k.to_string(), v.to_string());
    }
    h
}

#[test]
fn test_config_default() {
    let config = Config::default();
    assert_eq!(config.sp_backend_url, "https://o.softprobe.ai");
    assert_eq!(config.service_name, "default-service");
    assert!(config.traffic_direction.is_none());
    assert!(config.collection_rules.is_empty());
    assert!(config.api_key.is_empty());
}

#[test]
fn test_exemption_rule_default() {
    let rule = ExemptionRule::default();
    assert!(rule.host_patterns.is_empty());
    assert!(rule.path_patterns.contains(&"/v1/traces".to_string()));
    assert!(rule.path_patterns.contains(&"/api/traces".to_string()));
}

#[test]
fn test_detect_service_name_with_configured_name() {
    let headers = HeaderMap::new();
    let config_name = "my-service";
    let result = detect_service_name(&headers, config_name);
    assert_eq!(result, "my-service");
}

#[test]
fn test_detect_service_name_with_default_config() {
    let headers = HeaderMap::new();
    let config_name = "default-service";
    let result = detect_service_name(&headers, config_name);
    assert_eq!(result, "default-service");
}

#[test]
fn test_detect_service_name_from_header() {
    let headers = headers_of(&[("x-sp-service-name", "header-service")]);
    let config_name = "default-service";
    let result = detect_service_name(&headers, config_name);
    assert_eq!(result, "header-service");
}

#[test]
fn test_detect_service_name_header_overrides_config() {
    let headers = headers_of(&[("x-sp-service-name", "header-service")]);
    let config_name = "my-service";
    let result = detect_service_name(&headers, config_name);
    assert_eq!(result, "my-service");
}

#[test]
fn test_detect_service_name_empty_header() {
    let headers = headers_of(&[("x-sp-service-name", "")]);
    let config_name = "default-service";
    let result = detect_service_name(&headers, config_name);
    assert_eq!(result, "default-service");
}

#[test]
fn test_build_new_tracestate_with_no_existing() {
    let headers = HeaderMap::new();
    let traceparent = "00-aaaaaaaaaaaaaaaaaaaaaaaaaaaaaaaa-bbbbbbbbbbbbbbbb-01";
    let result = build_new_tracestate(&headers, traceparent, "");
    assert!(result.starts_with("x-sp-traceparent="));
}

#[test]
fn test_build_new_tracestate_with_existing_entries() {
    let headers = headers_of(&[("tracestate", "vendor1=value1,vendor2=value2")]);
    let traceparent = "00-aaaaaaaaaaaaaaaaaaaaaaaaaaaaaaaa-bbbbbbbbbbbbbbbb-01";
    let result = build_new_tracestate(&headers, traceparent, "");
    assert!(result.contains("vendor1=value1"));
    assert!(result.contains("vendor2=value2"));
    assert!(result.starts_with("x-sp-traceparent="));
}

#[test]
fn test_build_new_tracestate_replaces_existing_sp_entry() {
    let headers = headers_of(&[("tracestate", "x-sp-traceparent=old-value,vendor1=value1")]);
    let traceparent = "00-aaaaaaaaaaaaaaaaaaaaaaaaaaaaaaaa-bbbbbbbbbbbbbbbb-01";
    let result = build_new_tracestate(&headers, traceparent, "");
    assert!(result.starts_with("x-sp-traceparent="));
    assert!(result.contains("vendor1=value1"));
    assert!(!result.contains("old-value"));
}

#[test]
fn test_build_new_tracestate_handles_whitespace() {
    let headers = headers_of(&[("tracestate", " vendor1=value1 , vendor2=value2 ")]);
    let traceparent = "00-aaaaaaaaaaaaaaaaaaaaaaaaaaaaaaaa-bbbbbbbbbbbbbbbb-01";
    let result = build_new_tracestate(&headers, traceparent, "");
    assert!(result.contains("vendor1=value1"));
    assert!(result.contains("vendor2=value2"));
}

#[test]
fn test_build_new_tracestate_empty_existing() {
    let headers = headers_of(&[("tracestate", "")]);
    let traceparent = "00-aaaaaaaaaaaaaaaaaaaaaaaaaaaaaaaa-bbbbbbbbbbbbbbbb-01";
    let result = build_new_tracestate(&headers, traceparent, "");
    assert!(result.starts_with("x-sp-traceparent="));
}
