use sp_istio_agent::headers::HeaderMap;
use sp_istio_agent::urls::{extract_client_info, get_backend_authority, get_backend_cluster_name};

fn headers_of(pairs: &[(&str, &str)]) -> HeaderMap {
    let mut h = HeaderMap::new();
    for (k, v) in pairs {
        h.insert(k.to_string(), v.to_string());
    }
    h
}

#[test]
fn test_extract_client_info_from_referer() {
    let headers = headers_of(&[("referer", "https://example.com/page?param=value")]);
    let (host, path) = extract_client_info(&headers);
    assert_eq!(host, Some("example.com".to_string()));
    assert_eq!(path, Some("/page".to_string()));
}

#[test]
fn test_extract_client_info_from_origin() {
    let headers = headers_of(&[("origin", "https://api.example.com")]);
    let (host, path) = extract_client_info(&headers);
    assert_eq!(host, Some("api.example.com".to_string()));
    assert_eq!(path, None);
}

#[test]
fn test_extract_client_info_from_host_header() {
    let headers = headers_of(&[("host", "service.internal")]);
    let (host, path) = extract_client_info(&headers);
    assert_eq!(host, Some("service.internal".to_string()));
    assert_eq!(path, None);
}

#[test]
fn test_extract_client_info_from_authority() {
    let headers = headers_of(&[(":authority", "api.service.com:8080")]);
    let (host, path) = extract_client_info(&headers);
    assert_eq!(host, Some("api.service.com:8080".to_string()));
    assert_eq!(path, None);
}

#[test]
fn test_extract_client_info_with_path() {
    let headers = headers_of(&[("host", "service.internal"), (":path", "/api/v1/users")]);
    let (host, path) = extract_client_info(&headers);
    assert_eq!(host, Some("service.internal".to_string()));
    assert_eq!(path, Some("/api/v1/users".to_string()));
}

#[test]
fn test_extract_client_info_referer_priority() {
    let headers = headers_of(&[
        ("referer", "https://referer.com/page"),
        ("origin", "https://origin.com"),
        ("host", "host.com"),
    ]);
    let (host, path) = extract_client_info(&headers);
    assert_eq!(host, Some("referer.com".to_string()));
    assert_eq!(path, Some("/page".to_string()));
}

#[test]
fn test_extract_client_info_invalid_referer() {
    let headers = headers_of(&[("referer", "invalid-url"), ("host", "fallback.com")]);
    let (host, path) = extract_client_info(&headers);
    assert_eq!(host, Some("fallback.com".to_string()));
    assert_eq!(path, None);
}

#[test]
fn test_get_backend_authority_https_default_port() {
    assert_eq!(get_backend_authority("https://o.softprobe.ai"), "o.softprobe.ai");
}

#[test]
fn test_get_backend_authority_https_custom_port() {
    assert_eq!(get_backend_authority("https://o.softprobe.ai:8443"), "o.softprobe.ai:8443");
}

#[test]
fn test_get_backend_authority_http_default_port() {
    assert_eq!(get_backend_authority("http://example.com"), "example.com");
}

#[test]
fn test_get_backend_authority_http_custom_port() {
    assert_eq!(get_backend_authority("http://example.com:8080"), "example.com:8080");
}

#[test]
fn test_get_backend_authority_invalid_url() {
    assert_eq!(get_backend_authority("invalid-url"), "o.softprobe.ai");
}

#[test]
fn test_get_backend_cluster_name_https() {
    assert_eq!(get_backend_cluster_name("https://o.softprobe.ai"), "outbound|443||o.softprobe.ai");
}

#[test]
fn test_get_backend_cluster_name_https_custom_port() {
    assert_eq!(get_backend_cluster_name("https://o.softprobe.ai:8443"), "outbound|8443||o.softprobe.ai");
}

#[test]
fn test_get_backend_cluster_name_http() {
    assert_eq!(get_backend_cluster_name("http://example.com"), "outbound|80||example.com");
}

#[test]
fn test_get_backend_cluster_name_http_custom_port() {
    assert_eq!(get_backend_cluster_name("http://example.com:3000"), "outbound|3000||example.com");
}

#[test]
fn test_get_backend_cluster_name_invalid_url() {
    assert_eq!(get_backend_cluster_name("invalid-url"), "outbound|443||o.softprobe.ai");
}

#[test]
fn test_extract_client_info_no_headers() {
    let headers = HeaderMap::new();
    let (host, path) = extract_client_info(&headers);
    assert_eq!(host, None);
    assert_eq!(path, None);
}
