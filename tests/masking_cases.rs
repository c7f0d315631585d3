use sp_istio_agent::masking::{
    detect_sensitive_type, mask_json_body, mask_span_attributes, mask_string, MaskingConfig,
    SensitiveDataType,
};
use sp_istio_agent::otel::{AttrValue, KeyValue};

fn str_attr(key: &str, value: &str) -> KeyValue {
    KeyValue { key: key.to_string(), value: AttrValue::Str(value.to_string()) }
}

fn str_value(kv: &KeyValue) -> Option<&str> {
    match &kv.value {
        AttrValue::Str(s) => Some(s.as_str()),
        AttrValue::Int(_) => None,
    }
}

#[test]
fn test_mask_string() {
    assert_eq!(mask_string("13812345678", 3, 4), "138****5678");
    assert_eq!(mask_string("abc", 3, 4), "***");
    assert_eq!(mask_string("", 3, 4), "");
    assert_eq!(mask_string("hello", 2, 2), "he*lo");
    assert_eq!(mask_string("x", 1, 1), "*");
}

#[test]
fn test_detect_sensitive_type() {
    assert_eq!(detect_sensitive_type("13812345678"), SensitiveDataType::Phone);
    assert_eq!(detect_sensitive_type("110101199001011234"), SensitiveDataType::IdCard);
    assert_eq!(detect_sensitive_type("alice@example.com"), SensitiveDataType::Email);
    assert_eq!(detect_sensitive_type("6222021234567890123"), SensitiveDataType::BankCard);
    assert_eq!(detect_sensitive_type("Bearer eyJhbGciOiJIUzI1NiJ9"), SensitiveDataType::Token);
    assert_eq!(detect_sensitive_type("192.168.1.1"), SensitiveDataType::IpAddress);
    assert_eq!(detect_sensitive_type("normal text"), SensitiveDataType::Unknown);
}

#[test]
fn test_mask_json_body() {
    let json = r#"{"phone":"13812345678","name":"Alice","email":"alice@example.com"}"#;
    let config = MaskingConfig::default();
    let masked = mask_json_body(json, &config);
    assert!(masked.contains("138*****678") || masked.contains("138******78"));
    assert!(masked.contains("***"));
    assert!(masked.contains("Alice"));
}

#[test]
fn test_mask_span_attributes() {
    let mut attrs = vec![
        str_attr("http.request.header.authorization", "Bearer token123456"),
        str_attr("http.request.header.content-type", "application/json"),
    ];
    let config = MaskingConfig::default();
    mask_span_attributes(&mut attrs, &config);
    if let Some(v) = str_value(&attrs[0]) {
        assert!(v.contains("***"));
    }
    if let Some(v) = str_value(&attrs[1]) {
        assert_eq!(v, "application/json");
    }
}

#[test]
fn test_mask_disabled() {
    let mut attrs = vec![str_attr("http.request.header.authorization", "Bearer token123456")];
    let mut config = MaskingConfig::default();
    config.enabled = false;
    mask_span_attributes(&mut attrs, &config);
    if let Some(v) = str_value(&attrs[0]) {
        assert_eq!(v, "Bearer token123456");
    }
}
