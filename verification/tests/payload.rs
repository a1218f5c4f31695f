use lifelinetty::payload::unversioned::{checksum_text, Payload, RenderFrame};
use lifelinetty::payload::{Defaults, DEFAULT_PAGE_TIMEOUT_MS, DEFAULT_SCROLL_MS};
use lifelinetty::Error;

fn blank_payload(line1: &str, line2: &str) -> Payload {
    Payload {
        line1: line1.into(),
        line2: line2.into(),
        bar_value: None,
        bar_max: None,
        bar_label: None,
        bar_line1: None,
        bar_line2: None,
        backlight: None,
        blink: None,
        scroll_speed_ms: None,
        ttl_ms: None,
        page_timeout_ms: None,
        clear: None,
        test: None,
        checksum: None,
    }
}

#[test]
fn payload_parses_basic_payload_with_defaults() {
    let raw = r#"{"line1":"Hello","line2":"World"}"#;
    let frame = RenderFrame::from_payload_json(raw).unwrap();
    assert_eq!(frame.line1, "Hello");
    assert_eq!(frame.line2, "World");
    assert!(frame.backlight_on);
    assert_eq!(frame.scroll_speed_ms, DEFAULT_SCROLL_MS);
    assert_eq!(frame.page_timeout_ms, DEFAULT_PAGE_TIMEOUT_MS);
}

#[test]
fn payload_bar_percent_from_value_and_max() {
    let raw = r#"{"line1":"","line2":"","bar_value":500,"bar_max":1000}"#;
    let frame = RenderFrame::from_payload_json(raw).unwrap();
    assert_eq!(frame.bar_percent, Some(50));
}

#[test]
fn payload_checksum_validates() {
    let payload = blank_payload("Hi", "There");
    let canonical = checksum_text(&payload);
    let crc = crc32fast::hash(canonical.as_bytes());
    let mut value: serde_json::Value = serde_json::from_str(&canonical).unwrap();
    value["checksum"] = serde_json::Value::String(format!("{crc:08x}"));
    let raw = value.to_string();

    let parsed = RenderFrame::from_payload_json(&raw).unwrap();
    assert_eq!(parsed.line1, "Hi");
}

#[test]
fn payload_checksum_rejects_invalid() {
    let raw = r#"{"line1":"A","line2":"B","checksum":"deadbeef"}"#;
    let err = RenderFrame::from_payload_json(raw).unwrap_err();
    assert!(matches!(err, Error::ChecksumMismatch));
}

#[test]
fn payload_checksum_text_lists_every_field_in_order() {
    let payload = blank_payload("Hi", "There");
    assert_eq!(
        checksum_text(&payload),
        r#"{"line1":"Hi","line2":"There","bar_value":null,"bar_max":null,"bar_label":null,"bar_line1":null,"bar_line2":null,"backlight":null,"blink":null,"scroll_speed_ms":null,"ttl_ms":null,"page_timeout_ms":null,"clear":null,"test":null,"checksum":null}"#
    );
}

#[test]
fn payload_checksum_accepts_0x_prefix() {
    let payload = blank_payload("Hi", "There");
    let crc = crc32fast::hash(checksum_text(&payload).as_bytes());
    let raw = format!(r#"{{"line1":"Hi","line2":"There","checksum":"0x{crc:08X}"}}"#);
    assert!(RenderFrame::from_payload_json(&raw).is_ok());
}

#[test]
fn payload_bad_checksum_hex_is_a_parse_error() {
    let raw = r#"{"line1":"A","line2":"B","checksum":"zz"}"#;
    let err = RenderFrame::from_payload_json(raw).unwrap_err();
    assert!(err.message().contains("invalid checksum hex"));
}

#[test]
fn payload_bar_row_and_ttl() {
    let raw = r#"{"line1":"","line2":"","bar_value":1,"bar_max":3,"bar_line1":true,"ttl_ms":70}"#;
    let frame = RenderFrame::from_payload_json(raw).unwrap();
    assert_eq!(frame.bar_percent, Some(33));
    assert_eq!(frame.bar_row, Some(0));
    assert_eq!(frame.ttl_ms, Some(70));
}

#[test]
fn payload_bar_percent_rounds_half_up_and_caps() {
    let raw = r#"{"line1":"","line2":"","bar_value":1,"bar_max":8}"#;
    assert_eq!(RenderFrame::from_payload_json(raw).unwrap().bar_percent, Some(13));
    let raw = r#"{"line1":"","line2":"","bar_value":300,"bar_max":100}"#;
    assert_eq!(RenderFrame::from_payload_json(raw).unwrap().bar_percent, Some(100));
    let raw = r#"{"line1":"","line2":"","bar_value":5,"bar_max":0}"#;
    assert_eq!(RenderFrame::from_payload_json(raw).unwrap().bar_percent, Some(100));
}

#[test]
fn payload_defaults_apply() {
    let frame = RenderFrame::from_payload_json_with_defaults(
        r#"{"line1":"x","line2":"y"}"#,
        Defaults { scroll_speed_ms: 11, page_timeout_ms: 22 },
    )
    .unwrap();
    assert_eq!(frame.scroll_speed_ms, 11);
    assert_eq!(frame.page_timeout_ms, 22);
}

#[test]
fn payload_missing_line_is_json_error() {
    let err = RenderFrame::from_payload_json(r#"{"line1":"x"}"#).unwrap_err();
    assert!(err.message().contains("json"));
}

#[test]
fn reload_request_needs_no_lines() {
    let frame =
        lifelinetty::payload::RenderFrame::from_payload_json(r#"{"schema_version":1,"config_reload":true}"#)
            .unwrap();
    assert!(frame.config_reload);
    assert_eq!(frame.line1, "");
    assert_eq!(frame.line2, "");
    let err = lifelinetty::payload::RenderFrame::from_payload_json(r#"{"schema_version":1,"line2":"x"}"#)
        .unwrap_err();
    assert!(err.message().contains("missing field `line1`"));
}
