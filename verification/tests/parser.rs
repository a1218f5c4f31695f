use lifelinetty::payload::percent_of;
use lifelinetty::compression::{compress, CompressionCodec};
use lifelinetty::payload::canonical::checksum_text;
use lifelinetty::payload::command::{
    decode_command_frame, encode_command_frame, CommandMessage, CommandStream,
    COMMAND_MAX_CHUNK_BYTES, COMMAND_MAX_COMMAND_CHARS,
};
use lifelinetty::payload::{
    Defaults, DisplayMode, Icon, Payload, RenderFrame, DEFAULT_PAGE_TIMEOUT_MS, DEFAULT_SCROLL_MS,
};
use lifelinetty::Error;

fn parse(raw: &str) -> RenderFrame {
    RenderFrame::from_payload_json(raw).unwrap()
}

fn parse_with_defaults(raw: &str, defaults: Defaults) -> RenderFrame {
    RenderFrame::from_payload_json_with_defaults(raw, defaults).unwrap()
}

fn hi_there() -> Payload {
    Payload {
        line1: "Hi".into(),
        line2: "There".into(),
        bar: None,
        bar_value: None,
        bar_max: None,
        bar_label: None,
        bar_line1: None,
        bar_line2: None,
        backlight: None,
        blink: None,
        scroll: None,
        scroll_speed_ms: None,
        duration_ms: None,
        page_timeout_ms: None,
        clear: None,
        test: None,
        mode: None,
        icons: None,
        checksum: None,
        config_reload: None,
        schema_version: Some(1),
    }
}

fn with_checksum(payload: &Payload) -> String {
    let canonical = checksum_text(payload);
    let crc = crc32fast::hash(canonical.as_bytes());
    let mut value: serde_json::Value = serde_json::from_str(&canonical).unwrap();
    value["checksum"] = serde_json::Value::String(format!("{crc:08x}"));
    value.to_string()
}

fn envelope(codec: &str, payload: &str, data: &[u8]) -> String {
    let bytes: Vec<String> = data.iter().map(|b| b.to_string()).collect();
    format!(
        r#"{{"type":"compressed","schema_version":1,"codec":"{}","original_len":{},"data":[{}]}}"#,
        codec,
        payload.len(),
        bytes.join(",")
    )
}

#[test]
fn parser_parses_basic_payload_with_defaults() {
    let raw = r#"{"schema_version":1,"line1":"Hello","line2":"World"}"#;
    let frame = RenderFrame::from_payload_json(raw).unwrap();
    assert_eq!(frame.line1, "Hello");
    assert_eq!(frame.line2, "World");
    assert!(frame.backlight_on);
    assert_eq!(frame.scroll_speed_ms, DEFAULT_SCROLL_MS);
    assert_eq!(frame.page_timeout_ms, DEFAULT_PAGE_TIMEOUT_MS);
    assert!(frame.scroll_enabled);
    assert!(matches!(frame.mode, DisplayMode::Normal));
}

#[test]
fn parser_bar_percent_from_value_and_max() {
    let raw = r#"{"schema_version":1,"line1":"","line2":"","bar_value":500,"bar_max":1000}"#;
    let frame = RenderFrame::from_payload_json(raw).unwrap();
    assert_eq!(frame.bar_percent, Some(50));
}

#[test]
fn bar_field_takes_priority() {
    let raw = r#"{"schema_version":1,"line1":"","line2":"","bar":42,"bar_value":10,"bar_max":20}"#;
    let frame = RenderFrame::from_payload_json(raw).unwrap();
    assert_eq!(frame.bar_percent, Some(42));
}

#[test]
fn scroll_can_be_disabled() {
    let raw = r#"{"schema_version":1,"line1":"LongLineThatWillNotScroll","line2":"","scroll":false}"#;
    let frame = RenderFrame::from_payload_json(raw).unwrap();
    assert!(!frame.scroll_enabled);
}

#[test]
fn parser_checksum_validates() {
    let raw = with_checksum(&hi_there());
    let parsed = RenderFrame::from_payload_json(&raw).unwrap();
    assert_eq!(parsed.line1, "Hi");
}

#[test]
fn checksum_validates_with_schema_v1() {
    let payload = hi_there();
    assert_eq!(payload.schema_version, Some(1));
    let raw = with_checksum(&payload);
    let parsed = RenderFrame::from_payload_json(&raw).unwrap();
    assert_eq!(parsed.line1, "Hi");
}

#[test]
fn parser_checksum_rejects_invalid() {
    let raw = r#"{"schema_version":1,"line1":"A","line2":"B","checksum":"deadbeef"}"#;
    let err = RenderFrame::from_payload_json(raw).unwrap_err();
    assert!(matches!(err, Error::ChecksumMismatch));
}

#[test]
fn duration_ms_supports_new_name_only() {
    let raw_new = r#"{"schema_version":1,"line1":"","line2":"","duration_ms":1234}"#;
    let frame_new = RenderFrame::from_payload_json(raw_new).unwrap();
    assert_eq!(frame_new.duration_ms, Some(1234));

    let raw_legacy = r#"{"schema_version":1,"line1":"","line2":"","ttl_ms":2345}"#;
    let err = RenderFrame::from_payload_json(raw_legacy).unwrap_err();
    assert!(err.message().contains("json"));
}

#[test]
fn backlight_can_be_disabled() {
    let raw = r#"{"schema_version":1,"line1":"","line2":"","backlight":false}"#;
    let frame = parse(raw);
    assert!(!frame.backlight_on);
}

#[test]
fn blink_defaults_false_and_can_enable() {
    let raw_default = r#"{"schema_version":1,"line1":"","line2":""}"#;
    let default_frame = parse(raw_default);
    assert!(!default_frame.blink);

    let raw_blink = r#"{"schema_version":1,"line1":"","line2":"","blink":true}"#;
    let blinking_frame = parse(raw_blink);
    assert!(blinking_frame.blink);
}

#[test]
fn scroll_speed_override_respected() {
    let raw = r#"{"schema_version":1,"line1":"","line2":"","scroll_speed_ms":123}"#;
    let frame = parse(raw);
    assert_eq!(frame.scroll_speed_ms, 123);
}

#[test]
fn page_timeout_override_respected() {
    let raw = r#"{"schema_version":1,"line1":"","line2":"","page_timeout_ms":3210}"#;
    let frame = parse(raw);
    assert_eq!(frame.page_timeout_ms, 3210);
}

#[test]
fn bar_value_exceeding_max_rejected() {
    let raw = r#"{"schema_version":1,"line1":"","line2":"","bar_value":150,"bar_max":100}"#;
    let err = RenderFrame::from_payload_json(raw).unwrap_err();
    assert!(err.message().contains("bar_value"));
}

#[test]
fn bar_value_handles_zero_max() {
    let raw = r#"{"schema_version":1,"line1":"","line2":"","bar_value":0,"bar_max":0}"#;
    let err = RenderFrame::from_payload_json(raw).unwrap_err();
    assert!(err.message().contains("bar_max"));
}

#[test]
fn bar_row_defaults_to_bottom() {
    let raw = r#"{"schema_version":1,"line1":"","line2":"","bar":10}"#;
    let frame = parse(raw);
    assert_eq!(frame.bar_row, Some(1));
}

#[test]
fn bar_row_can_be_top_when_requested() {
    let raw = r#"{"schema_version":1,"line1":"","line2":"","bar":55,"bar_line1":true}"#;
    let frame = parse(raw);
    assert_eq!(frame.bar_row, Some(0));
}

#[test]
fn dashboard_mode_forces_bar_bottom() {
    let raw = r#"{"schema_version":1,"line1":"","line2":"","bar":88,"bar_line1":true,"mode":"dashboard"}"#;
    let frame = parse(raw);
    assert_eq!(frame.bar_row, Some(1));
}

#[test]
fn banner_mode_clears_second_line() {
    let raw = r#"{"schema_version":1,"line1":"Banner text","line2":"ignored","mode":"banner"}"#;
    let frame = parse(raw);
    assert_eq!(frame.line2, "");
}

#[test]
fn icons_parse_and_ignore_unknown() {
    let raw = r#"{"schema_version":1,"line1":"","line2":"","icons":["battery","unknown","heart","ARROW"]}"#;
    let frame = parse(raw);
    assert_eq!(frame.icons, vec![Icon::Battery, Icon::Heart, Icon::Arrow]);
}

#[test]
fn config_reload_flag_can_enable() {
    let raw_true = r#"{"schema_version":1,"line1":"","line2":"","config_reload":true}"#;
    let frame_true = parse(raw_true);
    assert!(frame_true.config_reload);

    let raw_default = r#"{"schema_version":1,"line1":"","line2":""}"#;
    let frame_default = parse(raw_default);
    assert!(!frame_default.config_reload);
}

#[test]
fn clear_and_test_flags_default_false_and_true() {
    let raw_default = r#"{"schema_version":1,"line1":"","line2":""}"#;
    let frame_default = parse(raw_default);
    assert!(!frame_default.clear);
    assert!(!frame_default.test);

    let raw_true = r#"{"schema_version":1,"line1":"","line2":"","clear":true,"test":true}"#;
    let frame_true = parse(raw_true);
    assert!(frame_true.clear);
    assert!(frame_true.test);
}

#[test]
fn defaults_can_override_scroll_and_page_timeout() {
    let raw = r#"{"schema_version":1,"line1":"","line2":""}"#;
    let frame = parse_with_defaults(
        raw,
        Defaults {
            scroll_speed_ms: 999,
            page_timeout_ms: 7777,
        },
    );
    assert_eq!(frame.scroll_speed_ms, 999);
    assert_eq!(frame.page_timeout_ms, 7777);
}

#[test]
fn rejects_bar_max_below_one() {
    let raw = r#"{"schema_version":1,"line1":"","line2":"","bar_value":10,"bar_max":0}"#;
    let err = RenderFrame::from_payload_json(raw).unwrap_err();
    assert!(err.message().contains("bar_max"));
}

#[test]
fn rejects_bar_value_above_max() {
    let raw = r#"{"schema_version":1,"line1":"","line2":"","bar_value":101,"bar_max":100}"#;
    let err = RenderFrame::from_payload_json(raw).unwrap_err();
    assert!(err.message().contains("bar_value"));
}

#[test]
fn rejects_zero_page_timeout() {
    let raw = r#"{"schema_version":1,"line1":"","line2":"","page_timeout_ms":0}"#;
    let err = RenderFrame::from_payload_json(raw).unwrap_err();
    assert!(err.message().contains("page_timeout_ms"));
}

#[test]
fn schema_v1_rejects_long_lines() {
    let long = "A".repeat(41);
    let raw = format!(r#"{{"schema_version":1,"line1":"{}","line2":""}}"#, long);
    let err = RenderFrame::from_payload_json(&raw).unwrap_err();
    assert!(err.message().contains("line1"));
}

#[test]
fn legacy_payload_allows_long_lines() {
    let long = "A".repeat(80);
    let raw = format!(r#"{{"line1":"{}","line2":""}}"#, long);
    let err = RenderFrame::from_payload_json(&raw).unwrap_err();
    assert!(err.message().contains("schema_version"));
}

#[test]
fn schema_v1_rejects_too_many_icons() {
    let raw = r#"{"schema_version":1,"line1":"","line2":"","icons":["one","two","three","four","five"]}"#;
    let err = RenderFrame::from_payload_json(raw).unwrap_err();
    assert!(err.message().contains("icons"));
}

#[test]
fn schema_v1_rejects_long_bar_label() {
    let long_label = "L".repeat(41);
    let raw = format!(
        r#"{{"schema_version":1,"line1":"","line2":"","bar_label":"{}"}}"#,
        long_label
    );
    let err = RenderFrame::from_payload_json(&raw).unwrap_err();
    assert!(err.message().contains("bar_label"));
}

#[test]
fn schema_v1_allows_valid_frame() {
    let raw = r#"{"schema_version":1,"line1":"Hello","line2":"World","icons":["battery","heart","arrow","wifi"]}"#;
    let frame = RenderFrame::from_payload_json(raw).unwrap();
    assert_eq!(frame.icons.len(), 4);
}

#[test]
fn command_frame_round_trip() {
    let msg = CommandMessage::Request {
        request_id: 7,
        cmd: "uptime".into(),
        scratch_path: Some(format!("{}/tunnel/req7", lifelinetty::CACHE_DIR)),
    };
    let encoded = encode_command_frame(&msg).unwrap();
    let decoded = decode_command_frame(&encoded).unwrap();
    assert!(matches!(
        decoded,
        CommandMessage::Request { request_id: 7, .. }
    ));
}

#[test]
fn command_frame_rejects_external_cache_path() {
    let msg = CommandMessage::Request {
        request_id: 1,
        cmd: "whoami".into(),
        scratch_path: Some("/tmp/out".into()),
    };
    let err = encode_command_frame(&msg).unwrap_err();
    assert!(err.message().contains("scratch_path"));
}

#[test]
fn command_frame_rejects_long_command() {
    let mut cmd = "a".repeat(COMMAND_MAX_COMMAND_CHARS);
    cmd.push('x');
    let msg = CommandMessage::Request {
        request_id: 2,
        cmd,
        scratch_path: None,
    };
    let err = encode_command_frame(&msg).unwrap_err();
    assert!(err.message().contains("command length"));
}

#[test]
fn command_frame_rejects_large_chunk() {
    let msg = CommandMessage::Chunk {
        request_id: 3,
        stream: CommandStream::Stdout,
        seq: 0,
        data: vec![0u8; COMMAND_MAX_CHUNK_BYTES + 1],
    };
    let err = encode_command_frame(&msg).unwrap_err();
    assert!(err.message().contains("chunk exceeds"));
}

#[test]
fn compressed_envelope_round_trips() {
    let payload = r#"{"schema_version":1,"line1":"HELLO","line2":"WORLD"}"#;
    let compressed = compress(payload.as_bytes(), CompressionCodec::Lz4).unwrap();
    let raw = envelope("lz4", payload, &compressed);
    let frame = RenderFrame::from_payload_json(&raw).unwrap();
    assert_eq!(frame.line1, "HELLO");
    assert_eq!(frame.line2, "WORLD");
}

#[test]
fn compressed_envelope_rejects_unknown_codec() {
    let payload = r#"{"schema_version":1,"line1":"HELLO","line2":"WORLD"}"#;
    let compressed = compress(payload.as_bytes(), CompressionCodec::Lz4).unwrap();
    let raw = envelope("snappy", payload, &compressed);
    let err = RenderFrame::from_payload_json(&raw).unwrap_err();
    assert!(err.message().contains("unsupported compression codec"));
}

#[test]
fn compressed_zstd_envelope_round_trips() {
    let payload = r#"{"schema_version":1,"line1":"Z","line2":"STD"}"#;
    let compressed = compress(payload.as_bytes(), CompressionCodec::Zstd).unwrap();
    let raw = envelope("zstd", payload, &compressed);
    let frame = RenderFrame::from_payload_json(&raw).unwrap();
    assert_eq!(frame.line2, "STD");
}

#[test]
fn command_messages_round_trip_through_frames() {
    let messages = vec![
        CommandMessage::Chunk {
            request_id: 9,
            stream: CommandStream::Stderr,
            seq: 4,
            data: b"oops".to_vec(),
        },
        CommandMessage::Exit { request_id: 9, code: -1 },
        CommandMessage::Ack { request_id: 9 },
        CommandMessage::Busy { request_id: 9 },
        CommandMessage::Error { request_id: None, message: "bad \"quote\"".into() },
        CommandMessage::Heartbeat { request_id: Some(3) },
    ];
    for msg in messages {
        let encoded = encode_command_frame(&msg).unwrap();
        assert_eq!(decode_command_frame(&encoded).unwrap(), msg);
    }
}

#[test]
fn command_frame_detects_bad_crc() {
    let msg = CommandMessage::Request { request_id: 5, cmd: "echo hi".into(), scratch_path: None };
    let encoded = encode_command_frame(&msg).unwrap();
    let mut value: serde_json::Value = serde_json::from_str(&encoded).unwrap();
    let crc = value["crc32"].as_u64().unwrap();
    value["crc32"] = serde_json::Value::from(crc ^ 1);
    let err = decode_command_frame(&value.to_string()).unwrap_err();
    assert!(matches!(err, Error::ChecksumMismatch));
}

#[test]
fn command_message_crc_matches_crc32fast() {
    let msg = CommandMessage::Ack { request_id: 12 };
    let encoded = encode_command_frame(&msg).unwrap();
    let value: serde_json::Value = serde_json::from_str(&encoded).unwrap();
    assert_eq!(value["crc32"].as_u64().unwrap(), msg.crc32() as u64);
    assert_ne!(msg.crc32(), 0);
}

#[test]
fn bar_rounding_matches_double_precision() {
    for max in 1u32..=400 {
        for value in 0u32..=max {
            let expected = ((value as f64 / max as f64) * 100.0).round() as i32;
            let expected = expected.clamp(0, 100) as u8;
            assert_eq!(percent_of(value, max as u64), expected, "value {value}, max {max}");
        }
    }
    assert_eq!(percent_of(23, 40), 57);
    assert_eq!(percent_of(500, 1000), 50);
    assert_eq!(percent_of(1, 8), 13);
}

#[test]
fn bar_rounding_matches_double_precision_at_large_maxima() {
    for max in [1_000u32, 4_000, 40_000, 1_000_000, 4_000_000_000, u32::MAX] {
        for k in 0u64..100 {
            for delta in [-1i64, 0, 1] {
                let exact = (max as u64 * (2 * k + 1)) / 200;
                let value = (exact as i64 + delta).clamp(0, max as i64) as u32;
                let expected = ((value as f64 / max as f64) * 100.0).round() as i32;
                let expected = expected.clamp(0, 100) as u8;
                assert_eq!(percent_of(value, max as u64), expected, "value {value}, max {max}");
            }
        }
    }
}
