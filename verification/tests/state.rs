use lifelinetty::payload::{Defaults, DEFAULT_PAGE_TIMEOUT_MS, DEFAULT_SCROLL_MS};
use lifelinetty::state::{RenderState, MAX_FRAME_BYTES};

#[test]
fn dedupes_identical_frames() {
    let mut state = RenderState::new(None);
    let raw = r#"{"schema_version":1,"line1":"A","line2":"B"}"#;
    let first = state.ingest(raw).unwrap();
    assert!(first.is_some());
    let second = state.ingest(raw).unwrap();
    assert!(second.is_none());
}

#[test]
fn rotates_pages() {
    let mut state = RenderState::new(None);
    state
        .ingest(r#"{"schema_version":1,"line1":"A","line2":"B"}"#)
        .unwrap();
    state
        .ingest(r#"{"schema_version":1,"line1":"C","line2":"D"}"#)
        .unwrap();
    let first = state.next_page().unwrap();
    assert_eq!(first.line1, "A");
    let second = state.next_page().unwrap();
    assert_eq!(second.line1, "C");
    let third = state.next_page().unwrap();
    assert_eq!(third.line1, "A");
}

#[test]
fn rejects_oversize_frame() {
    let mut state = RenderState::new(None);
    let long = format!(
        r#"{{"schema_version":1,"line1":"{}","line2":""}}"#,
        "x".repeat(MAX_FRAME_BYTES)
    );
    let err = state.ingest(&long).unwrap_err();
    assert!(err.message().contains("exceeds"));
}

#[test]
fn expires_frame_after_ttl() {
    let mut state = RenderState::new(None);
    state
        .ingest(r#"{"schema_version":1,"line1":"A","line2":"B","duration_ms":1}"#)
        .unwrap();
    assert_eq!(state.len(), 1);
    let start = std::time::Instant::now();
    while start.elapsed() < std::time::Duration::from_millis(5) {}
    assert!(
        state.next_page().is_none(),
        "expired frame should be dropped"
    );
}

#[test]
fn expiry_follows_the_given_clock() {
    let mut state = RenderState::new(None);
    state
        .ingest_at(r#"{"schema_version":1,"line1":"A","line2":"B","duration_ms":10}"#, 100)
        .unwrap();
    assert_eq!(state.len_at(109), 1);
    assert_eq!(state.len_at(110), 0);
    assert!(state.next_page_at(111).is_none());
}

#[test]
fn repeated_frame_is_not_stored_twice() {
    let mut state = RenderState::new(None);
    let raw = r#"{"schema_version":1,"line1":"A","line2":"B"}"#;
    state.ingest_at(raw, 0).unwrap();
    assert!(state.ingest_at(raw, 1).unwrap().is_none());
    assert_eq!(state.len_at(2), 1);
}

#[test]
fn invalid_payload_is_reported_and_not_stored() {
    let mut state = RenderState::new(None);
    assert!(state.ingest_at("not json", 0).is_err());
    assert!(state.is_empty());
}

#[test]
fn defaults_reach_ingested_frames() {
    let mut state = RenderState::new(Some(Defaults { scroll_speed_ms: 5, page_timeout_ms: 6 }));
    let frame = state
        .ingest_at(r#"{"schema_version":1,"line1":"A","line2":"B"}"#, 0)
        .unwrap()
        .unwrap();
    assert_eq!(frame.scroll_speed_ms, 5);
    state.set_defaults(Defaults { scroll_speed_ms: 7, page_timeout_ms: 8 });
    let frame = state
        .ingest_at(r#"{"schema_version":1,"line1":"C","line2":"D"}"#, 0)
        .unwrap()
        .unwrap();
    assert_eq!(frame.page_timeout_ms, 8);
}

#[test]
fn current_shows_the_page_after_the_one_handed_out() {
    let mut state = RenderState::new(None);
    state.ingest_at(r#"{"schema_version":1,"line1":"A","line2":"B"}"#, 0).unwrap();
    state.ingest_at(r#"{"schema_version":1,"line1":"C","line2":"D"}"#, 0).unwrap();
    let next = state.next_page_at(1).unwrap();
    assert_eq!(next.line1, "A");
    assert_eq!(state.current_at(1).unwrap().line1, "C");
}

#[test]
fn integration_parses_and_states() {
    let mut state = RenderState::new(Some(Defaults {
        scroll_speed_ms: DEFAULT_SCROLL_MS,
        page_timeout_ms: DEFAULT_PAGE_TIMEOUT_MS,
    }));
    let raw = r#"{"schema_version":1,"line1":"CPU","line2":"42%","bar":42,"scroll":false}"#;
    let frame = state.ingest(raw).unwrap().unwrap();
    assert_eq!(frame.bar_percent, Some(42));
    assert!(!frame.scroll_enabled);
    assert_eq!(state.len(), 1);
}
