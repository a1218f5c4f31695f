use lifelinetty::events::ScrollOffsets;
use lifelinetty::payload::RenderFrame;
use lifelinetty::render::{
    advance_scroll, fit_line, frame_needs_scroll, looks_like_command_frame, page_due,
    polling_lines, polling_overlay_due, render_allowed, BackoffController, BacklightState, Heartbeat,
};

fn frame(line1: &str, line2: &str) -> RenderFrame {
    let raw = format!(r#"{{"schema_version":1,"line1":"{line1}","line2":"{line2}"}}"#);
    RenderFrame::from_payload_json(&raw).unwrap()
}

#[test]
fn heartbeat_blinks_only_after_grace() {
    let mut hb = Heartbeat { visible: false, next_toggle_ms: 0 };
    assert!(!hb.step(0, 1_000));
    assert!(hb.step(0, 6_000));
    assert!(hb.step(0, 6_500));
    assert!(!hb.step(0, 7_000));
    assert!(hb.step(0, 8_000));
}

#[test]
fn backlight_follows_frame_or_blinks() {
    let mut b = BacklightState { on: true, next_blink_ms: 0 };
    assert!(b.step(false, false, 10));
    assert!(!b.on);
    assert!(!b.step(false, false, 20));
    assert!(b.step(true, false, 30));
    assert!(b.on);
    assert!(!b.step(true, false, 100));
    assert!(b.step(true, false, 530));
}

#[test]
fn paging_and_render_pacing() {
    assert!(!page_due(1, 10, 0));
    assert!(page_due(2, 10, 10));
    assert!(!page_due(2, 9, 10));
    assert!(!render_allowed(1_000, 1_100));
    assert!(render_allowed(1_000, 1_200));
    assert!(render_allowed(1_000, 900));
}

#[test]
fn polling_overlay_rules() {
    assert!(!polling_overlay_due(false, false, false, true, 1, 0, 0));
    assert!(polling_overlay_due(true, false, true, false, 1, 0, 0));
    assert!(!polling_overlay_due(true, true, true, false, 1, 0, 0));
    assert!(!polling_overlay_due(true, false, false, true, 1, 1, 100));
    assert!(polling_overlay_due(true, false, false, true, 1, 1, 1_500));
}

#[test]
fn scrolling_tracks_long_lines_only() {
    let f = frame("THIS LINE IS LONGER THAN SIXTEEN", "SHORT");
    assert!(frame_needs_scroll(&f, 16));
    let next = advance_scroll(&f, 16, ScrollOffsets::zero());
    assert_eq!((next.top, next.bottom), (1, 0));
    assert!(!frame_needs_scroll(&frame("A", "B"), 16));
}

#[test]
fn fit_line_pads_and_cuts() {
    assert_eq!(fit_line("AB", 4), "AB  ");
    assert_eq!(fit_line("ABCDEF", 4), "ABCD");
}

#[test]
fn command_frames_are_recognised() {
    assert!(looks_like_command_frame(r#"{"channel":"command","crc32":1}"#));
    assert!(!looks_like_command_frame(r#"{"schema_version":1,"line1":"a"}"#));
}

#[test]
fn backoff_doubles_up_to_the_maximum_and_resets() {
    let mut b = BackoffController::new(500, 1_200);
    assert!(b.should_retry(0));
    b.mark_failure(1_000);
    assert!(!b.should_retry(1_499));
    assert!(b.should_retry(1_500));
    assert_eq!(b.current_delay_ms(), 1_000);
    b.mark_failure(2_000);
    assert_eq!(b.current_delay_ms(), 1_200);
    b.mark_failure(4_000);
    assert_eq!(b.current_delay_ms(), 1_200);
    b.mark_success(5_000);
    assert_eq!(b.current_delay_ms(), 500);
    assert!(b.should_retry(0));
    b.update(100, 50);
    assert_eq!(b.max_delay_ms(), 100);
}

#[test]
fn polling_rows_show_metrics() {
    let (top, bottom) = polling_lines(5, 42, 100, Some("47C"), Some(2048 * 1024), 20, false);
    assert_eq!(top, "RC CPU  5% MEM 42%  ");
    assert_eq!(bottom, "DSK100% TMP 47C FREE");
    let (top, bottom) = polling_lines(5, 42, 100, None, None, 24, true);
    assert_eq!(top, "CPU  5% MEM 42%         ");
    assert_eq!(bottom, "DSK100% TMP  -- FREE  --");
}
