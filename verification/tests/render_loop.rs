use lifelinetty::config::format::load_from_contents;
use lifelinetty::daemon::{link_options, AppConfig};
use lifelinetty::cli::RunOptions;
use lifelinetty::events::ScrollOffsets;
use lifelinetty::payload::Defaults;
use lifelinetty::render::BackoffController;
use lifelinetty::render_loop::{LineOutcome, LoopAction, LoopController};
use lifelinetty::serial::SerialFailureKind;

fn defaults() -> Defaults {
    Defaults { scroll_speed_ms: 250, page_timeout_ms: 4000 }
}

fn controller(connected: bool) -> (LoopController, Vec<LoopAction>) {
    LoopController::new(defaults(), 250, 16, BackoffController::new(500, 2000), connected, None, 0)
}

fn row(r: u8, t: &str) -> LoopAction {
    LoopAction::Row(r, t.to_string())
}

#[test]
fn loop_starts_with_reconnect_notice_when_link_is_down() {
    let (_, actions) = controller(false);
    assert_eq!(
        actions,
        vec![
            LoopAction::Clear,
            LoopAction::Backlight(true),
            LoopAction::Blink(false),
            row(0, "RECONNECTING"),
            row(1, "retrying..."),
        ]
    );
    let (_, actions) = controller(true);
    assert!(actions.is_empty());
}

#[test]
fn new_frame_goes_on_show_and_duplicate_is_ignored() {
    let (mut c, _) = controller(true);
    let line = r#"{"schema_version":1,"line1":"Hello","line2":"World","blink":true}"#;
    // Too soon after the start for a render.
    match c.take_line(100, line, false) {
        LineOutcome::Shown(actions) => assert_eq!(
            actions,
            vec![LoopAction::Clear, LoopAction::Backlight(true), LoopAction::Blink(true)]
        ),
        other => panic!("expected the frame on show, got {other:?}"),
    }
    assert_eq!(c.current().map(|f| f.line1.as_str()), Some("Hello"));
    assert!(matches!(c.take_line(150, line, false), LineOutcome::Duplicate));
    let s = c.stats();
    assert_eq!((s.frames_accepted, s.duplicates), (1, 1));

    let other = r#"{"schema_version":1,"line1":"Next","line2":""}"#;
    match c.take_line(400, other, true) {
        LineOutcome::Shown(actions) => assert_eq!(
            actions,
            vec![
                LoopAction::Clear,
                LoopAction::Backlight(true),
                LoopAction::Blink(false),
                LoopAction::Render(ScrollOffsets::zero(), true),
            ]
        ),
        other => panic!("expected the frame on show, got {other:?}"),
    }
}

#[test]
fn refused_frame_shows_parse_error() {
    let (mut c, _) = controller(true);
    match c.take_line(10, "{not json", false) {
        LineOutcome::Refused(err, log, actions) => {
            assert!(log);
            assert!(err.message().starts_with("parse error: "));
            assert_eq!(actions[0], LoopAction::Backlight(true));
            assert_eq!(actions[1], LoopAction::Blink(true));
            assert_eq!(actions[2], row(0, "ERR PARSE"));
            match &actions[3] {
                LoopAction::Row(1, text) => {
                    assert_eq!(text.chars().count(), 16);
                    assert!(text.ends_with("..."));
                }
                other => panic!("unexpected action {other:?}"),
            }
        }
        other => panic!("expected a refusal, got {other:?}"),
    }
    assert_eq!(c.stats().frames_rejected, 1);
}

#[test]
fn reload_frame_asks_for_the_configuration() {
    let (mut c, _) = controller(true);
    let line = r#"{"schema_version":1,"config_reload":true}"#;
    assert!(matches!(c.take_line(10, line, false), LineOutcome::Reload));
    assert_eq!(c.stats().frames_accepted, 1);
    assert!(c.current().is_none());
}

#[test]
fn pages_rotate_after_their_timeout() {
    let (mut c, _) = controller(true);
    c.take_line(0, r#"{"schema_version":1,"line1":"one","line2":"","page_timeout_ms":1000}"#, false);
    c.take_line(10, r#"{"schema_version":1,"line1":"two","line2":"","page_timeout_ms":1000}"#, false);
    assert_eq!(c.current().map(|f| f.line1.as_str()), Some("two"));
    assert!(c.rotate(500, false).is_empty());
    let actions = c.rotate(1_500, false);
    assert_eq!(actions[0], LoopAction::Clear);
    assert_eq!(actions.last(), Some(&LoopAction::Render(ScrollOffsets::zero(), false)));
    assert_eq!(c.current().map(|f| f.line1.as_str()), Some("one"));
    assert!(!c.no_pages(1_500));
}

#[test]
fn long_lines_scroll_and_blinking_frames_toggle_the_backlight() {
    let (mut c, _) = controller(true);
    c.take_line(
        0,
        r#"{"schema_version":1,"line1":"a line that is far too long for sixteen","line2":"","blink":true}"#,
        false,
    );
    // The scroll time has come; the blink time has not.
    assert_eq!(c.animate(300, false), vec![LoopAction::Render(ScrollOffsets { top: 1, bottom: 0 }, false)]);
    // The blink time has come; the next scroll step is due at 550.
    assert_eq!(c.animate(500, false), vec![LoopAction::Backlight(false)]);
    assert!(c.animate(520, false).is_empty());
}

#[test]
fn reconnect_notice_attempts_and_offline_notice() {
    let (mut c, _) = controller(true);
    let actions = c.read_failed(1_000, SerialFailureKind::Disconnected);
    assert_eq!(
        actions,
        vec![
            LoopAction::Clear,
            LoopAction::Backlight(true),
            LoopAction::Blink(true),
            row(0, "SERIAL OFFLINE"),
            row(1, "will retry..."),
        ]
    );
    // A second failure shows nothing more; the delay doubles again.
    assert!(c.read_failed(1_100, SerialFailureKind::Disconnected).is_empty());
    assert_eq!(c.last_failure(), Some(SerialFailureKind::Disconnected));

    // Not due before the delay has passed; the notice shows once.
    let (notice, attempt) = c.reconnect(1_200, false);
    assert_eq!(notice.len(), 5);
    assert!(attempt.is_none());
    let (notice, attempt) = c.reconnect(2_100, false);
    assert!(notice.is_empty());
    let attempt = attempt.expect("retry due");
    assert_eq!((attempt.number, attempt.delay_ms, attempt.saturated), (1, 2000, true));
    c.connect_failed(2_100, SerialFailureKind::DeviceMissing);
    assert!(c.reconnect(4_000, false).1.is_none());
    let (_, attempt) = c.reconnect(4_100, false);
    let attempt = attempt.expect("retry due");
    assert_eq!((attempt.number, attempt.delay_ms, attempt.saturated), (2, 2000, false));
    assert_eq!(c.connected(4_100), vec![LoopAction::Clear]);
    assert_eq!(c.last_failure(), None);
    assert_eq!(c.backoff().current_delay_ms(), 500);
    let (notice, attempt) = c.reconnect(4_200, true);
    assert!(notice.is_empty() && attempt.is_none());
}

#[test]
fn reload_reports_link_changes() {
    let cfg = load_from_contents(Some("device = \"/dev/ttyUSB0\"\n")).unwrap();
    let opts = RunOptions::default();
    let mut link = link_options(&cfg, &opts);
    let mut config = AppConfig::from_sources(cfg, opts);
    let (mut c, _) = controller(true);

    let same = load_from_contents(Some("device = \"/dev/ttyUSB0\"\nscroll_speed_ms = 400\n")).unwrap();
    assert!(!c.reload(&mut config, &mut link, &same));
    assert_eq!(config.scroll_speed_ms, 400);

    let moved = load_from_contents(Some("device = \"/dev/ttyAMA0\"\nbaud = 19200\n")).unwrap();
    assert!(c.reload(&mut config, &mut link, &moved));
    assert_eq!(config.device, "/dev/ttyAMA0");
    assert_eq!(link.baud, 19_200);
}

#[test]
fn button_shows_the_next_page() {
    let (mut c, _) = controller(true);
    assert!(c.button_pressed(0, false).is_empty());
    c.take_line(0, r#"{"schema_version":1,"line1":"one","line2":""}"#, false);
    c.take_line(0, r#"{"schema_version":1,"line1":"two","line2":""}"#, false);
    let actions = c.button_pressed(500, false);
    assert_eq!(actions, vec![LoopAction::Clear, LoopAction::Render(ScrollOffsets::zero(), false)]);
    assert_eq!(c.current().map(|f| f.line1.as_str()), Some("one"));
}
