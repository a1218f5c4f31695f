use lifelinetty::cli::RunOptions;
use lifelinetty::config::format::load_from_contents;
use lifelinetty::config::{DisplayDriver, DEFAULT_PAGE_TIMEOUT_MS, DEFAULT_SCROLL_MS};
use lifelinetty::daemon::{log_file_path, AppConfig};
use lifelinetty::payload::{Defaults as PayloadDefaults, RenderFrame};

#[test]
fn rejects_log_file_outside_cache() {
    let err = log_file_path(Some("/tmp/out.log"), None).err().expect("expected invalid log path to be rejected");
    let text = err.message();
    assert!(text.contains("/run/serial_lcd_cache"), "error did not mention cache dir: {text}");
}

#[test]
fn rejects_env_log_path_outside_cache() {
    let err = log_file_path(None, Some("/tmp/env.log")).err().expect("expected env log path to be rejected");
    let text = err.message();
    assert!(text.contains("/run/serial_lcd_cache"), "error did not mention cache dir: {text}");
}

#[test]
fn log_paths_are_placed_in_the_cache() {
    assert_eq!(log_file_path(None, None).unwrap(), None);
    assert_eq!(
        log_file_path(Some("lifelinetty.log"), Some("/tmp/env.log")).unwrap().as_deref(),
        Some("/run/serial_lcd_cache/lifelinetty.log")
    );
    assert_eq!(
        log_file_path(None, Some("/run/serial_lcd_cache/logs/a.log")).unwrap().as_deref(),
        Some("/run/serial_lcd_cache/logs/a.log")
    );
    assert_eq!(
        log_file_path(Some("/var/log/x.log"), None).unwrap_err().message(),
        "invalid arguments: log file must live under /run/serial_lcd_cache: /var/log/x.log"
    );
}

#[test]
fn lcd_dashboard_payload_parses_and_sets_fields() {
    let raw = r#"{
            "schema_version":1,
            "line1":"CPU",
            "line2":"Load 42%",
            "bar_value":42,
            "bar_max":100,
            "bar_label":"CPU",
            "mode":"dashboard",
            "page_timeout_ms":2000
        }"#;
    let defaults = PayloadDefaults { scroll_speed_ms: DEFAULT_SCROLL_MS, page_timeout_ms: DEFAULT_PAGE_TIMEOUT_MS };
    let frame = RenderFrame::from_payload_json_with_defaults(raw, defaults).expect("dashboard payload failed to parse");

    assert_eq!(frame.line1, "CPU");
    assert_eq!(frame.line2, "Load 42%");
    assert_eq!(frame.bar_percent, Some(42));
    assert_eq!(frame.bar_label.as_deref(), Some("CPU"));
    assert_eq!(frame.page_timeout_ms, 2000);
    assert!(!frame.config_reload);
}

#[test]
fn config_supports_alt_ttys() {
    let cfg = load_from_contents(Some("\ndevice = \"/dev/ttyAMA0\"\nbaud = 9600\n        ")).expect("config load failed");
    let merged = AppConfig::from_sources(cfg, RunOptions::default());
    assert_eq!(merged.device, "/dev/ttyAMA0");
    assert_eq!(merged.baud, 9_600);
}

#[test]
fn cli_overrides_config_device_and_baud() {
    let cfg = load_from_contents(Some("\ndevice = \"/dev/ttyAMA0\"\nbaud = 9600\n        ")).expect("config load failed");
    let mut opts = RunOptions::default();
    opts.device = Some("/dev/ttyS1".into());
    opts.baud = Some(19_200);
    let merged = AppConfig::from_sources(cfg, opts);
    assert_eq!(merged.device, "/dev/ttyS1");
    assert_eq!(merged.baud, 19_200);
}

#[test]
fn cli_overrides_cols_and_rows() {
    let cfg = load_from_contents(Some("\ndevice = \"/dev/ttyUSB0\"\ncols = 20\nrows = 4\n        "))
        .expect("config load failed");
    let mut opts = RunOptions::default();
    opts.cols = Some(16);
    opts.rows = Some(2);
    let merged = AppConfig::from_sources(cfg, opts);
    assert_eq!(merged.cols, 16);
    assert_eq!(merged.rows, 2);
}

#[test]
fn config_allows_display_driver_selection() {
    let cfg = load_from_contents(Some("\ndevice = \"/dev/ttyUSB0\"\ndisplay_driver = \"hd44780-driver\"\n        "))
        .expect("config load failed");
    assert_eq!(cfg.display_driver, DisplayDriver::Hd44780Driver);
}
