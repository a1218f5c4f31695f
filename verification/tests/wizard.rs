use lifelinetty::cli::RunOptions;
use lifelinetty::config::Config;
use lifelinetty::daemon::{AppConfig, LogLevel};
use lifelinetty::wizard::{
    append_unique, choose_rehearsal_baud, link_rehearsal_log_path, parse_baud_answer,
    parse_device_answer, parse_dimension_answer, parse_yes_no, rank_serial_devices,
    rehearsal_bauds, rehearsal_candidates, DeviceSelection,
};
use lifelinetty::wizard::rehearsal::{RehearsalAction, RehearsalEvent, RehearsalSession};
use lifelinetty::CACHE_DIR;

#[test]
fn ranks_devices_by_likelihood() {
    let mut devices = vec![
        "/dev/ttyS0".to_string(),
        "/dev/ttyUSB1".to_string(),
        "/dev/ttyAMA0".to_string(),
        "/dev/ttyUSB0".to_string(),
        "/dev/ttyACM0".to_string(),
    ];
    rank_serial_devices(&mut devices);
    assert_eq!(
        devices,
        vec![
            "/dev/ttyUSB0",
            "/dev/ttyUSB1",
            "/dev/ttyACM0",
            "/dev/ttyAMA0",
            "/dev/ttyS0"
        ]
        .into_iter()
        .map(|s| s.to_string())
        .collect::<Vec<_>>()
    );
}

#[test]
fn link_rehearsal_selects_highest_successful_baud() {
    let candidates = [9_600u32, 19_200, 38_400];
    let (mut session, first) = RehearsalSession::new(&candidates);
    assert_eq!(first, RehearsalAction::Try { baud: 9_600, delay_ms: 0 });
    // 9600 and 19200: the peer answers.
    assert_eq!(
        session.step(RehearsalEvent::Succeeded),
        RehearsalAction::Try { baud: 19_200, delay_ms: 250 }
    );
    assert_eq!(
        session.step(RehearsalEvent::Succeeded),
        RehearsalAction::Try { baud: 38_400, delay_ms: 250 }
    );
    // 38400: the handshake fails, then the port is gone.
    assert_eq!(
        session.step(RehearsalEvent::Failed("handshake failed: not-json".to_string())),
        RehearsalAction::Try { baud: 38_400, delay_ms: 150 }
    );
    assert_eq!(
        session.step(RehearsalEvent::Failed("connect failed: no port".to_string())),
        RehearsalAction::Try { baud: 38_400, delay_ms: 300 }
    );
    let chosen = match session.step(RehearsalEvent::Failed("connect failed: no port".to_string())) {
        RehearsalAction::Done(rate) => rate,
        other => panic!("expected the end of the rehearsal, got {other:?}"),
    };
    let attempts = session.results();
    assert_eq!(chosen, 19_200);
    assert_eq!(attempts.len(), 3);
    assert!(attempts[0].1);
    assert!(attempts[1].1);
    assert!(!attempts[2].1);
    assert_eq!(session.last_message().map(|m| m.as_str()), Some("connect failed: no port"));
    assert_eq!(choose_rehearsal_baud(&attempts), 19_200);
}

#[test]
fn rehearsal_without_rates_is_done_at_once() {
    let (_, first) = RehearsalSession::new(&[4_800, 2_400]);
    assert_eq!(first, RehearsalAction::Done(9_600));
}

#[test]
fn link_rehearsal_falls_back_to_minimum_when_nothing_works() {
    assert_eq!(choose_rehearsal_baud(&[(19_200, false)]), 9_600);
    assert_eq!(choose_rehearsal_baud(&[]), 9_600);
}

#[test]
fn link_rehearsal_log_stays_under_cache_dir() {
    let path = link_rehearsal_log_path();
    assert!(path.starts_with(CACHE_DIR));
    assert!(std::path::Path::new(&path).ends_with("wizard/link_rehearsal.log"));
}

#[test]
fn app_config_prefers_file_values_when_cli_missing() {
    let cfg_file = Config {
        device: "/dev/ttyS0".into(),
        baud: 9_600,
        cols: 16,
        rows: 2,
        ..Config::default()
    };
    let opts = RunOptions::default();
    let merged = AppConfig::from_sources(cfg_file.clone(), opts);
    assert_eq!(merged.device, cfg_file.device);
    assert_eq!(merged.baud, cfg_file.baud);
    assert_eq!(merged.cols, cfg_file.cols);
    assert_eq!(merged.rows, cfg_file.rows);
}

#[test]
fn app_config_from_options() {
    let opts = RunOptions {
        device: Some("/dev/ttyUSB1".into()),
        baud: Some(57_600),
        cols: Some(16),
        rows: Some(2),
        log_level: Some("warn".into()),
        ..Default::default()
    };
    let cfg = AppConfig::from_sources(Config::default(), opts);
    assert_eq!(cfg.device, "/dev/ttyUSB1");
    assert_eq!(cfg.baud, 57_600);
    assert_eq!(cfg.cols, 16);
    assert_eq!(cfg.rows, 2);
    assert_eq!(cfg.log_level, LogLevel::Warn);
}

#[test]
fn unknown_log_level_means_info() {
    let opts = RunOptions { log_level: Some("loud".into()), ..Default::default() };
    assert_eq!(AppConfig::from_sources(Config::default(), opts).log_level, LogLevel::Info);
}

#[test]
fn wizard_answers_parse() {
    assert_eq!(parse_yes_no("  ", true), Some(true));
    assert_eq!(parse_yes_no("YES", false), Some(true));
    assert_eq!(parse_yes_no("n", true), Some(false));
    assert_eq!(parse_yes_no("maybe", true), None);
    assert_eq!(parse_baud_answer(" 19200 "), Some(19_200));
    assert_eq!(parse_baud_answer("1200"), None);
    assert_eq!(parse_dimension_answer("16", 8, 40), Some(16));
    assert_eq!(parse_dimension_answer("41", 8, 40), None);
}

#[test]
fn device_answers_select() {
    let candidates = vec!["/dev/ttyUSB0".to_string(), "/dev/ttyS0".to_string()];
    assert!(matches!(
        parse_device_answer("2", &candidates, "/dev/ttyUSB0"),
        DeviceSelection::Selected(ref s) if s == "/dev/ttyS0"
    ));
    assert!(matches!(
        parse_device_answer("", &candidates, "/dev/ttyAMA0"),
        DeviceSelection::Selected(ref s) if s == "/dev/ttyAMA0"
    ));
    assert!(matches!(parse_device_answer("R", &candidates, "x"), DeviceSelection::Rescan));
    assert!(matches!(
        parse_device_answer("/dev/ttyACM3", &candidates, "x"),
        DeviceSelection::Selected(ref s) if s == "/dev/ttyACM3"
    ));
    assert!(matches!(parse_device_answer("9", &candidates, "x"), DeviceSelection::Invalid));
}

#[test]
fn rehearsal_rates_include_configured_speed() {
    assert_eq!(rehearsal_candidates(9_600), vec![9_600, 19_200, 38_400, 57_600, 115_200]);
    assert_eq!(
        rehearsal_candidates(250_000),
        vec![9_600, 19_200, 38_400, 57_600, 115_200, 250_000]
    );
    assert_eq!(rehearsal_bauds(&[1_200, 9_600, 19_200]), vec![9_600, 19_200]);
}

#[test]
fn append_unique_skips_repeats() {
    let mut list = vec!["a".to_string()];
    append_unique(&mut list, "a".to_string());
    append_unique(&mut list, "b".to_string());
    assert_eq!(list, vec!["a".to_string(), "b".to_string()]);
}

#[test]
fn runtime_files_land_in_the_cache_dir() {
    assert_eq!(lifelinetty::cache_path_for("logs/runtime.log"), "/run/serial_lcd_cache/logs/runtime.log");
    assert_eq!(lifelinetty::cache_path_for("/tmp/out.log"), "/tmp/out.log");
    assert!(lifelinetty::payload::command::validate_cache_path(&lifelinetty::cache_path_for("x.log")).is_ok());
    assert!(lifelinetty::payload::command::validate_cache_path("/tmp/out.log").is_err());
}
