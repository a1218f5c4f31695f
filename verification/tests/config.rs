use lifelinetty::config::format::load_from_contents;
use lifelinetty::config::{
    Config, DisplayDriver, Pcf8574Addr, RolePreference, DEFAULT_BACKOFF_INITIAL_MS, DEFAULT_BACKOFF_MAX_MS,
};
use lifelinetty::serial::{DtrBehavior, FlowControlMode, ParityMode, StopBitsMode};

#[test]
fn loader_loads_default_when_missing() {
    let cfg = load_from_contents(None).unwrap();
    assert_eq!(cfg, Config::default());
}

#[test]
fn loader_parses_valid_config() {
    let contents = r#"
            device = "/dev/ttyUSB0"
            baud = 9600
            flow_control = "hardware"
            parity = "even"
            stop_bits = "2"
            dtr_on_open = "on"
            serial_timeout_ms = 1500
            cols = 16
            rows = 2
            scroll_speed_ms = 300
            page_timeout_ms = 4500
            button_gpio_pin = 17
            pcf8574_addr = "0x23"
            display_driver = "in-tree"
            backoff_initial_ms = 750
            backoff_max_ms = 9000
        "#;
    let cfg = Config::parse(contents).unwrap();
    assert_eq!(cfg.device, "/dev/ttyUSB0");
    assert_eq!(cfg.baud, 9600);
    assert_eq!(cfg.flow_control, FlowControlMode::Hardware);
    assert_eq!(cfg.parity, ParityMode::Even);
    assert_eq!(cfg.stop_bits, StopBitsMode::Two);
    assert_eq!(cfg.dtr_on_open, DtrBehavior::Assert);
    assert_eq!(cfg.serial_timeout_ms, 1500);
    assert_eq!(cfg.cols, 16);
    assert_eq!(cfg.rows, 2);
    assert_eq!(cfg.scroll_speed_ms, 300);
    assert_eq!(cfg.page_timeout_ms, 4500);
    assert_eq!(cfg.button_gpio_pin, Some(17));
    assert_eq!(cfg.pcf8574_addr, Pcf8574Addr::Addr(0x23));
    assert_eq!(cfg.display_driver, DisplayDriver::InTree);
    assert_eq!(cfg.backoff_initial_ms, 750);
    assert_eq!(cfg.backoff_max_ms, 9000);
}

#[test]
fn parses_command_allowlist() {
    let cfg = Config::parse("command_allowlist = [\"ls\", \"uptime\"]").unwrap();
    assert_eq!(cfg.command_allowlist, vec!["ls", "uptime"]);
}

#[test]
fn rejects_invalid_command_allowlist_literal() {
    let err = Config::parse("command_allowlist = ls").unwrap_err();
    assert!(err.message().contains("command_allowlist"));
}

#[test]
fn loader_rejects_unknown_key() {
    let err = Config::parse("nope = 1").unwrap_err();
    assert!(err.message().contains("unknown config key"));
}

#[test]
fn loader_saves_and_loads_round_trip() {
    let cfg = Config {
        device: "/dev/ttyS1".into(),
        baud: 57_600,
        flow_control: FlowControlMode::Hardware,
        parity: ParityMode::Even,
        stop_bits: StopBitsMode::Two,
        dtr_on_open: DtrBehavior::Deassert,
        serial_timeout_ms: 1200,
        cols: 20,
        rows: 4,
        scroll_speed_ms: 250,
        page_timeout_ms: 4000,
        button_gpio_pin: Some(22),
        pcf8574_addr: Pcf8574Addr::Auto,
        display_driver: DisplayDriver::Hd44780Driver,
        backoff_initial_ms: DEFAULT_BACKOFF_INITIAL_MS,
        backoff_max_ms: DEFAULT_BACKOFF_MAX_MS,
        command_allowlist: Vec::new(),
        ..Config::default()
    };
    let text = cfg.to_text();
    let loaded = Config::parse(&text).unwrap();
    assert_eq!(cfg, loaded);
}

#[test]
fn saved_allowlist_and_address_round_trip() {
    let cfg = Config {
        command_allowlist: vec!["ls".into(), "uptime".into()],
        pcf8574_addr: Pcf8574Addr::Addr(0x3f),
        button_gpio_pin: None,
        polling_enabled: true,
        ..Config::default()
    };
    let text = cfg.to_text();
    assert!(text.contains("pcf8574_addr = 0x3f"));
    assert!(text.contains("command_allowlist = [\"ls\", \"uptime\"]"));
    assert_eq!(Config::parse(&text).unwrap(), cfg);
}

#[test]
fn saved_text_lists_device_and_baud() {
    let text = Config::default().to_text();
    assert!(text.contains("device ="));
    assert!(text.contains("baud ="));
}

#[test]
fn rejects_cols_outside_range() {
    let err = Config::parse("cols = 99").unwrap_err();
    assert!(err.message().contains("cols must"));
}

#[test]
fn rejects_rows_outside_range() {
    let err = Config::parse("rows = 0").unwrap_err();
    assert!(err.message().contains("rows must"));
}

#[test]
fn rejects_scroll_speed_below_min() {
    let err = Config::parse("scroll_speed_ms = 10").unwrap_err();
    assert!(err.message().contains("scroll_speed_ms"));
}

#[test]
fn rejects_page_timeout_below_min() {
    let err = Config::parse("page_timeout_ms = 10").unwrap_err();
    assert!(err.message().contains("page_timeout_ms"));
}

#[test]
fn comments_and_blank_lines_are_skipped() {
    let cfg = Config::parse("# a comment\n\n   \nbaud = 19200\r\n").unwrap();
    assert_eq!(cfg.baud, 19_200);
}

#[test]
fn malformed_line_names_its_number() {
    let err = Config::parse("baud = 9600\ndevice \"/dev/ttyUSB0\"\n").unwrap_err();
    assert!(err.message().contains("invalid config line 2"));
}

#[test]
fn negotiation_settings_round_trip() {
    let mut cfg = Config::default();
    cfg.negotiation.node_id = 7;
    cfg.negotiation.preference = RolePreference::PreferClient;
    cfg.negotiation.timeout_ms = 2_500;
    let text = cfg.to_text();
    assert!(text.contains("negotiation.preference = \"client\""));
    assert!(text.contains("negotiation.timeout_ms = 2500"));
    assert_eq!(Config::parse(&text).unwrap(), cfg);
}

#[test]
fn unknown_role_preference_is_rejected() {
    let err = Config::parse("negotiation.preference = \"leader\"").unwrap_err();
    assert_eq!(
        err.message(),
        "invalid arguments: invalid negotiation.preference on line 1: expected 'server', 'client', or 'auto', got 'leader'"
    );
    let err = Config::parse("negotiation.timeout_ms = 10").unwrap_err();
    assert!(err.message().contains("negotiation.timeout_ms must be between 250 and 5000"));
}

#[test]
fn documented_example_config_loads() {
    let text = "device = \"/dev/ttyUSB0\"\nbaud = 9600\nflow_control = \"none\"\nparity = \"none\"\nstop_bits = \"1\"\ndtr_on_open = \"auto\"\nserial_timeout_ms = 500\ncols = 20\nrows = 4\nscroll_speed_ms = 250\npage_timeout_ms = 4000\npcf8574_addr = \"auto\"\ndisplay_driver = \"auto\"\nbutton_gpio_pin = null\nbackoff_initial_ms = 500\nbackoff_max_ms = 10000\n";
    let cfg = load_from_contents(Some(text)).unwrap();
    assert_eq!(cfg.device, "/dev/ttyUSB0");
    assert_eq!(cfg.baud, 9_600);
    assert_eq!(cfg.display_driver, DisplayDriver::Auto);
    assert_eq!(cfg.button_gpio_pin, None);
    assert_eq!(cfg.backoff_max_ms, 10_000);
}

#[test]
fn display_driver_names_read_back() {
    for d in [DisplayDriver::Auto, DisplayDriver::InTree, DisplayDriver::Hd44780Driver] {
        assert_eq!(DisplayDriver::parse(d.as_str()), Ok(d));
    }
    assert_eq!(DisplayDriver::parse(" HD44780 "), Ok(DisplayDriver::Hd44780Driver));
    assert!(DisplayDriver::parse("lcd").is_err());
}
