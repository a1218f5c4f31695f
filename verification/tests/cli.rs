use lifelinetty::cli::{Command, RunMode, RunOptions};
use lifelinetty::compression::CompressionCodec;
use lifelinetty::config::Pcf8574Addr;
use lifelinetty::serial::{DtrBehavior, FlowControlMode, ParityMode, StopBitsMode};

fn strings(items: &[&str]) -> Vec<String> {
    items.iter().map(|s| s.to_string()).collect()
}

#[test]
fn parse_defaults_with_no_args() {
    let args: Vec<String> = vec![];
    let cmd = Command::parse(&args).unwrap();
    assert_eq!(cmd, Command::Run(RunOptions::default()));
}

#[test]
fn parse_run_with_overrides() {
    let args = strings(&[
        "--device",
        "/dev/ttyUSB0",
        "--baud",
        "9600",
        "--cols",
        "16",
        "--rows",
        "2",
        "--flow-control",
        "hardware",
        "--parity",
        "even",
        "--stop-bits",
        "2",
        "--dtr-on-open",
        "on",
        "--serial-timeout-ms",
        "1500",
        "--payload-file",
        "/tmp/payload.json",
        "--backoff-initial-ms",
        "750",
        "--backoff-max-ms",
        "9000",
        "--pcf8574-addr",
        "0x23",
        "--log-level",
        "debug",
        "--log-file",
        "/tmp/lifelinetty.log",
        "--demo",
    ]);
    let expected = RunOptions {
        mode: RunMode::Daemon,
        device: Some("/dev/ttyUSB0".into()),
        baud: Some(9600),
        flow_control: Some(FlowControlMode::Hardware),
        parity: Some(ParityMode::Even),
        stop_bits: Some(StopBitsMode::Two),
        dtr_on_open: Some(DtrBehavior::Assert),
        serial_timeout_ms: Some(1500),
        cols: Some(16),
        rows: Some(2),
        payload_file: Some("/tmp/payload.json".into()),
        backoff_initial_ms: Some(750),
        backoff_max_ms: Some(9000),
        pcf8574_addr: Some(Pcf8574Addr::Addr(0x23)),
        log_level: Some("debug".into()),
        log_file: Some("/tmp/lifelinetty.log".into()),
        compression_enabled: None,
        compression_codec: None,
        polling_enabled: None,
        poll_interval_ms: None,
        config_file: None,
        wizard: false,
        demo: true,
    };
    let cmd = Command::parse(&args).unwrap();
    assert_eq!(cmd, Command::Run(expected));
}

#[test]
fn parse_run_allows_implicit_subcommand() {
    let args = strings(&["--device", "/dev/ttyS1", "--payload-file", "/tmp/payload.json"]);
    let expected = RunOptions {
        mode: RunMode::Daemon,
        device: Some("/dev/ttyS1".into()),
        baud: None,
        flow_control: None,
        parity: None,
        stop_bits: None,
        dtr_on_open: None,
        serial_timeout_ms: None,
        cols: None,
        rows: None,
        payload_file: Some("/tmp/payload.json".into()),
        backoff_initial_ms: None,
        backoff_max_ms: None,
        pcf8574_addr: None,
        log_level: None,
        log_file: None,
        compression_enabled: None,
        compression_codec: None,
        polling_enabled: None,
        poll_interval_ms: None,
        config_file: None,
        wizard: false,
        demo: false,
    };
    let cmd = Command::parse(&args).unwrap();
    assert_eq!(cmd, Command::Run(expected));
}

#[test]
fn parse_compression_flags() {
    let args = strings(&["--compressed", "--codec", "zstd"]);
    let expected = RunOptions {
        compression_enabled: Some(true),
        compression_codec: Some(CompressionCodec::Zstd),
        ..Default::default()
    };
    let cmd = Command::parse(&args).unwrap();
    assert_eq!(cmd, Command::Run(expected));
}

#[test]
fn parse_no_compression_flag() {
    let args = strings(&["--no-compressed"]);
    let expected = RunOptions {
        compression_enabled: Some(false),
        ..Default::default()
    };
    let cmd = Command::parse(&args).unwrap();
    assert_eq!(cmd, Command::Run(expected));
}

#[test]
fn parse_polling_flags() {
    let args = strings(&["--polling", "--poll-interval-ms", "3000"]);
    let expected = RunOptions {
        polling_enabled: Some(true),
        poll_interval_ms: Some(3000),
        ..Default::default()
    };
    let cmd = Command::parse(&args).unwrap();
    assert_eq!(cmd, Command::Run(expected));
}

#[test]
fn parse_polling_disable_flag() {
    let args = strings(&["--no-polling"]);
    let expected = RunOptions {
        polling_enabled: Some(false),
        ..Default::default()
    };
    let cmd = Command::parse(&args).unwrap();
    assert_eq!(cmd, Command::Run(expected));
}

#[test]
fn parse_help() {
    let args = strings(&["--help"]);
    let cmd = Command::parse(&args).unwrap();
    assert_eq!(cmd, Command::ShowHelp);
}

#[test]
fn parse_rejects_unknown_flag() {
    let args = strings(&["--nope"]);
    let err = Command::parse(&args).unwrap_err();
    assert!(err.message().contains("unknown flag"));
}

#[test]
fn parse_serialsh_flag_sets_mode() {
    let args = strings(&["--serialsh", "--device", "fake"]);
    let cmd = Command::parse(&args).unwrap();
    match cmd {
        Command::Run(opts) => assert!(matches!(opts.mode, RunMode::SerialShell)),
        other => panic!("expected Run variant, got {other:?}"),
    }
}

#[test]
fn serialsh_disallows_demo_and_payload_file() {
    let args = strings(&["--serialsh", "--demo"]);
    let err = Command::parse(&args).unwrap_err();
    assert!(err.message().contains("serialsh"));

    let args = strings(&["--serialsh", "--payload-file", "payload.json"]);
    let err = Command::parse(&args).unwrap_err();
    assert!(err.message().contains("serialsh"));
}

#[test]
fn parse_version_flag() {
    let args = strings(&["--version"]);
    assert_eq!(Command::parse(&args).unwrap(), Command::ShowVersion);
}

#[test]
fn parse_rejects_missing_value() {
    let args = strings(&["--baud"]);
    let err = Command::parse(&args).unwrap_err();
    assert!(matches!(err, lifelinetty::Error::InvalidArgs(_)));
}

#[test]
fn parse_rejects_bad_baud_number() {
    let args = strings(&["--baud", "fast"]);
    assert!(Command::parse(&args).is_err());
}

#[test]
fn help_lists_core_flags() {
    let help = Command::help();
    for flag in ["--device", "--cols", "--rows", "--demo", "--config-file"] {
        assert!(help.contains(flag), "help output missing flag {flag}: {help}");
    }

    for flag in ["--serialsh", "--wizard"] {
        assert!(help.contains(flag), "help output missing {flag}: {help}");
    }
}

#[test]
fn parse_takes_config_file_and_wizard() {
    let args = strings(&["run", "--config-file", "/tmp/custom.toml", "--wizard"]);
    match Command::parse(&args).unwrap() {
        Command::Run(opts) => {
            assert_eq!(opts.config_file.as_deref(), Some("/tmp/custom.toml"));
            assert!(opts.wizard);
        }
        other => panic!("unexpected command {other:?}"),
    }
    assert!(Command::parse(&strings(&["--config-file"])).is_err());
}
