use lifelinetty::wizard::flow::wizard_wanted;
use lifelinetty::config::format::load_from_contents;
use lifelinetty::config::{Config, RolePreference};
use lifelinetty::wizard::flow::{
    apply_answers, inspect_existing_config, probe_rates, prompt_text, resolve_answer, script_lines,
    summary_text, transcript_entry, transcript_text, wizard_should_run, ExistingConfig, ProbeResult,
    ProbeSession, PromptMode, WizardFlow, WizardReply, WizardStep,
};
use lifelinetty::wizard::{device_candidates, is_serial_device_name, rank_serial_devices, UsageIntent};

/// Drives the flow with `lines` the way a script does: each question takes
/// the next line, or its default once the lines run out.
fn drive(flow: &mut WizardFlow, lines: &[&str]) -> Vec<String> {
    let mut messages = Vec::new();
    let mut next = lines.iter();
    while let Some(q) = flow.question() {
        let response = resolve_answer(next.next().copied(), &q.default);
        match flow.answer(&response) {
            WizardReply::Accepted => {}
            WizardReply::Retry(m) => messages.push(m),
            WizardReply::Rescan => messages.push("rescan".to_string()),
        }
    }
    messages
}

#[test]
fn scripted_wizard_persists_answers() {
    let defaults = Config::default();
    let mut flow = WizardFlow::new(&defaults, false, device_candidates(&Vec::new(), &defaults.device, false));
    let answers = ["standalone", "y", "/dev/ttyS42", "19200", "n", "16", "2", "client", "n", "y"];
    let messages = drive(&mut flow, &answers);
    assert!(messages.is_empty(), "{messages:?}");
    assert_eq!(flow.step(), WizardStep::Saved);
    let saved = apply_answers(defaults, &flow.answers()).to_text();
    let cfg = Config::parse(&saved).expect("config missing");
    assert_eq!(cfg.device, "/dev/ttyS42");
    assert_eq!(cfg.baud, 19_200);
    assert_eq!(cfg.cols, 16);
    assert_eq!(cfg.rows, 2);
    assert_eq!(cfg.negotiation.preference, RolePreference::PreferClient);
}

#[test]
fn wizard_questions_carry_their_defaults() {
    let defaults = Config::default();
    let flow = WizardFlow::new(&defaults, true, vec!["/dev/ttyACM0".to_string()]);
    let q = flow.question().expect("first question");
    assert_eq!(q.question, "Usage intent (1=server, 2=client, 3=standalone)");
    assert_eq!(q.default, "standalone");
    assert_eq!(prompt_text(&q.question, &q.default), "Usage intent (1=server, 2=client, 3=standalone) [standalone] > ");
    assert_eq!(prompt_text("Anything", ""), "Anything > ");
}

#[test]
fn wizard_without_answers_keeps_defaults() {
    let defaults = Config::default();
    let mut flow = WizardFlow::new(&defaults, false, Vec::new());
    let messages = drive(&mut flow, &[]);
    assert!(messages.is_empty());
    assert_eq!(flow.step(), WizardStep::Saved);
    let a = flow.answers();
    assert_eq!(a.device, "/dev/ttyUSB0");
    assert_eq!(a.baud, 9_600);
    assert_eq!((a.cols, a.rows), (20, 4));
    assert_eq!(a.intent, UsageIntent::Standalone);
    assert_eq!(a.preference, RolePreference::NoPreference);
    assert!(!a.run_probe && !a.show_helpers && !a.run_link_rehearsal);
}

#[test]
fn wizard_asks_again_after_a_bad_answer() {
    let defaults = Config::default();
    let mut flow = WizardFlow::new(&defaults, false, Vec::new());
    let messages = drive(
        &mut flow,
        &["maybe", "?", "server", "perhaps", "y", "ttyUSB9", "/dev/ttyUSB9", "1200", "57600", "n", "99", "16", "7", "2", "x", "1", "n", "y"],
    );
    assert_eq!(
        messages,
        vec![
            "Unknown intent 'maybe', choose server, client, or standalone.".to_string(),
            "Choose 1=server, 2=client, 3=standalone.".to_string(),
            "'perhaps' is not a yes or no answer. Try y/n.".to_string(),
            "Input 'ttyUSB9' was not a /dev path or a device index; enter a full path (e.g., /dev/ttyUSB0) or one of the listed numbers."
                .to_string(),
            "Enter a baud rate of at least 9600 (e.g., 9600, 19200, 115200).".to_string(),
            "Enter a value between 8 and 40.".to_string(),
            "Enter a value between 1 and 4.".to_string(),
            "Unknown role 'x', choose server, client, standalone, or auto.".to_string(),
        ]
    );
    let a = flow.answers();
    assert_eq!(a.device, "/dev/ttyUSB9");
    assert_eq!(a.baud, 57_600);
    assert_eq!((a.cols, a.rows), (16, 2));
    assert_eq!(a.intent, UsageIntent::Server);
    assert_eq!(a.preference, RolePreference::PreferServer);
}

#[test]
fn interactive_wizard_rehearses_instead_of_asking_the_baud() {
    let defaults = Config::default();
    let mut flow = WizardFlow::new(&defaults, true, vec!["/dev/ttyUSB0".to_string(), "/dev/ttyS0".to_string()]);
    for answer in ["client", "n"] {
        assert!(matches!(flow.answer(answer), WizardReply::Accepted));
    }
    let q = flow.question().expect("device question");
    assert_eq!(q.default, "/dev/ttyUSB0");
    assert!(matches!(flow.answer("r"), WizardReply::Rescan));
    assert_eq!(flow.step(), WizardStep::Device);
    assert!(matches!(flow.answer("2"), WizardReply::Accepted));
    assert_eq!(flow.step(), WizardStep::Rehearsal);
    assert!(flow.question().is_none());
    assert_eq!(flow.rates_to_rehearse(), vec![9_600, 19_200, 38_400, 57_600, 115_200]);
    flow.rehearsed(38_400);
    // No display: the size is not asked, two rows are assumed.
    assert_eq!(flow.step(), WizardStep::Role);
    let a = flow.answers();
    assert_eq!(a.device, "/dev/ttyS0");
    assert_eq!(a.baud, 38_400);
    assert!(a.run_link_rehearsal && !a.run_probe);
    assert_eq!((a.cols, a.rows), (20, 2));
    assert_eq!(flow.question().expect("role").default, "client");
}

#[test]
fn declining_to_save_aborts() {
    let defaults = Config::default();
    let mut flow = WizardFlow::new(&defaults, false, Vec::new());
    drive(&mut flow, &["", "", "", "", "", "", "", "", "", "n"]);
    assert_eq!(flow.step(), WizardStep::Aborted);
}

#[test]
fn banners_follow_the_questions() {
    let defaults = Config::default();
    let mut flow = WizardFlow::new(&defaults, false, Vec::new());
    assert!(flow.banner().is_none());
    flow.answer("3");
    flow.answer("y");
    let b = flow.banner().expect("device banner");
    assert_eq!((b.top.as_str(), b.bottom.as_str()), ("Select device", "/dev/ttyUSB0"));
    flow.answer("");
    let b = flow.banner().expect("baud banner");
    assert_eq!((b.top.as_str(), b.bottom.as_str()), ("Target baud", "9600 bps"));
}

#[test]
fn inspection_of_existing_configs() {
    let path = "/home/pi/.serial_lcd/config.toml";
    let missing = inspect_existing_config(path, &ExistingConfig::Missing);
    assert!(missing.config.is_none() && !missing.requires_repair && missing.reason.is_none());

    let blank = inspect_existing_config(path, &ExistingConfig::Contents("  \n".to_string()));
    assert!(blank.requires_repair);
    assert_eq!(
        blank.reason.as_deref(),
        Some("existing config at /home/pi/.serial_lcd/config.toml is empty; running wizard to initialize")
    );

    let unreadable = inspect_existing_config(path, &ExistingConfig::Unreadable("permission denied".to_string()));
    assert_eq!(
        unreadable.reason.as_deref(),
        Some("failed to read existing config at /home/pi/.serial_lcd/config.toml: permission denied; running wizard to repair")
    );

    let invalid = inspect_existing_config(path, &ExistingConfig::Contents("cols = 2\n".to_string()));
    assert!(invalid.requires_repair && invalid.config.is_none());
    assert!(invalid.reason.unwrap().starts_with("existing config at /home/pi/.serial_lcd/config.toml is invalid (invalid arguments: "));

    let good = inspect_existing_config(path, &ExistingConfig::Contents("device = \"/dev/ttyS1\"\n".to_string()));
    assert!(!good.requires_repair && good.reason.is_none());
    assert_eq!(good.config.expect("config").device, "/dev/ttyS1");

    assert!(!wizard_should_run(false, true, false));
    assert!(wizard_should_run(true, true, false));
    assert!(wizard_should_run(false, false, false));
    assert!(wizard_should_run(false, true, true));
}

#[test]
fn existing_device_is_offered_first() {
    let scanned = vec!["/dev/ttyUSB0".to_string(), "/dev/ttyACM0".to_string(), "/dev/ttyUSB0".to_string()];
    assert_eq!(
        device_candidates(&scanned, "/dev/ttyS3", false),
        vec!["/dev/ttyUSB0", "/dev/ttyACM0", "/dev/ttyS3"]
    );
    assert_eq!(
        device_candidates(&scanned, "/dev/ttyS3", true),
        vec!["/dev/ttyS3", "/dev/ttyUSB0", "/dev/ttyACM0"]
    );
    assert!(is_serial_device_name("ttyAMA0"));
    assert!(!is_serial_device_name("tty0"));
}

#[test]
fn ranking_keeps_equal_devices_in_order() {
    let mut devices = vec!["/b/ttyUSB0".to_string(), "/dev/ttyS1".to_string(), "/a/ttyUSB0".to_string()];
    rank_serial_devices(&mut devices);
    assert_eq!(devices, vec!["/b/ttyUSB0", "/a/ttyUSB0", "/dev/ttyS1"]);
}

#[test]
fn probes_back_off_between_attempts() {
    assert_eq!(probe_rates(9_600), vec![9_600]);
    assert_eq!(probe_rates(115_200), vec![9_600, 115_200]);
    let mut session = ProbeSession::new(9_600, 50, 80, 3);
    let mut pauses = Vec::new();
    while let Some(pause) = session.next_attempt() {
        pauses.push(pause);
        session.failed("busy".to_string());
    }
    assert_eq!(pauses, vec![0, 50, 80]);
    let r = session.gave_up();
    assert_eq!((r.baud, r.attempts, r.success, r.message.as_str()), (9_600, 3, false, "busy"));

    let mut once = ProbeSession::new(19_200, 50, 500, 0);
    assert_eq!(once.next_attempt(), Some(0));
    assert_eq!(once.next_attempt(), None);
    let r = once.gave_up();
    assert_eq!(r.message, "unknown error");
    let ok = ProbeSession::new(19_200, 50, 500, 3).opened();
    assert!(ok.success);
    assert_eq!(ok.message, "port opened successfully");
}

#[test]
fn script_lines_skip_blanks_and_comments() {
    assert_eq!(script_lines("# answers\n server \n\n  # note\ny\r\n"), vec!["server", "y"]);
    assert_eq!(resolve_answer(Some("  "), "n"), "n");
    assert_eq!(resolve_answer(Some(" yes \n"), "n"), "yes");
    assert_eq!(resolve_answer(None, "n"), "n");
    assert_eq!(transcript_entry("Baud", "9600", "19200"), "Q: Baud [default=9600] A: 19200");
    assert_eq!(PromptMode::AutoDefaults.label(), "auto_defaults");
}

#[test]
fn records_list_the_settings() {
    let defaults = Config::default();
    let mut flow = WizardFlow::new(&defaults, false, Vec::new());
    drive(&mut flow, &["server", "y", "/dev/ttyUSB1", "19200", "y"]);
    let a = flow.answers();
    let probes = vec![ProbeResult { baud: 9_600, attempts: 1, success: true, message: "port opened successfully".to_string() }];
    let summary = summary_text("2024-01-01T00:00:00Z", "scripted", None, &a, &probes);
    assert_eq!(
        summary,
        "timestamp: 2024-01-01T00:00:00Z\nmode: scripted\ndevice: /dev/ttyUSB1\nbaud: 19200\ncols: 20\nrows: 4\n\
lcd_present: true\nintent: server\npreference: server\nrun_probe: true\nrun_link_rehearsal: false\n\
show_helpers: false\nprobe baud 9600: ok (attempts=1 port opened successfully)\n\n"
    );
    let transcript = transcript_text(
        "2024-01-01T00:00:00Z",
        "auto_defaults",
        Some("stdin is not interactive"),
        &vec!["Q: Baud [default=9600] A: 19200".to_string()],
        &a,
        &Vec::new(),
        &[],
    );
    assert_eq!(
        transcript,
        "=== lifelinetty wizard run ===\ntimestamp: 2024-01-01T00:00:00Z\nmode: auto_defaults\n\
mode_note: stdin is not interactive\nintent: server\ndevice: /dev/ttyUSB1\nbaud: 19200\ncols: 20\nrows: 4\n\
lcd_present: true\npreference: server\nrun_probe: true\nrun_link_rehearsal: false\nshow_helpers: false\n\
candidates:\n  (none)\nprompts:\n  Q: Baud [default=9600] A: 19200\nprobes: (skipped)\n\n"
    );
}

/// What the configuration file holds after a start-up with `existing` in
/// it (`None`: no file), the wizard forced or not, and `script` answering.
fn config_after_startup(existing: Option<&str>, forced: bool, script: &str) -> Config {
    let found = match existing {
        None => ExistingConfig::Missing,
        Some(text) => ExistingConfig::Contents(text.to_string()),
    };
    let inspection = inspect_existing_config("/home/pi/.serial_lcd/config.toml", &found);
    if !wizard_should_run(forced, existing.is_some(), inspection.requires_repair) {
        return load_from_contents(existing).expect("config load failed");
    }
    let has_existing_config = existing.is_some() && !inspection.requires_repair && inspection.config.is_some();
    let defaults = inspection.config.unwrap_or_default();
    let offered = device_candidates(&Vec::new(), &defaults.device, has_existing_config);
    let mut flow = WizardFlow::new(&defaults, false, offered);
    let lines = script_lines(script);
    let refs: Vec<&str> = lines.iter().map(|l| l.as_str()).collect();
    drive(&mut flow, &refs);
    assert_eq!(flow.step(), WizardStep::Saved);
    let saved = apply_answers(defaults, &flow.answers()).to_text();
    load_from_contents(Some(&saved)).expect("config load failed")
}

#[test]
fn wizard_auto_runs_with_script_when_missing_config() {
    let cfg = config_after_startup(None, false, "server\ny\n/dev/ttyS9\n19200\nn\n16\n2\nserver\nn\n");
    assert_eq!(cfg.device, "/dev/ttyS9");
    assert_eq!(cfg.baud, 19_200);
    assert_eq!(cfg.cols, 16);
    assert_eq!(cfg.rows, 2);
    assert_eq!(cfg.negotiation.preference, RolePreference::PreferServer);
}

#[test]
fn wizard_skips_when_config_exists_without_force() {
    let existing = "\ndevice = \"/dev/ttyAMA0\"\nbaud = 38400\nrows = 4\ncols = 20\n            ";
    let cfg = config_after_startup(Some(existing), false, "standalone\ny\n/dev/ttyUSB9\n57600\nn\n20\n4\nclient\nn\n");
    assert_eq!(cfg.device, "/dev/ttyAMA0");
    assert_eq!(cfg.baud, 38_400);
    assert_eq!(cfg.negotiation.preference, RolePreference::NoPreference);
}

#[test]
fn wizard_runs_when_config_exists_but_empty() {
    let cfg = config_after_startup(Some("   \n"), false, "standalone\ny\n/dev/ttyS8\n19200\nn\n16\n2\nauto\nn\n");
    assert_eq!(cfg.device, "/dev/ttyS8");
    assert_eq!(cfg.baud, 19_200);
    assert_eq!(cfg.negotiation.preference, RolePreference::NoPreference);
}

#[test]
fn wizard_runs_when_config_is_unparseable() {
    let cfg = config_after_startup(
        Some("device \"/dev/ttyUSB0\"\n"),
        false,
        "client\ny\n/dev/ttyACM9\n57600\nn\n20\n4\nclient\nn\n",
    );
    assert_eq!(cfg.device, "/dev/ttyACM9");
    assert_eq!(cfg.baud, 57_600);
    assert_eq!(cfg.negotiation.preference, RolePreference::PreferClient);
}

#[test]
fn wizard_force_env_overrides_existing_config() {
    let existing = "\ndevice = \"/dev/ttyAMA0\"\nbaud = 38400\nrows = 4\ncols = 20\n            ";
    let cfg = config_after_startup(Some(existing), true, "client\ny\n/dev/ttyACM1\n57600\nn\n20\n4\nclient\nn\n");
    assert_eq!(cfg.device, "/dev/ttyACM1");
    assert_eq!(cfg.baud, 57_600);
    assert_eq!(cfg.negotiation.preference, RolePreference::PreferClient);
}

#[test]
fn named_config_file_skips_the_wizard_unless_asked() {
    assert!(!wizard_wanted(true, false, false, false, false));
    assert!(wizard_wanted(true, true, false, true, false));
    assert!(wizard_wanted(true, false, true, true, false));
    assert!(wizard_wanted(false, false, false, false, false));
    assert!(!wizard_wanted(false, false, false, true, false));
    assert!(wizard_wanted(false, false, false, true, true));
}
