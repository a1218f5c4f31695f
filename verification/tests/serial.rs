use lifelinetty::serial::fake::FakeSerialPort;
use lifelinetty::serial::line::{LineAccumulator, LineStep};
use lifelinetty::serial::{
    check_device_path, classify_error, classify_io_error, desired_dtr, DtrBehavior, FlowControlMode, ParityMode,
    SerialFailureKind, SerialOptions, StopBitsMode,
};
use lifelinetty::{Error, IoFailure, IoKind};

fn io(kind: IoKind, code: Option<i32>, message: &str) -> IoFailure {
    IoFailure { kind, raw_os_error: code, message: message.into() }
}

#[test]
fn classify_permission_denied() {
    let err = io(IoKind::PermissionDenied, None, "denied");
    assert_eq!(classify_io_error(&err), SerialFailureKind::PermissionDenied);
}

#[test]
fn classify_timeout_and_broken_pipe() {
    let timeout = io(IoKind::TimedOut, None, "timeout");
    assert_eq!(classify_io_error(&timeout), SerialFailureKind::Timeout);
    let broken = io(IoKind::BrokenPipe, None, "broken");
    assert_eq!(classify_io_error(&broken), SerialFailureKind::Disconnected);
}

#[test]
fn classify_crate_errors() {
    let err = Error::InvalidArgs("bad".into());
    assert_eq!(classify_error(&err), SerialFailureKind::Config);
    let parse = Error::Parse("oops".into());
    assert_eq!(classify_error(&parse), SerialFailureKind::Framing);
}

#[test]
fn classify_raw_os_codes() {
    assert_eq!(classify_io_error(&io(IoKind::Other, Some(16), "busy")), SerialFailureKind::Busy);
    assert_eq!(classify_io_error(&io(IoKind::Other, Some(19), "nodev")), SerialFailureKind::DeviceMissing);
    assert_eq!(classify_io_error(&io(IoKind::Other, Some(5), "eio")), SerialFailureKind::Disconnected);
    assert_eq!(classify_io_error(&io(IoKind::Other, Some(110), "t")), SerialFailureKind::Timeout);
    assert_eq!(classify_io_error(&io(IoKind::Other, Some(99), "?")), SerialFailureKind::Unknown);
    assert_eq!(classify_io_error(&io(IoKind::Other, None, "?")), SerialFailureKind::Unknown);
    assert_eq!(
        classify_error(&Error::Io(io(IoKind::NotFound, None, "gone"))),
        SerialFailureKind::DeviceMissing
    );
    assert_eq!(SerialFailureKind::PermissionDenied.as_str(), "permission_denied");
}

#[test]
fn fake_serial_scripts_reads_and_writes() {
    let mut fake =
        FakeSerialPort::new(vec![Ok("first\n".into()), Err(Error::Parse("boom".into()))]);
    let mut buf = String::new();
    let read = fake.read_message_line(&mut buf).unwrap();
    assert_eq!(read, "first\n".len());
    assert!(fake.read_message_line(&mut buf).is_err());
    fake.send_command_line("PING").unwrap();
    assert_eq!(fake.writes(), &["PING".to_string()]);
}

#[test]
fn fake_serial_reads_zero_when_script_ends() {
    let mut fake = FakeSerialPort::new(vec![]);
    let mut buf = String::from("keep");
    assert_eq!(fake.read_message_line(&mut buf).unwrap(), 0);
    assert_eq!(buf, "keep");
}

#[test]
fn line_accumulator_frames_lines() {
    let mut acc = LineAccumulator::new();
    assert_eq!(acc.push_byte(b'h'), LineStep::Pending);
    assert_eq!(acc.push_byte(b'\r'), LineStep::Pending);
    assert_eq!(acc.push_byte(b'i'), LineStep::Pending);
    assert_eq!(acc.push_byte(b'\n'), LineStep::Complete(4));
    assert_eq!(acc.line, "hi");
}

#[test]
fn line_accumulator_refuses_long_frames() {
    let mut acc = LineAccumulator::new();
    for _ in 0..512 {
        assert_eq!(acc.push_byte(b'x'), LineStep::Pending);
    }
    assert_eq!(acc.push_byte(b'x'), LineStep::TooLong);
}

#[test]
fn serial_option_names_parse() {
    assert_eq!(FlowControlMode::parse("RTSCTS").unwrap(), FlowControlMode::Hardware);
    assert_eq!(FlowControlMode::parse("none").unwrap(), FlowControlMode::NoFlowControl);
    assert!(FlowControlMode::parse("bogus").is_err());
    assert_eq!(ParityMode::parse("odd").unwrap(), ParityMode::Odd);
    assert_eq!(StopBitsMode::parse("2").unwrap(), StopBitsMode::Two);
    assert!(StopBitsMode::parse("3").is_err());
    assert_eq!(DtrBehavior::parse("off").unwrap(), DtrBehavior::Deassert);
    assert_eq!(desired_dtr(DtrBehavior::Preserve), None);
    assert_eq!(desired_dtr(DtrBehavior::Assert), Some(true));
    let opts = SerialOptions::new(9600);
    assert_eq!(opts.baud, 9600);
}

#[test]
fn serial_rejects_empty_device() {
    let err = check_device_path("").unwrap_err();
    assert!(err.message().contains("device path cannot be empty"));
}

#[test]
fn sync_rejects_empty_device() {
    let err = check_device_path("").unwrap_err();
    assert!(err.message().contains("device path cannot be empty"));
}

#[test]
fn blank_device_paths_are_refused_before_opening() {
    assert!(check_device_path("   ").is_err());
    assert!(check_device_path("/dev/ttyUSB0").is_ok());
}
