use lifelinetty::payload::command::{encode_command_frame, CommandMessage, CommandStream};
use lifelinetty::serial::fake::FakeSerialPort;
use lifelinetty::shell::{ShellInput, ShellReply, ShellSession, SHELL_INIT_LINE, SHELL_PROMPT};

fn encoded(msg: CommandMessage) -> String {
    encode_command_frame(&msg).expect("failed to encode command frame")
}

/// Runs the shell's decisions against scripted input and a scripted link,
/// carrying out each action the way the binary does.
fn drive(
    serial: &mut FakeSerialPort,
    input: &str,
    stdout: &mut Vec<u8>,
    stderr: &mut Vec<u8>,
) -> lifelinetty::Result<i32> {
    let mut session = ShellSession::new();
    serial.send_command_line(SHELL_INIT_LINE)?;
    let mut lines = input.lines();
    loop {
        stdout.extend_from_slice(SHELL_PROMPT.as_bytes());
        match session.on_input(lines.next())? {
            ShellInput::Finish(code) => return Ok(code),
            ShellInput::Prompt => continue,
            ShellInput::Send(frame) => {
                serial.send_command_line(&frame)?;
                loop {
                    let mut line = String::new();
                    if serial.read_message_line(&mut line)? == 0 {
                        panic!("link script ran out before the command finished");
                    }
                    match session.on_reply(&line)? {
                        ShellReply::Ignore => {}
                        ShellReply::Stdout(bytes) => stdout.extend_from_slice(&bytes),
                        ShellReply::Stderr(bytes) => stderr.extend_from_slice(&bytes),
                        ShellReply::Finished { notice, .. } => {
                            if let Some(n) = notice {
                                stderr.extend_from_slice(n.as_bytes());
                                stderr.push(b'\n');
                            }
                            break;
                        }
                    }
                }
            }
        }
    }
}

#[test]
fn loop_tracks_exit_code_and_prompts() {
    let mut serial = FakeSerialPort::new(vec![
        Ok(encoded(CommandMessage::Chunk {
            request_id: 1,
            stream: CommandStream::Stdout,
            seq: 0,
            data: b"hello".to_vec(),
        })),
        Ok(encoded(CommandMessage::Exit { request_id: 1, code: 42 })),
    ]);
    let mut stdout = Vec::new();
    let mut stderr = Vec::new();

    let exit_code = drive(&mut serial, "echo hi\nexit\n", &mut stdout, &mut stderr)
        .expect("failed to drive loop");

    assert_eq!(exit_code, 42);
    assert!(stderr.is_empty(), "stderr got data: {:?}", stderr);
    let output = String::from_utf8_lossy(&stdout);
    assert!(output.matches("serialsh> ").count() >= 2);
    assert!(output.contains("hello"));
    assert_eq!(
        serial.writes(),
        &[
            "INIT".to_string(),
            encoded(CommandMessage::Request {
                request_id: 1,
                cmd: "echo hi".into(),
                scratch_path: None,
            }),
        ]
    );
}

#[test]
fn busy_response_returns_one() {
    let mut serial =
        FakeSerialPort::new(vec![Ok(encoded(CommandMessage::Busy { request_id: 1 }))]);
    let mut stdout = Vec::new();
    let mut stderr = Vec::new();

    let exit_code =
        drive(&mut serial, "list\nexit\n", &mut stdout, &mut stderr).expect("loop failed");

    assert_eq!(exit_code, 1);
    assert!(String::from_utf8_lossy(&stderr).contains("remote busy"));
}

#[test]
fn blank_lines_prompt_again_and_end_of_input_keeps_last_code() {
    let mut session = ShellSession::new();
    assert!(matches!(session.on_input(Some("   ")).unwrap(), ShellInput::Prompt));
    assert!(matches!(session.on_input(Some("EXIT")).unwrap(), ShellInput::Finish(0)));
    assert!(matches!(session.on_input(None).unwrap(), ShellInput::Finish(0)));
}

#[test]
fn replies_that_are_not_frames_are_ignored() {
    let mut session = ShellSession::new();
    assert!(matches!(session.on_reply("hello there\n").unwrap(), ShellReply::Ignore));
    assert!(matches!(session.on_reply("\r\n").unwrap(), ShellReply::Ignore));
    let hb = encoded(CommandMessage::Heartbeat { request_id: None });
    assert!(matches!(session.on_reply(&hb).unwrap(), ShellReply::Ignore));
    assert_eq!(session.last_exit(), 0);
}

#[test]
fn damaged_reply_frame_is_an_error() {
    let mut session = ShellSession::new();
    let frame = encoded(CommandMessage::Exit { request_id: 1, code: 3 });
    let damaged = frame.replace("\"code\":3", "\"code\":4");
    assert!(session.on_reply(&damaged).is_err());
    assert_eq!(session.last_exit(), 0);
    assert!(matches!(
        session.on_reply(&frame).unwrap(),
        ShellReply::Finished { code: 3, notice: None }
    ));
    assert_eq!(session.last_exit(), 3);
}

#[test]
fn stderr_chunks_go_to_stderr() {
    let mut session = ShellSession::new();
    let frame = encoded(CommandMessage::Chunk {
        request_id: 1,
        stream: CommandStream::Stderr,
        seq: 0,
        data: b"warn".to_vec(),
    });
    match session.on_reply(&frame).unwrap() {
        ShellReply::Stderr(bytes) => assert_eq!(bytes, b"warn"),
        _ => panic!("expected stderr chunk"),
    }
}

#[test]
fn serial_shell_round_trip_delivers_output() {
    let mut serial = FakeSerialPort::new(vec![
        Ok(encoded(CommandMessage::Chunk {
            request_id: 1,
            stream: CommandStream::Stdout,
            seq: 0,
            data: b"hello".to_vec(),
        })),
        Ok(encoded(CommandMessage::Chunk {
            request_id: 1,
            stream: CommandStream::Stderr,
            seq: 1,
            data: b"warn".to_vec(),
        })),
        Ok(encoded(CommandMessage::Exit { request_id: 1, code: 42 })),
    ]);
    let mut stdout = Vec::new();
    let mut stderr = Vec::new();

    let exit_code = drive(&mut serial, "echo hi\nexit\n", &mut stdout, &mut stderr).expect("serial shell failed");

    assert_eq!(exit_code, 42);
    let out_text = String::from_utf8_lossy(&stdout);
    assert!(out_text.contains("serialsh> "));
    assert!(out_text.contains("hello"));
    let err_text = String::from_utf8_lossy(&stderr);
    assert!(err_text.contains("warn"));
    assert_eq!(
        serial.writes(),
        &[
            "INIT".to_string(),
            encoded(CommandMessage::Request { request_id: 1, cmd: "echo hi".into(), scratch_path: None }),
        ]
    );
}

#[test]
fn serial_shell_busy_response_returns_one() {
    let mut serial = FakeSerialPort::new(vec![Ok(encoded(CommandMessage::Busy { request_id: 1 }))]);
    let mut stdout = Vec::new();
    let mut stderr = Vec::new();

    let exit_code = drive(&mut serial, "list\nexit\n", &mut stdout, &mut stderr).expect("serial shell failed");

    assert_eq!(exit_code, 1);
    assert!(String::from_utf8_lossy(&stderr).contains("remote busy"));
    assert_eq!(
        serial.writes(),
        &[
            "INIT".to_string(),
            encoded(CommandMessage::Request { request_id: 1, cmd: "list".into(), scratch_path: None }),
        ]
    );
}
