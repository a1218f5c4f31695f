use lifelinetty::events::{
    command_allowed, split_command_line, CommandBridge, CommandEvent, CommandSession, RequestStep,
    ScrollOffsets,
};
use lifelinetty::payload::command::{encode_command_frame, CommandMessage};

#[test]
fn bridge_parses_request() {
    let msg = CommandMessage::Request {
        request_id: 42,
        cmd: "uptime".into(),
        scratch_path: Some(format!("{}/tunnel/req42", lifelinetty::CACHE_DIR)),
    };
    let encoded = encode_command_frame(&msg).unwrap();
    let mut bridge = CommandBridge::new();
    let event = bridge.ingest_line(&encoded).unwrap().unwrap();
    assert!(matches!(
        event,
        CommandEvent::Request { request_id: 42, .. }
    ));
    assert_eq!(bridge.last_request_id(), Some(42));
}

#[test]
fn bridge_keeps_last_request_on_bad_frame() {
    let mut bridge = CommandBridge::new();
    let ack = encode_command_frame(&CommandMessage::Ack { request_id: 3 }).unwrap();
    let event = bridge.ingest_line(&ack).unwrap().unwrap();
    assert_eq!(event.kind(), "ack");
    assert!(bridge.ingest_line("{").is_err());
    assert_eq!(bridge.last_request_id(), Some(3));
}

#[test]
fn command_executor_rejects_disallowed() {
    let session = CommandSession::new(vec!["true".into()]);
    match session.begin_request(5, "whoami") {
        RequestStep::Reply { reply, queued } => {
            assert!(matches!(reply, CommandMessage::Error { request_id: Some(5), .. }));
            let mut saw_exit = false;
            for msg in queued {
                if let CommandMessage::Exit { request_id, code } = msg {
                    assert_eq!(request_id, 5);
                    assert_eq!(code, 1);
                    saw_exit = true;
                }
            }
            assert!(saw_exit);
        }
        RequestStep::Spawn { .. } => panic!("disallowed command must not start"),
    }
}

#[test]
fn allowed_request_spawns_and_session_turns_busy() {
    let mut session = CommandSession::new(Vec::new());
    match session.begin_request(7, "sleep 1") {
        RequestStep::Spawn { program, args } => {
            assert_eq!(program, "sleep");
            assert_eq!(args, vec!["1".to_string()]);
        }
        RequestStep::Reply { .. } => panic!("expected spawn"),
    }
    assert_eq!(session.spawn_succeeded(7), CommandMessage::Ack { request_id: 7 });
    match session.begin_request(9, "true") {
        RequestStep::Reply { reply, queued } => {
            assert_eq!(reply, CommandMessage::Busy { request_id: 9 });
            assert!(queued.is_empty());
        }
        RequestStep::Spawn { .. } => panic!("expected busy"),
    }
    session.note_outgoing(&CommandMessage::Exit { request_id: 7, code: 0 });
    assert!(matches!(session.begin_request(10, "true"), RequestStep::Spawn { .. }));
}

#[test]
fn spawn_failure_reports_error_then_exit() {
    let session = CommandSession::new(Vec::new());
    match session.spawn_failed(4, "nope", "not found") {
        RequestStep::Reply { reply, queued } => {
            assert_eq!(
                reply,
                CommandMessage::Error {
                    request_id: Some(4),
                    message: "failed to spawn 'nope': not found".into()
                }
            );
            assert_eq!(queued.last(), Some(&CommandMessage::Exit { request_id: 4, code: 1 }));
        }
        RequestStep::Spawn { .. } => panic!("expected reply"),
    }
}

#[test]
fn split_command_line_handles_quotes_and_escapes() {
    assert_eq!(
        split_command_line(r#"echo "hello world" it\'s"#).unwrap(),
        vec!["echo".to_string(), "hello world".to_string(), "it's".to_string()]
    );
    assert_eq!(
        split_command_line("ls  -l   /tmp").unwrap(),
        vec!["ls".to_string(), "-l".to_string(), "/tmp".to_string()]
    );
    assert!(split_command_line("   ").is_err());
    assert!(split_command_line("echo 'open").is_err());
}

#[test]
fn allowlist_matches_program_or_file_name() {
    let allow = vec!["uptime".to_string()];
    assert!(command_allowed("uptime", &allow));
    assert!(command_allowed("/usr/bin/uptime", &allow));
    assert!(!command_allowed("whoami", &allow));
    assert!(command_allowed("anything", &[]));
}

#[test]
fn scroll_offsets_update() {
    let s = ScrollOffsets::zero().update(3, 4);
    assert_eq!((s.top, s.bottom), (3, 4));
}
