use std::io;

use fresh_client::{
    run_client, run_client_relay, run_client_with_connection, Action, ClientConfig,
    ClientControl, ClientError, ClientExitReason, ClientSession, Event, Phase, RelayBackend,
    Reply, ServerControl, ServerHello, SocketPaths, TermSize, DETACH_KEY, PROTOCOL_VERSION,
};

fn config() -> ClientConfig {
    ClientConfig {
        socket_paths: SocketPaths::for_session("/tmp/fresh", "abc"),
        term_size: TermSize::new(80, 24),
    }
}

fn handshaking(backend: RelayBackend) -> ClientSession {
    let (session, _) = run_client_with_connection(config(), backend);
    session
}

fn relaying(backend: RelayBackend) -> ClientSession {
    let (session, _) = run_client_relay(TermSize::new(80, 24), backend);
    session
}

fn hello(version: u32) -> Event {
    Event::Reply(Reply::Message(ServerControl::Hello(ServerHello {
        protocol_version: version,
        server_version: "1.0.0".to_string(),
        session_id: "abc".to_string(),
    })))
}

fn data_io(a: &Action) -> bool {
    matches!(
        a,
        Action::WriteData(_) | Action::WriteOutput(_) | Action::SetDataNonblocking
    )
}

#[test]
fn run_client_starts_by_connecting() {
    let (session, acts) = run_client(config(), RelayBackend::Signal);
    assert_eq!(session.phase, Phase::Connecting);
    assert_eq!(acts.len(), 1);
    match &acts[0] {
        Action::Connect(p) => {
            assert_eq!(p.data, "/tmp/fresh/abc.data.sock");
            assert_eq!(p.control, "/tmp/fresh/abc.ctrl.sock");
        }
        other => panic!("unexpected action {:?}", other),
    }
}

#[test]
fn connect_failure_is_reported_as_connect_error() {
    let (mut session, _) = run_client(config(), RelayBackend::Signal);
    let acts = session.step(Event::Failed(io::Error::new(io::ErrorKind::NotFound, "gone")));
    assert_eq!(session.phase, Phase::Finished);
    assert_eq!(acts.len(), 1);
    match &acts[0] {
        Action::Finish(ClientExitReason::Error(ClientError::Connect(e))) => {
            assert_eq!(e.kind(), io::ErrorKind::NotFound)
        }
        other => panic!("unexpected action {:?}", other),
    }
}

#[test]
fn hello_is_the_first_control_message() {
    let (mut session, _) = run_client(config(), RelayBackend::Signal);
    let acts = session.step(Event::Connected);
    assert_eq!(session.phase, Phase::Handshaking);
    assert_eq!(acts.len(), 2);
    match &acts[0] {
        Action::SendControl(ClientControl::Hello(h)) => {
            assert_eq!(h.term_size, TermSize::new(80, 24))
        }
        other => panic!("unexpected action {:?}", other),
    }
    assert!(matches!(acts[1], Action::ReadControl));
}

#[test]
fn no_data_io_before_the_reply() {
    let (mut session, _) = run_client(config(), RelayBackend::Signal);
    let mut all = Vec::new();
    all.extend(session.step(Event::Connected));
    all.extend(session.step(Event::Data(vec![1, 2, 3])));
    all.extend(session.step(Event::Input(vec![b'a'])));
    all.extend(session.step(Event::Tick(TermSize::new(100, 40))));
    all.extend(session.step(Event::Idle));
    assert!(all.iter().all(|a| !data_io(a)));
    assert_eq!(session.phase, Phase::Handshaking);
}

#[test]
fn scenario_matching_hello_starts_relay() {
    let mut session = handshaking(RelayBackend::Signal);
    let acts = session.step(hello(PROTOCOL_VERSION));
    assert_eq!(session.phase, Phase::Relaying);
    assert!(session.raw_mode);
    assert_eq!(acts.len(), 2);
    assert!(matches!(acts[0], Action::EnterRawMode));
    assert!(matches!(acts[1], Action::SetDataNonblocking));
}

#[test]
fn polling_backend_defers_nonblocking() {
    let mut session = handshaking(RelayBackend::Polling);
    let acts = session.step(hello(PROTOCOL_VERSION));
    assert_eq!(acts.len(), 1);
    assert!(matches!(acts[0], Action::EnterRawMode));
    assert!(!session.data_nonblocking);
    let acts = session.step(Event::Data(b"hi".to_vec()));
    assert_eq!(acts.len(), 2);
    assert!(matches!(acts[0], Action::SetDataNonblocking));
    assert!(matches!(&acts[1], Action::WriteOutput(b) if b == b"hi"));
    let acts = session.step(Event::Data(b"again".to_vec()));
    assert_eq!(acts.len(), 1);
    assert!(matches!(&acts[0], Action::WriteOutput(b) if b == b"again"));
}

#[test]
fn scenario_version_mismatch_message() {
    let mut session = handshaking(RelayBackend::Signal);
    let acts = session.step(Event::Reply(Reply::Message(ServerControl::VersionMismatch {
        server_version: "0.9.0".to_string(),
    })));
    assert_eq!(session.phase, Phase::Finished);
    assert!(!session.raw_mode);
    assert_eq!(acts.len(), 1);
    match &acts[0] {
        Action::Finish(ClientExitReason::VersionMismatch { server_version }) => {
            assert_eq!(server_version, "0.9.0")
        }
        other => panic!("unexpected action {:?}", other),
    }
}

#[test]
fn mismatched_protocol_version_never_relays() {
    let mut session = handshaking(RelayBackend::Signal);
    let mut all = session.step(hello(PROTOCOL_VERSION + 1));
    all.extend(session.step(Event::Data(vec![9])));
    all.extend(session.step(Event::Input(vec![b'q'])));
    all.extend(session.step(Event::DataEof));
    assert_eq!(all.len(), 1);
    assert!(matches!(
        &all[0],
        Action::Finish(ClientExitReason::VersionMismatch { server_version }) if server_version == "1.0.0"
    ));
    assert!(all.iter().all(|a| !data_io(a)));
}

#[test]
fn scenario_server_eof_mid_relay_is_server_quit() {
    let mut session = handshaking(RelayBackend::Signal);
    session.step(hello(PROTOCOL_VERSION));
    let acts = session.step(Event::Data(b"screen".to_vec()));
    assert_eq!(acts.len(), 1);
    let acts = session.step(Event::DataEof);
    assert_eq!(session.phase, Phase::Finished);
    assert_eq!(acts.len(), 2);
    assert!(matches!(acts[0], Action::RestoreTerminal));
    assert!(matches!(acts[1], Action::Finish(ClientExitReason::ServerQuit)));
}

#[test]
fn scenario_control_closed_before_reply() {
    let mut session = handshaking(RelayBackend::Signal);
    let acts = session.step(Event::Reply(Reply::Closed));
    assert_eq!(acts.len(), 1);
    assert!(matches!(
        acts[0],
        Action::Finish(ClientExitReason::Error(ClientError::UnexpectedEof))
    ));
}

#[test]
fn scenario_unparseable_reply() {
    let mut session = handshaking(RelayBackend::Signal);
    let acts = session.step(Event::Reply(Reply::Malformed("expected value".to_string())));
    assert_eq!(session.phase, Phase::Finished);
    assert_eq!(acts.len(), 1);
    assert!(matches!(
        &acts[0],
        Action::Finish(ClientExitReason::Error(ClientError::Malformed(m))) if m == "expected value"
    ));
    let later = session.step(Event::Data(vec![1]));
    assert!(later.is_empty());
}

#[test]
fn server_error_reply_is_wrapped() {
    let mut session = handshaking(RelayBackend::Signal);
    let acts = session.step(Event::Reply(Reply::Message(ServerControl::Error {
        message: "no such session".to_string(),
    })));
    assert!(matches!(
        &acts[0],
        Action::Finish(ClientExitReason::Error(ClientError::Server(m))) if m == "no such session"
    ));
}

#[test]
fn other_reply_is_unexpected_response() {
    let mut session = handshaking(RelayBackend::Signal);
    let acts = session.step(Event::Reply(Reply::Message(ServerControl::Quit {
        reason: "shutdown".to_string(),
    })));
    assert_eq!(acts.len(), 1);
    assert!(matches!(
        acts[0],
        Action::Finish(ClientExitReason::Error(ClientError::UnexpectedResponse))
    ));
}

#[test]
fn control_write_failure_during_handshake_is_io_error() {
    let mut session = handshaking(RelayBackend::Signal);
    let acts = session.step(Event::Failed(io::Error::new(io::ErrorKind::BrokenPipe, "pipe")));
    assert_eq!(acts.len(), 1);
    assert!(matches!(
        &acts[0],
        Action::Finish(ClientExitReason::Error(ClientError::Io(e))) if e.kind() == io::ErrorKind::BrokenPipe
    ));
}

#[test]
fn relay_forwards_bytes_unchanged() {
    let mut session = relaying(RelayBackend::Signal);
    let bytes: Vec<u8> = vec![0, 13, 10, 27, b'[', b'A', 255];
    let acts = session.step(Event::Input(bytes.clone()));
    assert_eq!(acts.len(), 1);
    assert!(matches!(&acts[0], Action::WriteData(b) if *b == bytes));
    let acts = session.step(Event::Data(bytes.clone()));
    assert_eq!(acts.len(), 1);
    assert!(matches!(&acts[0], Action::WriteOutput(b) if *b == bytes));
    assert!(session.step(Event::Input(vec![])).is_empty());
}

#[test]
fn detach_key_forwards_prefix_then_detaches() {
    let mut session = relaying(RelayBackend::Signal);
    let acts = session.step(Event::Input(vec![b'a', b'b', DETACH_KEY, b'c']));
    assert_eq!(session.phase, Phase::Finished);
    assert_eq!(acts.len(), 4);
    assert!(matches!(&acts[0], Action::WriteData(b) if b == b"ab"));
    assert!(matches!(acts[1], Action::SendControl(ClientControl::Detach)));
    assert!(matches!(acts[2], Action::RestoreTerminal));
    assert!(matches!(acts[3], Action::Finish(ClientExitReason::Detached)));
}

#[test]
fn detach_key_alone_sends_no_data() {
    let mut session = relaying(RelayBackend::Polling);
    let acts = session.step(Event::Input(vec![DETACH_KEY]));
    assert_eq!(acts.len(), 3);
    assert!(matches!(acts[0], Action::SendControl(ClientControl::Detach)));
    assert!(matches!(acts[1], Action::RestoreTerminal));
    assert!(matches!(acts[2], Action::Finish(ClientExitReason::Detached)));
}

#[test]
fn relay_io_error_restores_terminal_then_reports() {
    let mut session = relaying(RelayBackend::Signal);
    let acts = session.step(Event::Failed(io::Error::new(io::ErrorKind::ConnectionReset, "reset")));
    assert_eq!(acts.len(), 2);
    assert!(matches!(acts[0], Action::RestoreTerminal));
    assert!(matches!(
        &acts[1],
        Action::Finish(ClientExitReason::Error(ClientError::Io(e))) if e.kind() == io::ErrorKind::ConnectionReset
    ));
    assert!(!session.raw_mode);
    assert!(session.step(Event::DataEof).is_empty());
}

#[test]
fn many_resize_signals_send_one_resize_with_current_size() {
    let mut session = relaying(RelayBackend::Signal);
    for _ in 0..5 {
        assert!(session.step(Event::ResizeSignal).is_empty());
    }
    let acts = session.step(Event::Tick(TermSize::new(132, 50)));
    assert_eq!(acts.len(), 1);
    assert!(matches!(
        acts[0],
        Action::SendControl(ClientControl::Resize(t)) if t == TermSize::new(132, 50)
    ));
    assert!(session.step(Event::Tick(TermSize::new(132, 50))).is_empty());
    assert_eq!(session.term_size, TermSize::new(132, 50));
}

#[test]
fn signal_backend_ignores_size_without_signal() {
    let mut session = relaying(RelayBackend::Signal);
    assert!(session.step(Event::Tick(TermSize::new(100, 30))).is_empty());
}

#[test]
fn polling_backend_sends_resize_on_change() {
    let mut session = relaying(RelayBackend::Polling);
    assert!(session.step(Event::Tick(TermSize::new(80, 24))).is_empty());
    let acts = session.step(Event::Tick(TermSize::new(100, 30)));
    assert!(matches!(
        acts[0],
        Action::SendControl(ClientControl::Resize(t)) if t == TermSize::new(100, 30)
    ));
    assert!(session.step(Event::Tick(TermSize::new(100, 30))).is_empty());
}

#[test]
fn idle_pass_sleeps() {
    let mut session = relaying(RelayBackend::Signal);
    let acts = session.step(Event::Idle);
    assert_eq!(acts.len(), 1);
    assert!(matches!(acts[0], Action::Sleep));
}

#[test]
fn restore_terminal_twice_is_a_no_op() {
    let mut session = relaying(RelayBackend::Signal);
    assert!(session.restore_terminal());
    assert!(!session.restore_terminal());
    assert!(!session.raw_mode);
}

#[test]
fn each_exit_restores_terminal_at_most_once() {
    let endings: Vec<Event> = vec![
        Event::DataEof,
        Event::Input(vec![DETACH_KEY]),
        Event::Failed(io::Error::new(io::ErrorKind::Other, "x")),
    ];
    for ending in endings {
        let mut session = handshaking(RelayBackend::Signal);
        let mut all = session.step(hello(PROTOCOL_VERSION));
        all.extend(session.step(ending));
        all.extend(session.step(Event::DataEof));
        let enters = all.iter().filter(|a| matches!(a, Action::EnterRawMode)).count();
        let restores = all.iter().filter(|a| matches!(a, Action::RestoreTerminal)).count();
        let finishes = all.iter().filter(|a| matches!(a, Action::Finish(_))).count();
        assert_eq!((enters, restores, finishes), (1, 1, 1));
        assert!(matches!(all.last(), Some(Action::Finish(_))));
    }
    let mut session = handshaking(RelayBackend::Signal);
    let all = session.step(hello(PROTOCOL_VERSION + 7));
    let restores = all.iter().filter(|a| matches!(a, Action::RestoreTerminal)).count();
    assert_eq!(restores, 0);
}
