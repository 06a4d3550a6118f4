use packet::events::{ssh_connected_status, telnet_connected_status};
use packet::lifecycle::end_session;
use packet::logging::LogBook;
use packet::reader::{
    pty_reader_step,
    ssh_reader_step,
    telnet_reader_step,
    PtyReadEvent,
    ReaderAction,
    SshReadEvent,
    TelnetReadEvent,
};
use packet::registry::Registry;

#[test]
fn list_reports_connects_minus_disconnects() {
    // three connects and two disconnects leave exactly one listed session
    let mut reg = Registry::new();
    let a = reg.register_new("r1".to_string(), 5000, None).unwrap();
    let b = reg.register_new("r2".to_string(), 5001, None).unwrap();
    let c = reg.register_new("r3".to_string(), 5002, None).unwrap();
    assert_eq!(reg.len(), 3);
    assert!(reg.remove(&a));
    assert!(reg.remove(&b));
    let listed = reg.list();
    assert_eq!(listed.len(), 1);
    assert_eq!(listed[0].id, c);
    assert_eq!(listed[0].host, "r3");
    assert_eq!(listed[0].port, 5002);
}

#[test]
fn session_ids_are_issued_fresh() {
    let mut reg = Registry::new();
    let a = reg.register_new("h".to_string(), 23, None).unwrap();
    let b = reg.register_new("h".to_string(), 23, None).unwrap();
    assert_eq!(a.len(), 36);
    assert_ne!(a, b);
}

#[test]
fn writes_to_unknown_or_disconnected_ids_find_nothing() {
    let mut reg = Registry::new();
    assert!(!reg.contains("never-issued"));
    let id = reg.register_new("h".to_string(), 23, None).unwrap();
    assert!(reg.contains(&id));
    assert!(reg.remove(&id));
    assert!(!reg.contains(&id));
    // a second disconnect is a no-op reporting not-found
    assert!(!reg.remove(&id));
}

#[test]
fn ssh_sessions_carry_their_username() {
    let mut reg = Registry::new();
    let id = reg.register_new("gw".to_string(), 22, Some("admin".to_string())).unwrap();
    let listed = reg.list();
    assert_eq!(listed.len(), 1);
    assert_eq!(listed[0].id, id);
    assert_eq!(listed[0].username.as_deref(), Some("admin"));
}

#[test]
fn telnet_reader_decisions_follow_the_read_outcome() {
    let stop = telnet_reader_step("s1", false, TelnetReadEvent::WouldBlock);
    assert!(matches!(stop, ReaderAction::Stop { status: None }));

    match telnet_reader_step("s1", true, TelnetReadEvent::Closed) {
        ReaderAction::Stop { status: Some(st) } => {
            assert_eq!(st.session_id, "s1");
            assert_eq!(st.status, "disconnected");
            assert_eq!(st.message, "Connection closed by remote host");
        },
        _ => panic!("expected a disconnected stop"),
    }

    let data = TelnetReadEvent::Data { bytes: vec![255, 251, 1, b'h', b'i'] };
    match telnet_reader_step("s1", true, data) {
        ReaderAction::Emit { output } => assert_eq!(output, "hi"),
        _ => panic!("expected an emit"),
    }

    let empty = TelnetReadEvent::Data { bytes: vec![255, 251, 1] };
    assert!(matches!(telnet_reader_step("s1", true, empty), ReaderAction::Retry));
    assert!(matches!(
        telnet_reader_step("s1", true, TelnetReadEvent::WouldBlock),
        ReaderAction::Backoff
    ));
    assert!(matches!(
        telnet_reader_step("s1", true, TelnetReadEvent::TimedOut),
        ReaderAction::Retry
    ));

    match telnet_reader_step("s1", true, TelnetReadEvent::Failed { message: "boom".to_string() }) {
        ReaderAction::Stop { status: Some(st) } => {
            assert_eq!(st.status, "error");
            assert_eq!(st.message, "Read error: boom");
        },
        _ => panic!("expected an error stop"),
    }
}

#[test]
fn ssh_reader_distinguishes_eof_from_transient_zero_reads() {
    match ssh_reader_step("s2", true, SshReadEvent::ZeroRead { at_eof: true }) {
        ReaderAction::Stop { status: Some(st) } => {
            assert_eq!(st.status, "disconnected");
            assert_eq!(st.message, "Connection closed by remote host");
        },
        _ => panic!("expected a disconnected stop"),
    }
    assert!(matches!(
        ssh_reader_step("s2", true, SshReadEvent::ZeroRead { at_eof: false }),
        ReaderAction::Backoff
    ));
    assert!(matches!(
        ssh_reader_step("s2", true, SshReadEvent::Interrupted),
        ReaderAction::Retry
    ));
    match ssh_reader_step("s2", true, SshReadEvent::Data { bytes: b"uptime\n".to_vec() }) {
        ReaderAction::Emit { output } => assert_eq!(output, "uptime\n"),
        _ => panic!("expected an emit"),
    }
    match ssh_reader_step("s2", true, SshReadEvent::Failed { message: "reset".to_string() }) {
        ReaderAction::Stop { status: Some(st) } => {
            assert_eq!(st.message, "Connection error: reset");
        },
        _ => panic!("expected an error stop"),
    }
}

#[test]
fn pty_reader_stops_silently() {
    assert!(matches!(
        pty_reader_step(PtyReadEvent::Closed),
        ReaderAction::Stop { status: None }
    ));
    assert!(matches!(
        pty_reader_step(PtyReadEvent::Failed { message: "gone".to_string() }),
        ReaderAction::Stop { status: None }
    ));
    match pty_reader_step(PtyReadEvent::Data { bytes: b"$ ".to_vec() }) {
        ReaderAction::Emit { output } => assert_eq!(output, "$ "),
        _ => panic!("expected an emit"),
    }
}

#[test]
fn teardown_happens_exactly_once() {
    let mut reg = Registry::new();
    let mut book = LogBook::new();
    let id = reg.register_new("h".to_string(), 23, None).unwrap();
    book.start_log(&id, "a.log", "/tmp/a.log", "ts");
    let (found, footers) = end_session(&mut reg, &mut book, &id);
    assert!(found);
    assert_eq!(footers, vec!["/tmp/a.log".to_string()]);
    // whichever of the reader loop and the controller comes second
    // finds nothing and changes nothing
    let (found_again, footers_again) = end_session(&mut reg, &mut book, &id);
    assert!(!found_again);
    assert!(footers_again.is_empty());
}

#[test]
fn connected_status_messages_name_the_endpoint() {
    let t = telnet_connected_status("s1", "10.0.0.1", 5000);
    assert_eq!(t.status, "connected");
    assert_eq!(t.message, "Connected to 10.0.0.1:5000");
    let s = ssh_connected_status("s2", "admin", "gw", 22);
    assert_eq!(s.message, "Connected to admin@gw:22");
}
