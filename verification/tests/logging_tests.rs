use packet::ansi::strip_ansi_codes;
use packet::logging::{
    log_ended_line,
    log_started_line,
    resolve_log_path,
    session_closed_line,
    LogBook,
};

#[test]
fn test_strip_ansi_codes() {
    let input = "\x1b[31mRed Text\x1b[0m Normal";
    let output = strip_ansi_codes(input);
    assert_eq!(output, "Red Text Normal");
}

#[test]
fn test_strip_ansi_complex() {
    let input = "\x1b[38;5;196mBright Red\x1b[0m";
    let output = strip_ansi_codes(input);
    assert_eq!(output, "Bright Red");
}

#[test]
fn strip_is_noop_on_plain_text_and_idempotent() {
    let plain = "no control sequences here";
    assert_eq!(strip_ansi_codes(plain), plain);
    let once = strip_ansi_codes("\x1b[1mbold\x1b[0m and \x1b plain");
    assert_eq!(strip_ansi_codes(&once), once);
}

#[test]
fn lone_escape_is_dropped() {
    assert_eq!(strip_ansi_codes("a\x1bb"), "ab");
    assert_eq!(strip_ansi_codes("tail\x1b"), "tail");
}

#[test]
fn start_twice_same_path_is_rejected_with_message() {
    let mut book = LogBook::new();
    let r1 = book.start_log("s1", "session.log", "/tmp/session.log", "2024-01-01 10:00:00");
    assert!(r1.success);
    assert_eq!(r1.message, "Started logging to 'session.log'");
    let r2 = book.start_log("s1", "session.log", "/tmp/session.log", "2024-01-01 10:00:05");
    assert!(!r2.success);
    assert_eq!(r2.message, "Already logging to 'session.log'");
}

#[test]
fn two_logs_both_receive_each_chunk_and_stop_leaves_one() {
    let mut book = LogBook::new();
    assert!(book.start_log("s1", "a.log", "/tmp/a.log", "ts").success);
    assert!(book.start_log("s1", "b.log", "/tmp/b.log", "ts").success);
    let writes = book.log_writes("s1", "\x1b[32mok\x1b[0m\n");
    assert_eq!(writes.len(), 2);
    assert_eq!(writes[0].path, "/tmp/a.log");
    assert_eq!(writes[1].path, "/tmp/b.log");
    assert_eq!(writes[0].data, "ok\n");
    assert_eq!(writes[1].data, "ok\n");
    let stopped = book.stop_log("s1", "a.log", "/tmp/a.log");
    assert!(stopped.success);
    assert_eq!(stopped.message, "Stopped logging to 'a.log'");
    assert!(!book.is_active("s1", "/tmp/a.log"));
    assert!(book.is_active("s1", "/tmp/b.log"));
    let writes = book.log_writes("s1", "more");
    assert_eq!(writes.len(), 1);
    assert_eq!(writes[0].path, "/tmp/b.log");
}

#[test]
fn stop_messages_distinguish_unknown_file_and_unknown_session() {
    let mut book = LogBook::new();
    assert!(book.start_log("s1", "a.log", "/tmp/a.log", "ts").success);
    let r = book.stop_log("s1", "c.log", "/tmp/c.log");
    assert!(!r.success);
    assert_eq!(r.message, "Not currently logging to 'c.log'");
    let r = book.stop_log("s2", "a.log", "/tmp/a.log");
    assert!(!r.success);
    assert_eq!(r.message, "No active logs for this session");
}

#[test]
fn listing_names_paths_and_start_times() {
    let mut book = LogBook::new();
    book.start_log("s1", "a.log", "/tmp/a.log", "2024-01-01 10:00:00");
    book.start_log("s2", "x.log", "/tmp/x.log", "2024-01-01 11:00:00");
    book.start_log("s1", "b.log", "/tmp/b.log", "2024-01-01 12:00:00");
    let logs = book.list_session_logs("s1");
    assert_eq!(logs.len(), 2);
    assert_eq!(logs[0].path, "/tmp/a.log");
    assert_eq!(logs[0].started_at, "2024-01-01 10:00:00");
    assert_eq!(logs[1].path, "/tmp/b.log");
    assert_eq!(logs[1].started_at, "2024-01-01 12:00:00");
    assert_eq!(book.list_session_logs("s3").len(), 0);
}

#[test]
fn cleanup_forgets_every_log_of_the_session() {
    let mut book = LogBook::new();
    book.start_log("s1", "a.log", "/tmp/a.log", "ts");
    book.start_log("s1", "b.log", "/tmp/b.log", "ts");
    book.start_log("s2", "x.log", "/tmp/x.log", "ts");
    let paths = book.cleanup_session("s1");
    assert_eq!(paths, vec!["/tmp/a.log".to_string(), "/tmp/b.log".to_string()]);
    assert!(!book.is_active("s1", "/tmp/a.log"));
    assert!(!book.is_active("s1", "/tmp/b.log"));
    assert!(book.is_active("s2", "/tmp/x.log"));
    assert_eq!(book.cleanup_session("s1").len(), 0);
}

#[test]
fn log_file_receives_header_stripped_body_footer_in_order() {
    // the session.log scenario: start, output, stop; the assembled file
    // holds the start header, the stripped output, and the end footer
    let mut book = LogBook::new();
    let path = resolve_log_path("session.log", "/home/user");
    assert_eq!(path, "/home/user/packet-logs/session.log");
    let mut file = String::new();
    let started = book.start_log("s1", "session.log", &path, "2024-01-01 10:00:00");
    assert!(started.success);
    file.push_str(&log_started_line("2024-01-01 10:00:00"));
    for w in book.log_writes("s1", "\x1b[1mRouter>\x1b[0m show clock\n") {
        assert_eq!(w.path, path);
        file.push_str(&w.data);
    }
    let stopped = book.stop_log("s1", "session.log", &path);
    assert!(stopped.success);
    file.push_str(&log_ended_line("2024-01-01 10:05:00"));
    let header_at = file.find("=== Packet Logging Started: 2024-01-01 10:00:00 ===").unwrap();
    let body_at = file.find("Router> show clock\n").unwrap();
    let footer_at = file.find("=== Packet Logging Ended: 2024-01-01 10:05:00 ===").unwrap();
    assert!(header_at < body_at && body_at < footer_at);
    assert!(!file.contains('\x1b'));
}

#[test]
fn absolute_log_paths_are_kept() {
    assert_eq!(resolve_log_path("/var/log/x.log", "/home/user"), "/var/log/x.log");
}

#[test]
fn session_closed_footer_names_the_reason() {
    assert_eq!(
        session_closed_line("2024-01-01 10:00:00"),
        "\n=== Packet Logging Ended (Session Closed): 2024-01-01 10:00:00 ===\n\n"
    );
}
