use packet::reader::{pty_reader_step, PtyReadEvent, ReaderAction};
use portable_pty::{native_pty_system, CommandBuilder, PtySize};
use std::io::{Read, Write};
use std::time::{Duration, Instant};

#[test]
fn pty_echo_round_trip() {
    // spawn a shell on an 80x24 terminal, write `echo hi`, and expect
    // the echoed output to reach the emit path
    let pty_system = native_pty_system();
    let pair = pty_system
        .openpty(PtySize { rows: 24, cols: 80, pixel_width: 0, pixel_height: 0 })
        .expect("openpty");
    let mut cmd = CommandBuilder::new("/bin/sh");
    cmd.env("TERM", "xterm-256color");
    let mut child = pair.slave.spawn_command(cmd).expect("spawn shell");
    let mut reader = pair.master.try_clone_reader().expect("clone reader");
    let mut writer = pair.master.take_writer().expect("take writer");
    writer.write_all(b"echo hi\n").expect("write");
    writer.flush().expect("flush");

    let deadline = Instant::now() + Duration::from_secs(10);
    let mut seen = String::new();
    let mut buf = [0u8; 8192];
    let mut found = false;
    while Instant::now() < deadline && !found {
        let ev = match reader.read(&mut buf) {
            Ok(0) => PtyReadEvent::Closed,
            Ok(n) => PtyReadEvent::Data { bytes: buf[..n].to_vec() },
            Err(e) => PtyReadEvent::Failed { message: e.to_string() },
        };
        match pty_reader_step(ev) {
            ReaderAction::Emit { output } => {
                seen.push_str(&output);
                if seen.contains("hi") {
                    found = true;
                }
            },
            ReaderAction::Stop { .. } => break,
            _ => {},
        }
    }
    let _ = writer.write_all(b"exit\n");
    let _ = child.kill();
    assert!(found, "no pty output containing 'hi' arrived; saw: {seen:?}");
}
