//! Reader-loop decisions: one step of a session's reader task.
//!
//! Each live session has a dedicated loop in the embedding process that
//! performs one bounded read per iteration and hands the outcome to the
//! step function of its transport.  The step function decides, from the
//! cooperative `running` flag and the read outcome alone, whether to
//! forward decoded text, back off, retry, or leave the loop — and with
//! which status event.  On [`ReaderAction::Emit`] the loop forwards the
//! text to the event sink and offers it to the session's log files; on
//! [`ReaderAction::Stop`] it emits the status event, if any, and performs
//! the exactly-once session cleanup.

use vstd::prelude::*;

use crate::codec::{process_telnet_data, telnet_filter};
use crate::events::{
    is_status,
    make_status,
    remote_closed_message,
    ssh_error_message,
    telnet_error_message,
    ConnectionStatus,
};
use crate::text::{lossy_decode, lossy_utf8};
use vstd::string::StringExecFns;

verus! {

/// The outcome of one bounded read on a telnet socket.
pub enum TelnetReadEvent {
    /// The read returned zero bytes: the remote side closed.
    Closed,
    /// The read returned these bytes.
    Data { bytes: Vec<u8> },
    /// The read would block; no data yet.
    WouldBlock,
    /// The read timed out; no data yet.
    TimedOut,
    /// The read failed with this description.
    Failed { message: String },
}

/// The outcome of one bounded read on an SSH channel.
pub enum SshReadEvent {
    /// The read returned zero bytes; `at_eof` is the channel's explicit
    /// end-of-file indicator.
    ZeroRead { at_eof: bool },
    /// The read returned these bytes.
    Data { bytes: Vec<u8> },
    /// The read would block; no data yet.
    WouldBlock,
    /// The read was interrupted and can be retried at once.
    Interrupted,
    /// The read failed with this description.
    Failed { message: String },
}

/// The outcome of one blocking read on a local terminal.
pub enum PtyReadEvent {
    /// The read returned zero bytes: the shell process exited.
    Closed,
    /// The read returned these bytes.
    Data { bytes: Vec<u8> },
    /// The read failed with this description.
    Failed { message: String },
}

/// What the reader loop does next.
pub enum ReaderAction {
    /// Forward this text to the event sink and to the session's log
    /// files, then read again.
    Emit { output: String },
    /// Sleep briefly, then read again.
    Backoff,
    /// Read again at once.
    Retry,
    /// Leave the loop, emitting the status event if one is given, then
    /// clean the session up exactly once.
    Stop { status: Option<ConnectionStatus> },
}

/// One step of a telnet session's reader loop.
pub fn telnet_reader_step(session_id: &str, running: bool, ev: TelnetReadEvent) -> (r: ReaderAction)
    ensures
        !running ==> r == (ReaderAction::Stop { status: None }),
        running ==> match ev {
            TelnetReadEvent::Closed => r matches ReaderAction::Stop { status: Some(st) }
                && is_status(st, session_id@, "disconnected"@, remote_closed_message()),
            TelnetReadEvent::Data { bytes } => {
                let text = lossy_decode(telnet_filter(bytes@));
                if text.len() == 0 {
                    r == ReaderAction::Retry
                } else {
                    r matches ReaderAction::Emit { output } && output@ == text
                }
            },
            TelnetReadEvent::WouldBlock => r == ReaderAction::Backoff,
            TelnetReadEvent::TimedOut => r == ReaderAction::Retry,
            TelnetReadEvent::Failed { message } => r matches ReaderAction::Stop {
                status: Some(st),
            } && is_status(st, session_id@, "error"@, telnet_error_message(message@)),
        },
{
    if !running {
        return ReaderAction::Stop { status: None };
    }
    match ev {
        TelnetReadEvent::Closed => {
            let st = make_status(
                session_id,
                "disconnected",
                "Connection closed by remote host".to_owned(),
            );
            ReaderAction::Stop { status: Some(st) }
        },
        TelnetReadEvent::Data { bytes } => {
            let data = process_telnet_data(bytes.as_slice());
            if data.as_str().unicode_len() == 0 {
                ReaderAction::Retry
            } else {
                ReaderAction::Emit { output: data }
            }
        },
        TelnetReadEvent::WouldBlock => ReaderAction::Backoff,
        TelnetReadEvent::TimedOut => ReaderAction::Retry,
        TelnetReadEvent::Failed { message } => {
            let mut m = String::new();
            m.append("Read error: ");
            m.append(message.as_str());
            let st = make_status(session_id, "error", m);
            ReaderAction::Stop { status: Some(st) }
        },
    }
}

/// One step of an SSH session's reader loop.
pub fn ssh_reader_step(session_id: &str, running: bool, ev: SshReadEvent) -> (r: ReaderAction)
    ensures
        !running ==> r == (ReaderAction::Stop { status: None }),
        running ==> match ev {
            SshReadEvent::ZeroRead { at_eof } => if at_eof {
                r matches ReaderAction::Stop { status: Some(st) } && is_status(
                    st,
                    session_id@,
                    "disconnected"@,
                    remote_closed_message(),
                )
            } else {
                r == ReaderAction::Backoff
            },
            SshReadEvent::Data { bytes } => r matches ReaderAction::Emit { output } && output@
                == lossy_decode(bytes@),
            SshReadEvent::WouldBlock => r == ReaderAction::Backoff,
            SshReadEvent::Interrupted => r == ReaderAction::Retry,
            SshReadEvent::Failed { message } => r matches ReaderAction::Stop { status: Some(st) }
                && is_status(st, session_id@, "error"@, ssh_error_message(message@)),
        },
{
    if !running {
        return ReaderAction::Stop { status: None };
    }
    match ev {
        SshReadEvent::ZeroRead { at_eof } => {
            if at_eof {
                let st = make_status(
                    session_id,
                    "disconnected",
                    "Connection closed by remote host".to_owned(),
                );
                ReaderAction::Stop { status: Some(st) }
            } else {
                ReaderAction::Backoff
            }
        },
        SshReadEvent::Data { bytes } => {
            let data = lossy_utf8(bytes.as_slice());
            ReaderAction::Emit { output: data }
        },
        SshReadEvent::WouldBlock => ReaderAction::Backoff,
        SshReadEvent::Interrupted => ReaderAction::Retry,
        SshReadEvent::Failed { message } => {
            let mut m = String::new();
            m.append("Connection error: ");
            m.append(message.as_str());
            let st = make_status(session_id, "error", m);
            ReaderAction::Stop { status: Some(st) }
        },
    }
}

/// One step of a local terminal session's reader loop.  The loop ends
/// silently on process exit or on a read error; there is no status event
/// for local terminals.
pub fn pty_reader_step(ev: PtyReadEvent) -> (r: ReaderAction)
    ensures
        match ev {
            PtyReadEvent::Closed => r == (ReaderAction::Stop { status: None }),
            PtyReadEvent::Data { bytes } => r matches ReaderAction::Emit { output } && output@
                == lossy_decode(bytes@),
            PtyReadEvent::Failed { message } => r == (ReaderAction::Stop { status: None }),
        },
{
    match ev {
        PtyReadEvent::Closed => ReaderAction::Stop { status: None },
        PtyReadEvent::Data { bytes } => {
            let data = lossy_utf8(bytes.as_slice());
            ReaderAction::Emit { output: data }
        },
        PtyReadEvent::Failed { message: _ } => ReaderAction::Stop { status: None },
    }
}

} // verus!
