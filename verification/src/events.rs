//! Event payloads emitted toward the display surface, and the status
//! messages that accompany them.
//!
//! The embedding process serialises these values and delivers them to the
//! display; the library only constructs them, with their exact text.

use vstd::prelude::*;

use crate::text::{dec_chars, u16_to_string};
use vstd::string::StringExecFns;

verus! {

/// Payload of a `pty-output` event.
pub struct PtyOutput {
    /// The identifier of the terminal session that produced the output.
    pub pty_id: String,
    /// The decoded text.
    pub data: String,
}

/// Payload of a `telnet-output` event.
pub struct TelnetOutput {
    /// The identifier of the telnet session that produced the output.
    pub session_id: String,
    /// The decoded text, after protocol filtering.
    pub data: String,
}

/// Payload of a `telnet-status` event: `connected`, `disconnected` or
/// `error`, with a human-readable message.
pub struct ConnectionStatus {
    /// The session the update speaks of.
    pub session_id: String,
    /// One of `connected`, `disconnected`, `error`.
    pub status: String,
    /// A human-readable description.
    pub message: String,
}

/// Payload of an `ssh-output` event.
pub struct SshOutput {
    /// The identifier of the SSH session that produced the output.
    pub session_id: String,
    /// The decoded text.
    pub data: String,
}

/// Payload of an `ssh-status` event; same shape as [`ConnectionStatus`],
/// kept separate because the display surface receives it under its own
/// event name.
pub struct SshConnectionStatus {
    /// The session the update speaks of.
    pub session_id: String,
    /// One of `connected`, `disconnected`, `error`.
    pub status: String,
    /// A human-readable description.
    pub message: String,
}

/// One row of the SSH session listing.
pub struct SshSessionInfo {
    /// The opaque session identifier.
    pub session_id: String,
    /// The remote host.
    pub host: String,
    /// The remote port.
    pub port: u16,
    /// The authenticated username.
    pub username: String,
}

/// Placeholder state handle for the terminal subsystem; it carries no
/// data of its own, the registries do.
pub struct PtyState;

impl Default for PtyState {
    /// The one value of the type.
    fn default() -> (r: PtyState)
        ensures
            r == (PtyState {  }),
    {
        PtyState
    }
}

/// True when a status payload carries exactly the given fields.
pub open spec fn is_status(
    cs: ConnectionStatus,
    sid: Seq<char>,
    status: Seq<char>,
    msg: Seq<char>,
) -> bool {
    cs.session_id@ == sid && cs.status@ == status && cs.message@ == msg
}

/// The `host:port` rendering of an endpoint.
pub open spec fn host_port_chars(host: Seq<char>, port: u16) -> Seq<char> {
    host + ":"@ + dec_chars(port as nat)
}

/// Renders an endpoint as `host:port`.
pub fn host_port_string(host: &str, port: u16) -> (s: String)
    ensures
        s@ == host_port_chars(host@, port),
{
    let mut s = String::new();
    s.append(host);
    s.append(":");
    let p = u16_to_string(port);
    s.append(p.as_str());
    s
}

/// The message of a telnet `connected` status update.
pub open spec fn telnet_connected_message(host: Seq<char>, port: u16) -> Seq<char> {
    "Connected to "@ + host + ":"@ + dec_chars(port as nat)
}

/// The message of an SSH `connected` status update.
pub open spec fn ssh_connected_message(user: Seq<char>, host: Seq<char>, port: u16) -> Seq<char> {
    "Connected to "@ + user + "@"@ + host + ":"@ + dec_chars(port as nat)
}

/// The message of a `disconnected` status update: the remote side closed
/// the connection.
pub open spec fn remote_closed_message() -> Seq<char> {
    "Connection closed by remote host"@
}

/// The message of a telnet `error` status update wrapping a read error.
pub open spec fn telnet_error_message(detail: Seq<char>) -> Seq<char> {
    "Read error: "@ + detail
}

/// The message of an SSH `error` status update wrapping a read error.
pub open spec fn ssh_error_message(detail: Seq<char>) -> Seq<char> {
    "Connection error: "@ + detail
}

/// Builds a status payload from its parts.
pub fn make_status(session_id: &str, status: &str, message: String) -> (cs: ConnectionStatus)
    ensures
        is_status(cs, session_id@, status@, message@),
{
    ConnectionStatus { session_id: session_id.to_owned(), status: status.to_owned(), message }
}

/// The `connected` status update a fresh telnet session announces.
pub fn telnet_connected_status(session_id: &str, host: &str, port: u16) -> (cs: ConnectionStatus)
    ensures
        is_status(cs, session_id@, "connected"@, telnet_connected_message(host@, port)),
{
    let mut m = String::new();
    m.append("Connected to ");
    m.append(host);
    m.append(":");
    let p = u16_to_string(port);
    m.append(p.as_str());
    make_status(session_id, "connected", m)
}

/// The `connected` status update a fresh SSH session announces.
pub fn ssh_connected_status(session_id: &str, user: &str, host: &str, port: u16) -> (cs:
    ConnectionStatus)
    ensures
        is_status(cs, session_id@, "connected"@, ssh_connected_message(user@, host@, port)),
{
    let mut m = String::new();
    m.append("Connected to ");
    m.append(user);
    m.append("@");
    m.append(host);
    m.append(":");
    let p = u16_to_string(port);
    m.append(p.as_str());
    make_status(session_id, "connected", m)
}

} // verus!
