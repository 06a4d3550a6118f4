//! Session-management core for a multi-protocol terminal multiplexer.
//!
//! The library holds the verified logic of the backend: the telnet
//! protocol codec, terminal-control-sequence stripping, the session
//! registries with their lifecycle rules, the reader-loop decision
//! functions, the log-sink bookkeeping, connection-profile storage and
//! command-line connection parsing.  The surrounding process performs
//! the actual socket, process and file I/O and hands the results to
//! these functions as plain values.

pub mod ansi;
pub mod cli;
mod clock;
pub mod codec;
pub mod connect;
pub mod events;
mod ids;
pub mod lifecycle;
pub mod logging;
pub mod profiles;
pub mod reader;
pub mod registry;
pub mod text;
