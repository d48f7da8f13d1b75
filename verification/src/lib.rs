//! Tunnel protocol, registry and policy logic for the `tnlc` client and the `tnld` server.
//!
//! Every decision that a tunnel endpoint takes between two I/O operations is a function here,
//! with a contract that says what it returns. Sockets, timers and files stay with the caller.

use vstd::prelude::*;

pub mod auth;
pub mod bench;
pub mod big_endian;
pub mod client;
pub mod config;
pub mod error;
pub mod external;
pub mod net;
pub mod process;
pub mod protocol;
pub mod server;
pub mod session;
pub mod setup;
pub mod stream;
pub mod table;
pub mod text;
pub mod transport;

pub use protocol::TunnelId;
pub use session::SessionConfig;
pub use stream::{SessionError, Stream, MAX_TAG_LENGTH};
pub use transport::Transport;

verus! {

/// The version of the HTTP transport protocol.
pub const PROTOCOL_VERSION: &'static str = "2";

/// The header that carries the version of the HTTP transport protocol.
pub const PROTOCOL_VERSION_HEADER: &'static str = "X-Tnl-Protocol-Version";

/// What an idle dedicated transport is sent when it is given application data to carry.
pub const TRANSPORT_ACTIVATION_MARKER: [u8; 4] = [0x54, 0x4e, 0x4c, 0x02];

} // verus!
