//! The node side of a tunnel.

pub mod forward;
pub mod http;
pub mod names;
pub mod reconnect;
