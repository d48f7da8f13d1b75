//! The central side of a tunnel.

pub mod api;
pub mod control;
pub mod forward;
pub mod registry;
pub mod route;
pub mod tls;
pub mod tunnel_server;

pub use registry::TunnelRegistry;
pub use tunnel_server::{
    RegisterError, RegisterTransportError, TunnelServer, MAX_SESSIONS_PER_TUNNEL,
    MAX_TRANSPORTS_PER_TUNNEL, RECOMMENDED_IDLE_TRANSPORTS_PER_TUNNEL,
};
