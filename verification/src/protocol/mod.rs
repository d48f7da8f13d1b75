//! The data transport protocol: names, registration and the two reusable stream formats.

pub mod registration;
pub mod reusable;
pub mod sideband;
pub mod tunnel_id;

pub use registration::{read_tcp_data_registration, write_tcp_data_registration};
pub use reusable::ReusableTransportStream;
pub use sideband::SidebandTransportStream;
pub use tunnel_id::{InvalidTunnelId, TunnelId};
