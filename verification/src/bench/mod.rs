//! A benchmark of stream servers: one protocol over bidirectional streams, spoken by a common load
//! generator and by every server under test.

pub mod load;
pub mod protocol;
pub mod serve;
