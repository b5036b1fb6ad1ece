//! A minimal multi-process communication harness: a fixed group of ranks
//! exchanges typed payloads through point-to-point and collective
//! operations, and a set of scenario drivers (neighbor exchange, directed
//! send, ping-pong, token ring, random-length transfer, broadcast, scatter)
//! exercises those primitives over ring, pair and star topologies.

pub mod channel;
pub mod collective;
pub mod directed;
pub mod error;
pub mod group;
pub mod neighbor;
pub mod ping_pong;
pub mod random_transfer;
pub mod token_ring;

pub use channel::Status;
pub use error::CommError;
pub use group::ProcessGroup;
