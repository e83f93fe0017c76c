//! Loss-tolerant state synchronisation over an unreliable, reordering transport.
//!
//! The crate holds the parts of a game networking layer that carry real
//! invariants: a wraparound-safe sequence number algebra, a jitter buffer that
//! reassembles a stream of sequenced inputs, a ring buffer of timestamped
//! snapshots with an adaptive playout delay, and the decisions of the
//! connection orchestrator that sits between the transport and the game.

pub mod convert;
pub mod debug_queue;
pub mod jitter_buffer;
pub mod link_config;
pub mod orchestrator;
pub mod packet;
pub mod ring_buffer;
pub mod sequence;
