//! A verified datagram rate-limiting receive pipeline.
//!
//! The crate layers a dual packet-count / byte-count rate limit over an
//! abstract UDP receive capability.  Admission control is a fixed tumbling
//! window of `1 << shift_millis` milliseconds: within each window at most
//! `max_packets` datagrams and `max_bytes` bytes are admitted (a zero cap
//! means that dimension is unconstrained).  All decisions are pure functions
//! of the limiter state and the elapsed time handed in by the driving loop,
//! so the whole admission logic is verified; the clock, the socket and the
//! timer live with the caller.

pub mod connect;
pub mod limit;
pub mod recv;
pub mod stats;
pub mod types;
