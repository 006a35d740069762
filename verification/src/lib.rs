//! Load-generating benchmark harness for a Pusher-compatible
//! publish/subscribe WebSocket service with server-side tag filtering.
//!
//! The verified core: the token pool and filter builder, the wire encoding
//! of outbound frames, inbound frame decoding and timestamp extraction, the
//! per-connection client state machine, the shared progress counters, the
//! phase scheduler arithmetic, and the terminal aggregation of per-client
//! results into latency histograms.

pub mod aggregate;
pub mod bytes;
pub mod client;
pub mod filter;
pub mod frame;
pub mod sched;
pub mod stats;
pub mod tokens;
pub mod wire;
