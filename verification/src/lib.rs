//! A verified session engine for a publish/subscribe messaging protocol
//! over a byte-stream transport.
//!
//! The crate models the per-connection protocol engine: the decoded packet
//! values exchanged with the codec (`packets`), the wildcard subscription
//! registry (`subs`), the shared per-session state with its packet-id
//! allocator and in-flight exchange tables (`cell`), the outbound handle
//! operations (`sink`), and the per-connection state machine that interleaves
//! inbound packets, sink requests and timer expiry (`dispatcher`).
//!
//! Transport I/O, byte-level encoding and the asynchronous plumbing around
//! the engine are outside this crate: every entry point here is a plain
//! function from decoded values and handler outcomes to a new state and a
//! list of actions for the caller to perform.

pub mod packets;
pub mod subs;
pub mod cell;
pub mod sink;
pub mod dispatcher;
pub mod v5;
