//! hydrogen: the verified core of a non-blocking, epoll driven socket server.
//!
//! The library holds the parts of the server that decide: the wire framing
//! of messages, the per-stream frame decoder and transmit queue, the I/O
//! state machine of a connection, the bookkeeping of connections and worker
//! threads, and the server statistics. Sockets, epoll and threads stay with
//! the caller, which hands the library plain values and performs the actions
//! it returns.
use vstd::prelude::*;

pub mod frame;
pub mod decoder;
pub mod txqueue;
pub mod nbstream;
pub mod connection;
pub mod registry;
pub mod stats;
pub mod procfs;
pub mod workers;
pub mod streamlist;
pub mod ipc;
pub mod bstream;
pub mod stream;
pub mod socket;

verus! {

} // verus!
