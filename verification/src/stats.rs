//! Server statistics: traffic and connection counters, and memory usage.
//!
//! CPU usage figures are fractions and stay with the caller; everything
//! counted in whole numbers is kept and updated here.
use vstd::prelude::*;
use crate::decoder::payloads;

verus! {

/// Used v Available memory.
#[derive(Debug, Clone, Copy, PartialEq, Eq, Structural)]
pub struct RamData {
    /// Bytes currently in use
    pub bytes_used: u64,
    /// Bytes currently available
    pub bytes_available: u64,
}

impl RamData {
    /// Returns a new RamData
    pub fn new() -> (r: RamData)
        ensures
            r == (RamData { bytes_used: 0, bytes_available: 0 }),
    {
        RamData { bytes_used: 0, bytes_available: 0 }
    }
}

/// Memory usage split into kernel space and user space.
#[derive(Debug, Clone, Copy, PartialEq, Eq, Structural)]
pub struct Ram {
    /// Kernel space
    pub kernel: RamData,
    /// User space
    pub user_space: RamData,
}

impl Ram {
    /// Memory usage with every figure zero.
    pub fn new() -> (r: Ram)
        ensures
            r == (Ram { kernel: RamData { bytes_used: 0, bytes_available: 0 }, user_space: RamData { bytes_used: 0, bytes_available: 0 } }),
    {
        Ram { kernel: RamData::new(), user_space: RamData::new() }
    }
}

/// The first byte of a request for the server statistics.
pub const STATS_REQUEST_MARKER: u8 = 0x0D;

/// The length of a request for the server statistics: the marker and the
/// measuring interval in seconds as a 4-byte float.
pub const STATS_REQUEST_LEN: usize = 5;

/// Whether a received message asks for the server statistics.
pub fn is_stats_request(buf: &[u8]) -> (b: bool)
    ensures
        b == (buf@.len() == STATS_REQUEST_LEN && buf@[0] == STATS_REQUEST_MARKER),
{
    buf.len() == STATS_REQUEST_LEN && buf[0] == STATS_REQUEST_MARKER
}

/// The sum of the lengths of the byte sequences in `s`.
pub open spec fn total_len(s: Seq<Seq<u8>>) -> nat
    decreases s.len(),
{
    if s.len() == 0 {
        0
    } else {
        total_len(s.drop_last()) + s.last().len()
    }
}

/// The counters after a client connected.
pub open spec fn after_client_connected(d: GeneralData) -> GeneralData {
    GeneralData { num_clients: (d.num_clients + 1) as u32, ..d }
}

/// The counters after a client was lost: the client count goes down by one,
/// and stays zero at zero.
pub open spec fn after_client_lost(d: GeneralData) -> GeneralData {
    GeneralData { num_clients: if d.num_clients == 0 { 0 } else { (d.num_clients - 1) as u32 }, ..d }
}

/// The counters after a connection was added.
pub open spec fn after_connection_added(s: Stats) -> Stats {
    Stats { num_connections: (s.num_connections + 1) as u32, ..s }
}

/// The counters after a connection was removed: the count goes down by one,
/// and stays zero at zero.
pub open spec fn after_connection_removed(s: Stats) -> Stats {
    Stats { num_connections: if s.num_connections == 0 { 0 } else { (s.num_connections - 1) as u32 }, ..s }
}

/// Traffic and client counters of the server.
#[derive(Debug, Clone, Copy, PartialEq, Eq, Structural)]
pub struct GeneralData {
    /// Total time since server was started
    pub up_time: u64,
    /// Total bytes received
    pub bytes_recv: u64,
    /// Total bytes sent
    pub bytes_sent: u64,
    /// Total messages received
    pub msg_recv: u64,
    /// Total messages sent
    pub msg_sent: u64,
    /// Current number of connected clients
    pub num_clients: u32,
}

impl GeneralData {
    /// Returns a new GeneralData, every counter zero.
    pub fn new() -> (d: GeneralData)
        ensures
            d == (GeneralData { up_time: 0, bytes_recv: 0, bytes_sent: 0, msg_recv: 0, msg_sent: 0, num_clients: 0 }),
    {
        GeneralData { up_time: 0, bytes_recv: 0, bytes_sent: 0, msg_recv: 0, msg_sent: 0, num_clients: 0 }
    }

    /// Increments num_clients
    pub fn conn_recv(&mut self)
        requires
            old(self).num_clients < u32::MAX,
        ensures
            *final(self) == after_client_connected(*old(self)),
    {
        self.num_clients = self.num_clients + 1;
    }

    /// Decrements num_clients; at zero it stays zero.
    pub fn conn_lost(&mut self)
        ensures
            *final(self) == after_client_lost(*old(self)),
    {
        if self.num_clients == 0 {
            return;
        }
        self.num_clients = self.num_clients - 1;
    }

    /// Increments the total number of messages received
    pub fn msg_recv(&mut self)
        requires
            old(self).msg_recv < u64::MAX,
        ensures
            *final(self) == (GeneralData { msg_recv: (old(self).msg_recv + 1) as u64, ..*old(self) }),
    {
        self.msg_recv = self.msg_recv + 1;
    }

    /// Adds amount to the total number of bytes received
    pub fn bytes_recv(&mut self, amount: usize)
        requires
            old(self).bytes_recv + amount <= u64::MAX,
        ensures
            *final(self) == (GeneralData { bytes_recv: (old(self).bytes_recv + amount) as u64, ..*old(self) }),
    {
        self.bytes_recv = self.bytes_recv + amount as u64;
    }

    /// Adds amount to the total number of bytes sent
    pub fn bytes_sent(&mut self, amount: usize)
        requires
            old(self).bytes_sent + amount <= u64::MAX,
        ensures
            *final(self) == (GeneralData { bytes_sent: (old(self).bytes_sent + amount) as u64, ..*old(self) }),
    {
        self.bytes_sent = self.bytes_sent + amount as u64;
    }

    /// Increments the total number of messages sent
    pub fn msg_sent(&mut self)
        requires
            old(self).msg_sent < u64::MAX,
        ensures
            *final(self) == (GeneralData { msg_sent: (old(self).msg_sent + 1) as u64, ..*old(self) }),
    {
        self.msg_sent = self.msg_sent + 1;
    }

    /// Counts the messages handed on after a read: one received message and
    /// its length in received bytes for each payload.
    pub fn record_received(&mut self, received: &Vec<Vec<u8>>)
        requires
            old(self).msg_recv + received@.len() <= u64::MAX,
            old(self).bytes_recv + total_len(payloads(received)) <= u64::MAX,
        ensures
            *final(self) == (GeneralData {
                msg_recv: (old(self).msg_recv + received@.len()) as u64,
                bytes_recv: (old(self).bytes_recv + total_len(payloads(received))) as u64,
                ..*old(self)
            }),
    {
        let ghost all = payloads(received);
        let mut i: usize = 0;
        while i < received.len()
            invariant
                0 <= i <= received@.len(),
                all == payloads(received),
                old(self).msg_recv + received@.len() <= u64::MAX,
                old(self).bytes_recv + total_len(all) <= u64::MAX,
                *self == (GeneralData {
                    msg_recv: (old(self).msg_recv + i) as u64,
                    bytes_recv: (old(self).bytes_recv + total_len(all.subrange(0, i as int))) as u64,
                    ..*old(self)
                }),
            decreases received@.len() - i,
        {
            proof {
                assert(all.subrange(0, i + 1).drop_last() =~= all.subrange(0, i as int));
                assert(all.subrange(0, i + 1).last() == received@[i as int]@);
                assert(total_len(all.subrange(0, i + 1)) == total_len(all.subrange(0, i as int)) + received@[i as int]@.len());
                lemma_total_len_prefix(all, i + 1);
            }
            self.msg_recv();
            self.bytes_recv(received[i].len());
            i = i + 1;
        }
        assert(all.subrange(0, received@.len() as int) =~= all);
    }

    /// Counts one message of `len` bytes sent.
    pub fn record_sent(&mut self, len: usize)
        requires
            old(self).msg_sent < u64::MAX,
            old(self).bytes_sent + len <= u64::MAX,
        ensures
            *final(self) == (GeneralData {
                msg_sent: (old(self).msg_sent + 1) as u64,
                bytes_sent: (old(self).bytes_sent + len) as u64,
                ..*old(self)
            }),
    {
        self.msg_sent();
        self.bytes_sent(len);
    }
}

/// The total length of a prefix is at most the total length.
proof fn lemma_total_len_prefix(s: Seq<Seq<u8>>, k: int)
    requires
        0 <= k <= s.len(),
    ensures
        total_len(s.subrange(0, k)) <= total_len(s),
    decreases s.len(),
{
    if k < s.len() {
        assert(s.drop_last().subrange(0, k) =~= s.subrange(0, k));
        lemma_total_len_prefix(s.drop_last(), k);
    } else {
        assert(s.subrange(0, k) =~= s);
    }
}

/// Connection and file descriptor counters of the server.
#[derive(Debug, Clone, Copy, PartialEq, Eq, Structural)]
pub struct Stats {
    /// Total time since server was started
    pub up_time: u64,
    /// Current number of connections
    pub num_connections: u32,
    /// Total fds accepted through `accept()`
    pub fds_opened: u64,
    /// Total fds closed through 'close()'
    pub fds_closed: u64,
}

impl Stats {
    /// Creates a new `Stats` structure, every counter zero.
    pub fn new() -> (s: Stats)
        ensures
            s == (Stats { up_time: 0, num_connections: 0, fds_opened: 0, fds_closed: 0 }),
    {
        Stats { up_time: 0, num_connections: 0, fds_opened: 0, fds_closed: 0 }
    }

    /// Called when a connection is added to the master list
    pub fn conn_recv(&mut self)
        requires
            old(self).num_connections < u32::MAX,
        ensures
            *final(self) == after_connection_added(*old(self)),
    {
        self.num_connections = self.num_connections + 1;
    }

    /// Called when a connection is removed from master list; at zero the
    /// count stays zero.
    pub fn conn_lost(&mut self)
        ensures
            *final(self) == after_connection_removed(*old(self)),
    {
        if self.num_connections == 0 {
            return;
        }
        self.num_connections = self.num_connections - 1;
    }

    /// Called when a new fd is returned via `accept()`
    pub fn fd_opened(&mut self)
        requires
            old(self).fds_opened < u64::MAX,
        ensures
            *final(self) == (Stats { fds_opened: (old(self).fds_opened + 1) as u64, ..*old(self) }),
    {
        self.fds_opened = self.fds_opened + 1;
    }

    /// Called when a new fd is closed via `close()`
    pub fn fd_closed(&mut self)
        requires
            old(self).fds_closed < u64::MAX,
        ensures
            *final(self) == (Stats { fds_closed: (old(self).fds_closed + 1) as u64, ..*old(self) }),
    {
        self.fds_closed = self.fds_closed + 1;
    }
}

/// A client that connects and then is lost leaves the counters as they
/// were.
pub proof fn lemma_conn_recv_then_lost(d: GeneralData)
    requires
        d.num_clients < u32::MAX,
    ensures
        after_client_lost(after_client_connected(d)) == d,
{
}

/// A connection that is added and then removed leaves the counters as they
/// were.
pub proof fn lemma_stats_conn_recv_then_lost(s: Stats)
    requires
        s.num_connections < u32::MAX,
    ensures
        after_connection_removed(after_connection_added(s)) == s,
{
}

/// Losing a client never takes the client count below zero, and takes it
/// down by exactly one otherwise.
pub proof fn lemma_conn_lost_saturates(d: GeneralData)
    ensures
        d.num_clients == 0 ==> after_client_lost(d) == d,
        d.num_clients > 0 ==> after_client_lost(d).num_clients == d.num_clients - 1,
{
}

} // verus!
