//! The registry of connections: slabs of connection file descriptors.
//!
//! Newly accepted connections wait in one slab until the event loop moves
//! them into the slab of all connections (and adds them to epoll). Epoll
//! events are matched to connections by file descriptor, and connections
//! that are to be dropped are removed from the slab.
use vstd::prelude::*;
use simple_slab::Slab;
use crate::connection::{IoEvent, EPOLL_IN, EPOLL_OUT, readiness};

verus! {

#[verifier::external_type_specification]
#[verifier::external_body]
#[verifier::reject_recursive_types(T)]
pub struct ExSlab<T>(Slab<T>);

/// The file descriptors held in a slab, in slab order.
pub uninterp spec fn slab_fds(slab: Slab<i32>) -> Seq<i32>;

/// Calls `simple_slab::Slab::with_capacity`. Its source allocates room for
/// `capacity` elements (the byte count `capacity * size_of::<i32>()`, which
/// must not overflow) and sets the length to zero: the new slab holds no
/// element. It panics only when the allocation fails, which is not stated.
#[verifier::external_body]
fn slab_with_capacity(capacity: usize) -> (s: Slab<i32>)
    requires
        capacity <= usize::MAX / 4,
    ensures
        slab_fds(s) == Seq::<i32>::empty(),
{
    Slab::with_capacity(capacity)
}

/// Calls `simple_slab::Slab::insert`. Its source writes the element at the
/// current length (growing the allocation first when full) and increments
/// the length: the element is appended. It panics only when growing fails,
/// which is not stated.
#[verifier::external_body]
fn slab_insert(slab: &mut Slab<i32>, fd: i32)
    ensures
        slab_fds(*final(slab)) == slab_fds(*old(slab)).push(fd),
{
    slab.insert(fd)
}

/// Calls `simple_slab::Slab::remove`. Its source asserts `offset < len`,
/// returns the element at `offset`, moves the last element into its place
/// and decrements the length.
#[verifier::external_body]
fn slab_remove(slab: &mut Slab<i32>, offset: usize) -> (fd: i32)
    requires
        offset < slab_fds(*old(slab)).len(),
    ensures
        fd == slab_fds(*old(slab))[offset as int],
        slab_fds(*final(slab)) == slab_fds(*old(slab)).update(offset as int, slab_fds(*old(slab)).last()).drop_last(),
{
    slab.remove(offset)
}

/// Calls `simple_slab::Slab::len`, which returns the number of elements.
#[verifier::external_body]
fn slab_len(slab: &Slab<i32>) -> (n: usize)
    ensures
        n == slab_fds(*slab).len(),
{
    slab.len()
}

/// Calls `simple_slab::Slab`'s `Index` implementation. Its source asserts
/// `index < len` and returns the element at `index`.
#[verifier::external_body]
fn slab_get(slab: &Slab<i32>, index: usize) -> (fd: i32)
    requires
        index < slab_fds(*slab).len(),
    ensures
        fd == slab_fds(*slab)[index as int],
{
    slab[index]
}

/// A slab of connection file descriptors.
pub struct ConnectionSlab {
    inner: Slab<i32>,
}

impl View for ConnectionSlab {
    type V = Seq<i32>;

    closed spec fn view(&self) -> Seq<i32> {
        slab_fds(self.inner)
    }
}

impl ConnectionSlab {
    /// An empty slab with room for `capacity` connections.
    pub fn with_capacity(capacity: usize) -> (s: ConnectionSlab)
        requires
            capacity <= usize::MAX / 4,
        ensures
            s@ == Seq::<i32>::empty(),
    {
        ConnectionSlab { inner: slab_with_capacity(capacity) }
    }

    /// The number of connections held.
    pub fn len(&self) -> (n: usize)
        ensures
            n == self@.len(),
    {
        slab_len(&self.inner)
    }

    /// The file descriptor at `index`.
    pub fn get(&self, index: usize) -> (fd: i32)
        requires
            index < self@.len(),
        ensures
            fd == self@[index as int],
    {
        slab_get(&self.inner, index)
    }

    /// Appends a connection.
    pub fn insert(&mut self, fd: i32)
        ensures
            final(self)@ == old(self)@.push(fd),
    {
        slab_insert(&mut self.inner, fd)
    }

    /// Removes the connection at `offset`; the last connection takes its
    /// place.
    pub fn remove(&mut self, offset: usize) -> (fd: i32)
        requires
            offset < old(self)@.len(),
        ensures
            fd == old(self)@[offset as int],
            final(self)@ == old(self)@.update(offset as int, old(self)@.last()).drop_last(),
    {
        slab_remove(&mut self.inner, offset)
    }
}

/// An epoll event as the kernel reports it: the event mask and the data
/// registered with the descriptor (here, its file descriptor).
#[derive(Debug, Clone, Copy, PartialEq, Eq, Structural)]
pub struct ReadyEvent {
    pub events: u32,
    pub data: u64,
}

/// A connection with the readiness that epoll reported for it.
#[derive(Debug, Clone, Copy, PartialEq, Eq, Structural)]
pub struct IoPair {
    pub event: IoEvent,
    pub fd: i32,
}

/// The connections that events in `events` report as aborted, and the
/// readiness queue they produce, given the connections in `slab`.
pub open spec fn io_update(slab: Seq<i32>, events: Seq<ReadyEvent>) -> (Seq<i32>, Seq<IoPair>)
    decreases events.len(),
{
    if events.len() == 0 {
        (Seq::empty(), Seq::empty())
    } else {
        let (aborted, queue) = io_update(slab, events.drop_last());
        let e = events.last();
        let fd = e.data as i32;
        if !slab.contains(fd) {
            (aborted, queue)
        } else {
            match readiness(e.events) {
                None => (aborted.push(fd), queue),
                Some(ev) => (aborted, queue.push(IoPair { event: ev, fd })),
            }
        }
    }
}

/// The index of the first connection with file descriptor `fd`, or an
/// error when the slab holds none.
pub fn find_connection_from_fd(fd: i32, connection_slab: &ConnectionSlab) -> (r: Result<usize, ()>)
    ensures
        match r {
            Ok(i) => i < connection_slab@.len() && connection_slab@[i as int] == fd
                && forall|j: int| 0 <= j < i ==> connection_slab@[j] != fd,
            Err(_) => !connection_slab@.contains(fd),
        },
{
    let n = connection_slab.len();
    let mut i: usize = 0;
    while i < n
        invariant
            n == connection_slab@.len(),
            0 <= i <= n,
            forall|j: int| 0 <= j < i ==> connection_slab@[j] != fd,
        decreases n - i,
    {
        if connection_slab.get(i) == fd {
            return Ok(i);
        }
        i = i + 1;
    }
    Err(())
}

/// Moves every newly accepted connection into the slab of all connections
/// and returns their file descriptors in the order they were moved (each
/// is then to be added to epoll). Taking the first connection each time,
/// with the last one moving into its place, moves them in the order: the
/// first, then the others from the last to the second.
pub fn insert_new_connections(new_connections: &mut ConnectionSlab, connection_slab: &mut ConnectionSlab) -> (moved: Vec<i32>)
    ensures
        final(new_connections)@ == Seq::<i32>::empty(),
        final(connection_slab)@ == old(connection_slab)@ + moved@,
        moved@.len() == old(new_connections)@.len(),
        old(new_connections)@.len() > 0 ==> moved@[0] == old(new_connections)@[0],
        forall|i: int| 1 <= i < moved@.len() ==> moved@[i] == old(new_connections)@[moved@.len() - i],
{
    let ghost s = new_connections@;
    let ghost main0 = connection_slab@;
    let num_connections = new_connections.len();
    let mut moved: Vec<i32> = Vec::new();
    let mut j: usize = 0;
    while j < num_connections
        invariant
            num_connections == s.len(),
            0 <= j <= num_connections,
            moved@.len() == j,
            connection_slab@ == main0 + moved@,
            j > 0 ==> moved@[0] == s[0],
            forall|i: int| 1 <= i < j ==> moved@[i] == s[num_connections - i],
            j == 0 ==> new_connections@ == s,
            0 < j < num_connections ==> new_connections@ == seq![s[num_connections - j]] + s.subrange(1, num_connections - j),
            j == num_connections ==> new_connections@ == Seq::<i32>::empty(),
        decreases num_connections - j,
    {
        let ghost before = new_connections@;
        assert(before.len() == num_connections - j) by {
            if 0 < j < num_connections {
                assert(before.len() == 1 + (num_connections - j - 1));
            }
        }
        let fd = new_connections.remove(0);
        connection_slab.insert(fd);
        moved.push(fd);
        proof {
            let after = new_connections@;
            if j + 1 < num_connections {
                if j == 0 {
                    assert(after =~= seq![s[num_connections - 1]] + s.subrange(1, num_connections - 1));
                } else {
                    assert(after =~= seq![s[num_connections - j - 1]] + s.subrange(1, num_connections - j - 1));
                }
            } else {
                assert(after =~= Seq::<i32>::empty());
            }
            assert(connection_slab@ =~= main0 + moved@);
        }
        j = j + 1;
    }
    moved
}

/// The slab and the removed file descriptors after a sweep from offset `x`
/// on: a stale connection at `x` is removed, the last one taking its place,
/// and the sweep looks at `x` again; any other connection is passed.
pub open spec fn sweep_stale(slab: Seq<i32>, stale: Seq<i32>, x: int) -> (Seq<i32>, Seq<i32>)
    decreases slab.len() - x,
{
    if x < 0 || x >= slab.len() {
        (slab, Seq::empty())
    } else if stale.contains(slab[x]) {
        let (rest, removed) = sweep_stale(slab.update(x, slab.last()).drop_last(), stale, x);
        (rest, seq![slab[x]] + removed)
    } else {
        sweep_stale(slab, stale, x + 1)
    }
}

/// Removes every connection whose file descriptor is in `stale` and returns
/// the removed file descriptors, in the order of removal. The slab is swept
/// from the front; each removal moves the last connection into the freed
/// place, which is looked at next.
pub fn remove_stale_connections(connection_slab: &mut ConnectionSlab, stale: &[i32]) -> (removed: Vec<i32>)
    ensures
        (final(connection_slab)@, removed@) == sweep_stale(old(connection_slab)@, stale@, 0),
        final(connection_slab)@.to_multiset().add(removed@.to_multiset()) == old(connection_slab)@.to_multiset(),
        forall|i: int| 0 <= i < final(connection_slab)@.len() ==> !stale@.contains(#[trigger] final(connection_slab)@[i]),
        forall|i: int| 0 <= i < removed@.len() ==> stale@.contains(#[trigger] removed@[i]),
{
    broadcast use vstd::seq_lib::group_to_multiset_ensures;
    let ghost s0 = connection_slab@;
    let mut removed: Vec<i32> = Vec::new();
    let mut x: usize = 0;
    while x < connection_slab.len()
        invariant
            0 <= x <= connection_slab@.len(),
            connection_slab@.to_multiset().add(removed@.to_multiset()) == s0.to_multiset(),
            forall|i: int| 0 <= i < x ==> !stale@.contains(#[trigger] connection_slab@[i]),
            forall|i: int| 0 <= i < removed@.len() ==> stale@.contains(#[trigger] removed@[i]),
            ({
                let (r, rm) = sweep_stale(connection_slab@, stale@, x as int);
                sweep_stale(s0, stale@, 0) == (r, removed@ + rm)
            }),
        decreases connection_slab@.len() - x,
    {
        let fd = connection_slab.get(x);
        proof {
            assert(connection_slab@[x as int] == fd);
        }
        if contains_fd(stale, fd) {
            let ghost before = connection_slab@;
            let r = connection_slab.remove(x);
            proof {
                let after = connection_slab@;
                lemma_swap_remove_multiset(before, x as int);
                assert(forall|i: int| 0 <= i < x ==> after[i] == before[i]);
            }
            let ghost rm = removed@;
            removed.push(r);
            assert(removed@ == rm.push(r));
            proof {
                let (r2, rm2) = sweep_stale(connection_slab@, stale@, x as int);
                assert(sweep_stale(before, stale@, x as int) == (r2, seq![r] + rm2));
                assert(rm + (seq![r] + rm2) =~= removed@ + rm2);
            }
            proof {
                broadcast use vstd::multiset::group_multiset_axioms;
                vstd::seq_lib::to_multiset_build(rm, r);
                assert(connection_slab@.to_multiset().add(removed@.to_multiset()) =~= s0.to_multiset());
            }
        } else {
            x = x + 1;
        }
    }
    assert(removed@ + Seq::<i32>::empty() =~= removed@);
    removed
}

/// Whether `fds` holds `fd`.
fn contains_fd(fds: &[i32], fd: i32) -> (b: bool)
    ensures
        b == fds@.contains(fd),
{
    let mut i: usize = 0;
    while i < fds.len()
        invariant
            0 <= i <= fds@.len(),
            forall|j: int| 0 <= j < i ==> fds@[j] != fd,
        decreases fds@.len() - i,
    {
        if fds[i] == fd {
            return true;
        }
        i = i + 1;
    }
    false
}

/// Removing an element by moving the last one into its place keeps every
/// other element.
proof fn lemma_swap_remove_multiset(s: Seq<i32>, x: int)
    requires
        0 <= x < s.len(),
    ensures
        s.update(x, s.last()).drop_last().to_multiset().insert(s[x]) == s.to_multiset(),
{
    broadcast use vstd::seq_lib::group_to_multiset_ensures, vstd::multiset::group_multiset_axioms;
    let n = s.len() as int;
    let t = s.update(x, s.last()).drop_last();
    if x == n - 1 {
        assert(t =~= s.drop_last());
        assert(s =~= s.drop_last().push(s.last()));
    } else {
        // s = s.drop_last().push(last); t = s.drop_last().update(x, last)
        let d = s.drop_last();
        assert(t =~= d.update(x, s.last()));
        vstd::seq_lib::to_multiset_update(d, x, s.last());
        assert(s =~= d.push(s.last()));
        assert(d.to_multiset().insert(s.last()).contains(d[x]));
        assert(t.to_multiset().insert(s[x]) =~= s.to_multiset());
    }
}

/// How one more epoll event changes the outcome of matching events to
/// connections: an event for a descriptor that no connection has changes
/// nothing; otherwise the connection is reported aborted exactly when the
/// mask has neither EPOLLIN nor EPOLLOUT, and else it joins the end of the
/// readiness queue as ReadWriteAvailable (both set), ReadAvailable (only
/// EPOLLIN) or WriteAvailable (only EPOLLOUT); the connections reported
/// before keep their place.
pub proof fn lemma_io_update_step(slab: Seq<i32>, events: Seq<ReadyEvent>, e: ReadyEvent)
    ensures
        ({
            let (a0, q0) = io_update(slab, events);
            let (a1, q1) = io_update(slab, events.push(e));
            let fd = e.data as i32;
            let read = e.events & EPOLL_IN != 0;
            let write = e.events & EPOLL_OUT != 0;
            &&& !slab.contains(fd) ==> a1 == a0 && q1 == q0
            &&& slab.contains(fd) && !read && !write ==> a1 == a0.push(fd) && q1 == q0
            &&& slab.contains(fd) && read && write ==> a1 == a0 && q1 == q0.push(IoPair { event: IoEvent::ReadWriteAvailable, fd })
            &&& slab.contains(fd) && read && !write ==> a1 == a0 && q1 == q0.push(IoPair { event: IoEvent::ReadAvailable, fd })
            &&& slab.contains(fd) && !read && write ==> a1 == a0 && q1 == q0.push(IoPair { event: IoEvent::WriteAvailable, fd })
        }),
{
    assert(events.push(e).drop_last() =~= events);
    assert(events.push(e).last() == e);
}

/// Matching no events reports nothing.
pub proof fn lemma_io_update_empty(slab: Seq<i32>)
    ensures
        io_update(slab, Seq::empty()) == (Seq::<i32>::empty(), Seq::<IoPair>::empty()),
{
}

/// Matches each epoll event to its connection by file descriptor: events
/// for unknown descriptors are skipped; a connection whose event reports
/// neither data to read nor room to write is reported aborted; the others
/// join the readiness queue with the readiness they report.
pub fn update_io_events(connection_slab: &ConnectionSlab, events: &[ReadyEvent]) -> (r: (Vec<i32>, Vec<IoPair>))
    ensures
        (r.0@, r.1@) == io_update(connection_slab@, events@),
{
    let mut aborted: Vec<i32> = Vec::new();
    let mut queue: Vec<IoPair> = Vec::new();
    let mut i: usize = 0;
    while i < events.len()
        invariant
            0 <= i <= events@.len(),
            (aborted@, queue@) == io_update(connection_slab@, events@.subrange(0, i as int)),
        decreases events@.len() - i,
    {
        let e = events[i];
        let fd = e.data as i32;
        assert(events@.subrange(0, i + 1).drop_last() =~= events@.subrange(0, i as int));
        match find_connection_from_fd(fd, connection_slab) {
            Err(_) => {},
            Ok(_) => {
                match crate::connection::classify_readiness(e.events) {
                    None => aborted.push(fd),
                    Some(ev) => queue.push(IoPair { event: ev, fd }),
                }
            },
        }
        i = i + 1;
    }
    assert(events@.subrange(0, events@.len() as int) =~= events@);
    (aborted, queue)
}

} // verus!
