//! The master list of open streams, searched by file descriptor when epoll
//! reports an event.
use vstd::prelude::*;
use crate::nbstream::Nbstream;
use crate::connection::EPOLL_IN;

verus! {

/// The position of the first stream in `list` whose socket is `fd`.
pub fn find_stream_index(list: &Vec<Nbstream>, fd: i32) -> (r: Option<usize>)
    ensures
        match r {
            Some(i) => i < list@.len() && list@[i as int].socket().fd == fd
                && forall|j: int| 0 <= j < i ==> (#[trigger] list@[j]).socket().fd != fd,
            None => forall|j: int| 0 <= j < list@.len() ==> (#[trigger] list@[j]).socket().fd != fd,
        },
{
    let mut i: usize = 0;
    while i < list.len()
        invariant
            0 <= i <= list@.len(),
            forall|j: int| 0 <= j < i ==> (#[trigger] list@[j]).socket().fd != fd,
        decreases list@.len() - i,
    {
        if list[i].as_raw_fd() == fd {
            return Some(i);
        }
        i = i + 1;
    }
    None
}

/// Takes the stream that an epoll event is for (its data is the file
/// descriptor) out of the list: the first stream with that file descriptor.
/// None, with the list unchanged, when no stream has it.
pub fn take_stream_for_event(list: &mut Vec<Nbstream>, data: u64) -> (r: Option<Nbstream>)
    ensures
        match find_first(old(list)@, data as i32) {
            Some(i) => r == Some(old(list)@[i]) && final(list)@ == old(list)@.remove(i),
            None => r is None && final(list)@ == old(list)@,
        },
{
    let fd = data as i32;
    match find_stream_index(list, fd) {
        Some(i) => {
            proof {
                lemma_find_first(old(list)@, fd, i as int);
            }
            let s = list.remove(i);
            Some(s)
        },
        None => {
            proof {
                lemma_find_first_none(old(list)@, fd);
            }
            None
        },
    }
}

/// What the event loop does with an epoll event on the stream list.
pub enum EventStep {
    /// No stream has the event's file descriptor: nothing to do.
    NotFound,
    /// The event reports data to read: read from this stream, which has
    /// left the list, then report the outcome with `finish_read`.
    Read(Nbstream),
    /// The event reports anything else: the stream has left the list; take
    /// it out of epoll, close its file descriptor and tell the handler.
    Drop(Nbstream),
}

/// The list and step after an epoll event with mask `events` and data
/// `data`, the file descriptor of the stream it is for.
pub open spec fn event_step_model(list: Seq<Nbstream>, events: u32, data: u64) -> (Seq<Nbstream>, Option<(bool, Nbstream)>) {
    match find_first(list, data as i32) {
        None => (list, None),
        Some(i) => (list.remove(i), Some((events & EPOLL_IN != 0, list[i]))),
    }
}

/// The first step of handling an epoll event on the stream list: the first
/// stream with the event's file descriptor leaves the list, to be read when
/// the event reports data to read and dropped otherwise.
pub fn begin_epoll_event(list: &mut Vec<Nbstream>, events: u32, data: u64) -> (step: EventStep)
    ensures
        ({
            let (l, r) = event_step_model(old(list)@, events, data);
            &&& final(list)@ == l
            &&& match step {
                EventStep::NotFound => r is None,
                EventStep::Read(s) => r == Some((true, s)),
                EventStep::Drop(s) => r == Some((false, s)),
            }
        }),
{
    match take_stream_for_event(list, data) {
        None => EventStep::NotFound,
        Some(s) => {
            if events & EPOLL_IN != 0 {
                EventStep::Read(s)
            } else {
                EventStep::Drop(s)
            }
        },
    }
}

/// The second step of a read event, once the stream has been read: after a
/// successful read the stream goes back into the list, at its end, and
/// nothing is to be closed; after a failed one the list stays without it
/// and its file descriptor is returned, to be taken out of epoll and closed.
pub fn finish_read(list: &mut Vec<Nbstream>, stream: Nbstream, read_ok: bool) -> (close: Option<i32>)
    ensures
        read_ok ==> final(list)@ == old(list)@.push(stream) && close is None,
        !read_ok ==> final(list)@ == old(list)@ && close == Some(stream.socket().fd),
{
    if read_ok {
        list.push(stream);
        None
    } else {
        Some(stream.as_raw_fd())
    }
}

/// A read event on a stream of the list, whose read succeeded, moves that
/// stream (as the read left it) from its place to the end of the list; the
/// other streams keep their order.
pub proof fn lemma_read_event_requeues(list: Seq<Nbstream>, events: u32, data: u64, after_read: Nbstream)
    requires
        find_first(list, data as i32) is Some,
        events & EPOLL_IN != 0,
    ensures
        ({
            let i = find_first(list, data as i32)->0;
            let (l, r) = event_step_model(list, events, data);
            &&& r == Some((true, list[i]))
            &&& l.push(after_read) == list.subrange(0, i) + list.subrange(i + 1, list.len() as int) + seq![after_read]
        }),
{
    let i = find_first(list, data as i32)->0;
    lemma_find_first_bounds(list, data as i32);
    assert(list.remove(i).push(after_read) =~= list.subrange(0, i) + list.subrange(i + 1, list.len() as int) + seq![after_read]);
}

/// An event that does not report data to read drops the stream it is for:
/// the stream leaves the list and does not come back.
pub proof fn lemma_drop_event_removes(list: Seq<Nbstream>, events: u32, data: u64)
    requires
        find_first(list, data as i32) is Some,
        events & EPOLL_IN == 0,
    ensures
        ({
            let i = find_first(list, data as i32)->0;
            let (l, r) = event_step_model(list, events, data);
            &&& r == Some((false, list[i]))
            &&& l == list.subrange(0, i) + list.subrange(i + 1, list.len() as int)
        }),
{
    let i = find_first(list, data as i32)->0;
    lemma_find_first_bounds(list, data as i32);
    assert(list.remove(i) =~= list.subrange(0, i) + list.subrange(i + 1, list.len() as int));
}

/// Removes the first stream whose socket is `fd` from the list; the list is
/// unchanged when there is none.
pub fn remove_fd_from_list(fd: i32, list: &mut Vec<Nbstream>)
    ensures
        match find_first(old(list)@, fd) {
            Some(i) => final(list)@ == old(list)@.remove(i),
            None => final(list)@ == old(list)@,
        },
{
    match find_stream_index(list, fd) {
        Some(i) => {
            proof {
                lemma_find_first(old(list)@, fd, i as int);
            }
            let _ = list.remove(i);
        },
        None => {
            proof {
                lemma_find_first_none(old(list)@, fd);
            }
        },
    }
}

/// The position of the first stream in `list` whose socket is `fd`,
/// searching from the front.
pub open spec fn find_first(list: Seq<Nbstream>, fd: i32) -> Option<int>
    decreases list.len(),
{
    if list.len() == 0 {
        None
    } else if list[0].socket().fd == fd {
        Some(0)
    } else {
        match find_first(list.drop_first(), fd) {
            Some(i) => Some(i + 1),
            None => None,
        }
    }
}

proof fn lemma_find_first(list: Seq<Nbstream>, fd: i32, i: int)
    requires
        0 <= i < list.len(),
        list[i].socket().fd == fd,
        forall|j: int| 0 <= j < i ==> (#[trigger] list[j]).socket().fd != fd,
    ensures
        find_first(list, fd) == Some(i),
    decreases i,
{
    if i > 0 {
        assert(list[0].socket().fd != fd);
        assert forall|j: int| 0 <= j < i - 1 implies (#[trigger] list.drop_first()[j]).socket().fd != fd by {
            assert(list.drop_first()[j] == list[j + 1]);
        }
        lemma_find_first(list.drop_first(), fd, i - 1);
    }
}

proof fn lemma_find_first_bounds(list: Seq<Nbstream>, fd: i32)
    ensures
        find_first(list, fd) matches Some(i) ==> 0 <= i < list.len() && list[i].socket().fd == fd,
    decreases list.len(),
{
    if list.len() > 0 && list[0].socket().fd != fd {
        lemma_find_first_bounds(list.drop_first(), fd);
    }
}

proof fn lemma_find_first_none(list: Seq<Nbstream>, fd: i32)
    requires
        forall|j: int| 0 <= j < list.len() ==> (#[trigger] list[j]).socket().fd != fd,
    ensures
        find_first(list, fd) is None,
    decreases list.len(),
{
    if list.len() > 0 {
        assert(list[0].socket().fd != fd);
        assert forall|j: int| 0 <= j < list.len() - 1 implies (#[trigger] list.drop_first()[j]).socket().fd != fd by {
            assert(list.drop_first()[j] == list[j + 1]);
        }
        lemma_find_first_none(list.drop_first(), fd);
    }
}

} // verus!
