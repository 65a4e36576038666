//! The I/O state machine of a connection.
//!
//! Every connection carries the last event that epoll reported for it and
//! the state of its socket with respect to the epoll interest list. The
//! functions here decide how these change when epoll reports readiness and
//! when a receive or send on the stream succeeds, would block, or fails, and
//! which events the socket is re-armed for.
use vstd::prelude::*;

verus! {

/// epoll(7): the socket has data to read.
pub const EPOLL_IN: u32 = 0x001;
/// epoll(7): urgent data to read.
pub const EPOLL_PRI: u32 = 0x002;
/// epoll(7): the socket has room to write.
pub const EPOLL_OUT: u32 = 0x004;
/// epoll(7): an error condition.
pub const EPOLL_ERR: u32 = 0x008;
/// epoll(7): hang up.
pub const EPOLL_HUP: u32 = 0x010;
/// epoll(7): the peer closed the connection.
pub const EPOLL_RDHUP: u32 = 0x2000;
/// epoll(7): report at most one event, then disable the descriptor.
pub const EPOLL_ONESHOT: u32 = 0x4000_0000;
/// epoll(7): edge triggered notification.
pub const EPOLL_ET: u32 = 0x8000_0000;

/// The events a connection is armed for when only reads are awaited.
pub const EVENTS_R: u32 = EPOLL_IN | EPOLL_RDHUP | EPOLL_PRI | EPOLL_ET | EPOLL_ONESHOT;

/// The events a connection is armed for when reads and writes are awaited.
pub const EVENTS_RW: u32 = EPOLL_IN | EPOLL_OUT | EPOLL_RDHUP | EPOLL_PRI | EPOLL_ET | EPOLL_ONESHOT;

/// The last event reported for a connection.
#[derive(Debug, Clone, Copy, PartialEq, Eq, Structural)]
pub enum IoEvent {
    /// Waiting for an update from epoll
    Waiting,
    /// Epoll has reported data is waiting to be read from socket.
    DataAvailable,
    /// Epoll has reported that the socket is writable.
    Writable,
    /// Epoll has reported data to read and room to write.
    DataAvailableAndWritable,
    /// Readiness for reading, as classified from an epoll event mask.
    ReadAvailable,
    /// Readiness for writing, as classified from an epoll event mask.
    WriteAvailable,
    /// Readiness for reading and writing, as classified from an epoll event mask.
    ReadWriteAvailable,
    /// Error/Disconnect/Etc has occured and socket needs removed from server.
    ShouldClose,
}

/// The state of a connection's socket with respect to epoll.
#[derive(Debug, Clone, Copy, PartialEq, Eq, Structural)]
pub enum IoState {
    /// New connection, needs added to epoll instance.
    New,
    /// Socket has no data avialable for reading, but is armed and in the
    /// epoll instance's interest list.
    Waiting,
    /// Socket is currently in use (reading).
    InUse,
    /// All I/O operations have been exhausted and socket is ready to be
    /// re-inserted into the epoll instance's interest list for read events.
    ReArmR,
    /// All I/O operations have been exhausted and socket is ready to be
    /// re-inserted into the epoll instance's interest list for read and write events.
    ReArmRW,
}

/// What a receive or send on a connection's stream reported.
#[derive(Debug, Clone, Copy, PartialEq, Eq, Structural)]
pub enum StreamOutcome {
    /// The operation succeeded.
    Done,
    /// The operation would block.
    WouldBlock,
    /// The operation failed for another reason.
    Failed,
}

/// The control state of a connection.
#[derive(Debug, Clone, Copy, PartialEq, Eq, Structural)]
pub struct Connection {
    /// Underlying file descriptor.
    pub fd: i32,
    /// Last reported event fired from epoll.
    pub event: IoEvent,
    /// Current I/O state for socket.
    pub state: IoState,
}

/// The connection after a send on its stream reported `outcome`: a send that
/// would block asks for re-arming for reads and writes, unless the
/// connection is to be closed; a failed send marks it to be closed.
pub open spec fn after_send(c: Connection, outcome: StreamOutcome) -> Connection {
    match outcome {
        StreamOutcome::Done => c,
        StreamOutcome::WouldBlock => if c.event == IoEvent::ShouldClose {
            c
        } else {
            Connection { state: IoState::ReArmRW, ..c }
        },
        StreamOutcome::Failed => Connection { event: IoEvent::ShouldClose, ..c },
    }
}

/// The connection after flushing its stream once epoll reported it
/// writable: on success the write readiness is consumed (data still to read
/// stays reported) and a connection that was only writable asks for
/// re-arming for reads; a flush that would block asks for re-arming for
/// reads and writes; a failed one marks the connection to be closed.
pub open spec fn after_writable(c: Connection, outcome: StreamOutcome) -> Connection {
    match outcome {
        StreamOutcome::Done => {
            let event = if c.event == IoEvent::DataAvailableAndWritable {
                IoEvent::DataAvailable
            } else {
                IoEvent::Waiting
            };
            let state = if c.event == IoEvent::Writable {
                IoState::ReArmR
            } else {
                c.state
            };
            Connection { event, state, ..c }
        },
        StreamOutcome::WouldBlock => Connection { state: IoState::ReArmRW, ..c },
        StreamOutcome::Failed => Connection { event: IoEvent::ShouldClose, ..c },
    }
}

/// The connection after a receive on its stream reported `outcome`: a
/// receive that succeeded or would block leaves it waiting and asks for
/// re-arming for reads, keeping a pending request for writes; a failed one
/// marks it to be closed.
pub open spec fn after_recv(c: Connection, outcome: StreamOutcome) -> Connection {
    match outcome {
        StreamOutcome::Failed => Connection { event: IoEvent::ShouldClose, ..c },
        _ => Connection {
            event: IoEvent::Waiting,
            state: if c.state == IoState::ReArmRW {
                IoState::ReArmRW
            } else {
                IoState::ReArmR
            },
            ..c
        },
    }
}

/// The readiness that an epoll event mask reports: none when it reports
/// neither data to read nor room to write.
pub open spec fn readiness(events: u32) -> Option<IoEvent> {
    let read = events & EPOLL_IN != 0;
    let write = events & EPOLL_OUT != 0;
    if read && write {
        Some(IoEvent::ReadWriteAvailable)
    } else if read {
        Some(IoEvent::ReadAvailable)
    } else if write {
        Some(IoEvent::WriteAvailable)
    } else {
        None
    }
}

impl Connection {
    /// A connection that is new and waiting for epoll.
    pub fn new(fd: i32) -> (c: Connection)
        ensures
            c == (Connection { fd, event: IoEvent::Waiting, state: IoState::New }),
    {
        Connection { fd, event: IoEvent::Waiting, state: IoState::New }
    }

    /// The underlying file descriptor.
    pub fn as_raw_fd(&self) -> (fd: i32)
        ensures
            fd == self.fd,
    {
        self.fd
    }

    /// Records the outcome of a send on the connection's stream.
    pub fn on_send_result(&mut self, outcome: StreamOutcome)
        ensures
            *final(self) == after_send(*old(self), outcome),
            outcome == StreamOutcome::Done ==> *final(self) == *old(self),
    {
        match outcome {
            StreamOutcome::Done => {},
            StreamOutcome::WouldBlock => {
                if self.event == IoEvent::ShouldClose {
                    return;
                }
                self.state = IoState::ReArmRW;
            },
            StreamOutcome::Failed => {
                if self.event != IoEvent::ShouldClose {
                    self.event = IoEvent::ShouldClose;
                }
            },
        }
    }

    /// Records the outcome of flushing the connection's stream after epoll
    /// reported it writable.
    pub fn on_writable_result(&mut self, outcome: StreamOutcome)
        ensures
            *final(self) == after_writable(*old(self), outcome),
    {
        match outcome {
            StreamOutcome::Done => {
                let starting_event = self.event;
                if self.event == IoEvent::DataAvailableAndWritable {
                    self.event = IoEvent::DataAvailable;
                } else {
                    self.event = IoEvent::Waiting;
                }
                if starting_event == IoEvent::Writable {
                    self.state = IoState::ReArmR;
                }
            },
            StreamOutcome::WouldBlock => {
                self.state = IoState::ReArmRW;
            },
            StreamOutcome::Failed => {
                if self.event != IoEvent::ShouldClose {
                    self.event = IoEvent::ShouldClose;
                }
            },
        }
    }

    /// Records the outcome of a receive on the connection's stream. Returns
    /// whether the received messages are to be handed to the handler, which
    /// is so exactly when the receive succeeded.
    pub fn on_recv_result(&mut self, outcome: StreamOutcome) -> (deliver: bool)
        ensures
            *final(self) == after_recv(*old(self), outcome),
            outcome != StreamOutcome::Failed ==> final(self).event == IoEvent::Waiting
                && (final(self).state == IoState::ReArmR || final(self).state == IoState::ReArmRW)
                && (final(self).state == IoState::ReArmRW <==> old(self).state == IoState::ReArmRW),
            deliver == (outcome == StreamOutcome::Done),
    {
        match outcome {
            StreamOutcome::Failed => {
                self.event = IoEvent::ShouldClose;
                false
            },
            _ => {
                self.event = IoEvent::Waiting;
                if self.state != IoState::ReArmRW {
                    self.state = IoState::ReArmR;
                }
                outcome == StreamOutcome::Done
            },
        }
    }

    /// Records that adding the connection to epoll, or re-arming it there,
    /// failed: the connection is to be closed.
    pub fn on_epoll_ctl_error(&mut self)
        ensures
            *final(self) == (Connection { event: IoEvent::ShouldClose, ..*old(self) }),
    {
        self.event = IoEvent::ShouldClose;
    }

    /// Records that the connection was armed in epoll: it waits for epoll
    /// to report it.
    pub fn on_armed(&mut self)
        ensures
            *final(self) == (Connection { state: IoState::Waiting, ..*old(self) }),
    {
        self.state = IoState::Waiting;
    }

    /// Records that the connection was handed to a worker for its I/O.
    pub fn on_dispatched(&mut self)
        ensures
            *final(self) == (Connection { state: IoState::InUse, ..*old(self) }),
    {
        self.state = IoState::InUse;
    }

    /// Whether the connection asks for re-arming in epoll.
    pub fn needs_rearm(&self) -> (b: bool)
        ensures
            b == (self.state == IoState::ReArmR || self.state == IoState::ReArmRW),
    {
        self.state == IoState::ReArmR || self.state == IoState::ReArmRW
    }

    /// The events to re-arm the connection for: reads and writes when it
    /// asked for that, reads only otherwise.
    pub fn rearm_events(&self) -> (events: u32)
        ensures
            events == if self.state == IoState::ReArmRW { EVENTS_RW } else { EVENTS_R },
    {
        if self.state == IoState::ReArmRW {
            EVENTS_RW
        } else {
            EVENTS_R
        }
    }

    /// Whether the connection is to be closed.
    pub fn should_close(&self) -> (b: bool)
        ensures
            b == (self.event == IoEvent::ShouldClose),
    {
        self.event == IoEvent::ShouldClose
    }
}

/// The readiness that an epoll event mask reports.
pub fn classify_readiness(events: u32) -> (r: Option<IoEvent>)
    ensures
        r == readiness(events),
{
    let read = events & EPOLL_IN != 0;
    let write = events & EPOLL_OUT != 0;
    if read && write {
        Some(IoEvent::ReadWriteAvailable)
    } else if read {
        Some(IoEvent::ReadAvailable)
    } else if write {
        Some(IoEvent::WriteAvailable)
    } else {
        None
    }
}

/// Whether an epoll event mask reports data to read.
pub fn is_read_event(events: u32) -> (b: bool)
    ensures
        b == (events & EPOLL_IN != 0),
{
    events & EPOLL_IN != 0
}

/// Whether an epoll event mask reports an error, a hang up, or a peer that
/// closed the connection: such an interest is to be removed.
pub fn interest_needs_removal(events: u32) -> (b: bool)
    ensures
        b == (events & EPOLL_ERR != 0 || events & EPOLL_HUP != 0 || events & EPOLL_RDHUP != 0),
{
    events & EPOLL_ERR != 0 || events & EPOLL_HUP != 0 || events & EPOLL_RDHUP != 0
}

/// A send that succeeded changes nothing about a connection: its event and
/// its state stay as they were, so a connection not marked to be closed
/// stays unmarked.
pub proof fn lemma_send_success_keeps_connection(c: Connection)
    ensures
        after_send(c, StreamOutcome::Done) == c,
        after_send(c, StreamOutcome::Done).event == c.event,
        after_send(c, StreamOutcome::Done).state == c.state,
{
}

/// A receive that did not fail leaves the connection waiting for epoll and
/// asking to be re-armed: for reads and writes when it already asked for
/// that, for reads otherwise. So it never stays unarmed.
pub proof fn lemma_recv_rearms(c: Connection, outcome: StreamOutcome)
    requires
        outcome != StreamOutcome::Failed,
    ensures
        after_recv(c, outcome).event == IoEvent::Waiting,
        after_recv(c, outcome).fd == c.fd,
        after_recv(c, outcome).state == IoState::ReArmR || after_recv(c, outcome).state == IoState::ReArmRW,
        after_recv(c, outcome).state == IoState::ReArmRW <==> c.state == IoState::ReArmRW,
{
}

/// Once a connection is marked to be closed, no outcome of a send changes
/// it.
pub proof fn lemma_send_keeps_closing(c: Connection, outcome: StreamOutcome)
    requires
        c.event == IoEvent::ShouldClose,
    ensures
        after_send(c, outcome) == c,
{
}

/// A connection waiting to write keeps waiting to write through any
/// receive that does not fail.
pub proof fn lemma_recv_keeps_write_interest(c: Connection, outcome: StreamOutcome)
    requires
        c.state == IoState::ReArmRW,
        outcome != StreamOutcome::Failed,
    ensures
        after_recv(c, outcome).state == IoState::ReArmRW,
{
}

/// A connection is re-armed for write readiness exactly when it asked for
/// reads and writes; it is always re-armed for reads, one shot, edge
/// triggered.
pub proof fn lemma_rearm_mask(c: Connection)
    ensures
        ({
            let events = if c.state == IoState::ReArmRW { EVENTS_RW } else { EVENTS_R };
            &&& (events & EPOLL_OUT != 0) == (c.state == IoState::ReArmRW)
            &&& events & EPOLL_IN != 0
            &&& events & EPOLL_ONESHOT != 0
            &&& events & EPOLL_ET != 0
        }),
{
    assert(EVENTS_RW & EPOLL_OUT != 0 && EVENTS_R & EPOLL_OUT == 0 && EVENTS_RW & EPOLL_IN != 0
        && EVENTS_R & EPOLL_IN != 0 && EVENTS_RW & EPOLL_ONESHOT != 0 && EVENTS_R & EPOLL_ONESHOT != 0
        && EVENTS_RW & EPOLL_ET != 0 && EVENTS_R & EPOLL_ET != 0) by (bit_vector);
}

/// The readiness classification reports reads exactly when the mask does,
/// and writes exactly when the mask does.
pub proof fn lemma_readiness_reports_mask(events: u32)
    ensures
        (readiness(events) == Some(IoEvent::ReadAvailable) || readiness(events) == Some(IoEvent::ReadWriteAvailable))
            == (events & EPOLL_IN != 0),
        (readiness(events) == Some(IoEvent::WriteAvailable) || readiness(events) == Some(IoEvent::ReadWriteAvailable))
            == (events & EPOLL_OUT != 0),
        readiness(events) is None == (events & EPOLL_IN == 0 && events & EPOLL_OUT == 0),
{
}

/// A send that would block, on a connection that is not being closed, gets
/// the connection re-armed for write readiness, so that the server flushes
/// the stream once epoll reports it writable.
pub proof fn lemma_would_block_arms_write(c: Connection)
    requires
        c.event != IoEvent::ShouldClose,
    ensures
        ({
            let d = after_send(c, StreamOutcome::WouldBlock);
            let events = if d.state == IoState::ReArmRW { EVENTS_RW } else { EVENTS_R };
            &&& d.state == IoState::ReArmRW
            &&& events & EPOLL_OUT != 0
        }),
{
    lemma_rearm_mask(after_send(c, StreamOutcome::WouldBlock));
}

/// Any failed receive, send or flush marks the connection to be closed.
pub proof fn lemma_failure_closes(c: Connection)
    ensures
        after_send(c, StreamOutcome::Failed).event == IoEvent::ShouldClose,
        after_writable(c, StreamOutcome::Failed).event == IoEvent::ShouldClose,
        after_recv(c, StreamOutcome::Failed).event == IoEvent::ShouldClose,
{
}

} // verus!
