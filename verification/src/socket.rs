//! A socket controlled by epoll: a framed stream tagged with a random
//! identifier.
use vstd::prelude::*;
use crate::decoder::{DecoderModel, payloads};
use crate::nbstream::Nbstream;

verus! {

/// Calls `rand::random::<u32>()`, which draws a `u32` from the thread's
/// generator. Any value may come back; nothing is claimed of it.
#[verifier::external_body]
fn random_u32() -> u32 {
    rand::random::<u32>()
}

/// Represents an epoll controlled Async socket
#[derive(Clone)]
pub struct Socket {
    /// Unique identifier
    id: u32,
    /// I/O stream
    stream: Nbstream,
}

impl Socket {
    /// The socket's identifier.
    pub closed spec fn id_value(&self) -> u32 {
        self.id
    }

    /// The stream the socket reads and writes.
    pub closed spec fn stream_value(&self) -> Nbstream {
        self.stream
    }

    /// Returns a new Socket over `stream`, with a random identifier.
    pub fn new(stream: Nbstream) -> (s: Socket)
        ensures
            s.stream_value() == stream,
    {
        Socket { id: random_u32(), stream }
    }

    /// Returns this socket's id
    pub fn id(&self) -> (id: u32)
        ensures
            id == self.id_value(),
    {
        self.id
    }

    /// Returns the underlying file descriptor
    pub fn raw_fd(&self) -> (fd: i32)
        ensures
            fd == self.stream_value().socket().fd,
    {
        self.stream.as_raw_fd()
    }

    /// The stream, to read from and write to.
    pub fn stream_mut(&mut self) -> (s: &mut Nbstream)
        ensures
            *s == old(self).stream_value(),
            final(self).stream_value() == *final(s),
            final(self).id_value() == old(self).id_value(),
    {
        &mut self.stream
    }

    /// Returns the payloads that were read since the last call, draining the
    /// internal buffer.
    pub fn buffer(&mut self) -> (q: Vec<Vec<u8>>)
        ensures
            payloads(&q) == old(self).stream_value().rx().rx_queue,
            final(self).stream_value().rx() == (DecoderModel { rx_queue: Seq::empty(), ..old(self).stream_value().rx() }),
            final(self).stream_value().tx() == old(self).stream_value().tx(),
            final(self).stream_value().socket() == old(self).stream_value().socket(),
            final(self).id_value() == old(self).id_value(),
    {
        self.stream.drain_rx_queue()
    }
}

} // verus!
