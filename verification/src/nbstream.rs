//! A non-blocking framed stream over a socket file descriptor: the frame
//! decoder and transmit queue of one connection, with its identity.
use vstd::prelude::*;
use rand::Rng;
use crate::decoder::{DecoderModel, FrameDecoder, feed_model, fresh_model};
use crate::frame::FrameState;
use crate::txqueue::{SendAction, SendProgress, SendRound, TxQueue, WriteOutcome, begin_model, take_model, complete_model};

verus! {

/// A socket, known by its file descriptor.
#[derive(Debug, Clone, Copy, PartialEq, Eq, Structural)]
pub struct Socket {
    /// This socket's file descriptor
    pub fd: i32,
}

impl Socket {
    /// The underlying file descriptor.
    pub fn as_raw_fd(&self) -> (fd: i32)
        ensures
            fd == self.fd,
    {
        self.fd
    }
}

/// The number of characters in a stream identifier.
pub const STREAM_ID_LEN: usize = 15;

/// The characters that random identifiers are made of: ASCII letters and
/// digits.
pub open spec fn is_id_char(c: char) -> bool {
    ('A' <= c <= 'Z') || ('a' <= c <= 'z') || ('0' <= c <= '9')
}

/// Calls `rand::thread_rng().gen_ascii_chars().take(n)` and collects the
/// characters. The generator yields characters drawn from the ASCII letters
/// and digits, one per step, without end; `take(n)` keeps the first `n`. The
/// contract claims exactly that: `n` characters, each a letter or a digit.
/// Which ones is chance.
#[verifier::external_body]
fn random_ascii_string(n: usize) -> (s: String)
    ensures
        s@.len() == n,
        forall|i: int| 0 <= i < n ==> is_id_char(#[trigger] s@[i]),
{
    rand::thread_rng().gen_ascii_chars().take(n).collect::<String>()
}

/// A non-blocking framed stream.
#[derive(Clone)]
pub struct Nbstream {
    id: String,
    inner: Socket,
    decoder: FrameDecoder,
    tx: TxQueue,
}

impl Nbstream {
    /// The stream's identifier.
    pub closed spec fn id_view(&self) -> Seq<char> {
        self.id@
    }

    /// The socket the stream reads and writes.
    pub closed spec fn socket(&self) -> Socket {
        self.inner
    }

    /// The state of the receive side.
    pub closed spec fn rx(&self) -> DecoderModel {
        self.decoder@
    }

    /// The frames waiting to be written.
    pub closed spec fn tx(&self) -> Seq<Seq<u8>> {
        self.tx@
    }

    /// Well-formedness: the receive side is well formed.
    pub closed spec fn wf(&self) -> bool {
        self.decoder.wf()
    }

    /// A stream over `stream`, with a fresh random identifier of
    /// `STREAM_ID_LEN` letters and digits, looking for the start of a frame,
    /// with nothing received and nothing waiting to be written. The caller
    /// has put the socket into non-blocking mode.
    pub fn new(stream: Socket) -> (s: Nbstream)
        ensures
            s.wf(),
            s.socket() == stream,
            s.id_view().len() == STREAM_ID_LEN,
            forall|i: int| 0 <= i < STREAM_ID_LEN ==> is_id_char(#[trigger] s.id_view()[i]),
            s.rx() == fresh_model(Seq::empty()),
            s.tx() == Seq::<Seq<u8>>::empty(),
    {
        Nbstream {
            id: random_ascii_string(STREAM_ID_LEN),
            inner: stream,
            decoder: FrameDecoder::new(),
            tx: TxQueue::new(),
        }
    }

    /// The stream's identifier.
    pub fn id(&self) -> (id: String)
        ensures
            id@ == self.id_view(),
    {
        self.id.clone()
    }

    /// The underlying file descriptor.
    pub fn as_raw_fd(&self) -> (fd: i32)
        ensures
            fd == self.socket().fd,
    {
        self.inner.fd
    }

    /// Where the receive side stands inside the current frame.
    pub fn state(&self) -> (s: FrameState)
        ensures
            s == self.rx().state,
    {
        self.decoder.state()
    }

    /// Handles the bytes of one read: every frame they complete has its
    /// payload queued, in order, and a frame they begin is kept for the next
    /// read.
    pub fn absorb(&mut self, data: &[u8])
        requires
            old(self).wf(),
        ensures
            final(self).wf(),
            final(self).rx() == feed_model(old(self).rx(), data@),
            final(self).tx() == old(self).tx(),
            final(self).id_view() == old(self).id_view(),
            final(self).socket() == old(self).socket(),
    {
        self.decoder.feed(data);
    }

    /// Removes and returns the payloads of all completed frames, oldest first.
    pub fn drain_rx_queue(&mut self) -> (q: Vec<Vec<u8>>)
        ensures
            crate::decoder::payloads(&q) == old(self).rx().rx_queue,
            final(self).rx() == (DecoderModel { rx_queue: Seq::empty(), ..old(self).rx() }),
            final(self).wf() == old(self).wf(),
            final(self).tx() == old(self).tx(),
            final(self).id_view() == old(self).id_view(),
            final(self).socket() == old(self).socket(),
    {
        self.decoder.drain_rx_queue()
    }

    /// Starts a send of `buf`: its frame joins the transmit queue.
    pub fn begin_send(&mut self, buf: &[u8]) -> (round: SendRound)
        ensures
            (final(self).tx(), round@) == begin_model(old(self).tx(), buf@),
            final(self).rx() == old(self).rx(),
            final(self).wf() == old(self).wf(),
            final(self).id_view() == old(self).id_view(),
            final(self).socket() == old(self).socket(),
    {
        self.tx.begin_send(buf)
    }

    /// The next step of a send round.
    pub fn next_send_step(&mut self, round: &SendRound) -> (action: SendAction)
        ensures
            ({
                let (q, c) = take_model(old(self).tx(), round@);
                &&& final(self).tx() == q
                &&& match action {
                    SendAction::Write(bytes) => c == Some(bytes@),
                    SendAction::Finished(n) => c is None && n == round@.total,
                }
            }),
            final(self).rx() == old(self).rx(),
            final(self).wf() == old(self).wf(),
            final(self).id_view() == old(self).id_view(),
            final(self).socket() == old(self).socket(),
    {
        self.tx.take_next(round)
    }

    /// Records the outcome of writing `chunk`, the frame that the last step
    /// of `round` took out.
    pub fn complete_send_step(&mut self, round: &mut SendRound, chunk: Vec<u8>, outcome: WriteOutcome) -> (progress: SendProgress)
        requires
            old(round)@.remaining > 0,
            outcome matches WriteOutcome::Written(n) ==> n <= chunk@.len() && old(round)@.total + n <= usize::MAX,
        ensures
            (final(self).tx(), final(round)@, progress) == complete_model(old(self).tx(), old(round)@, chunk@, outcome),
            final(self).rx() == old(self).rx(),
            final(self).wf() == old(self).wf(),
            final(self).id_view() == old(self).id_view(),
            final(self).socket() == old(self).socket(),
    {
        self.tx.complete_write(round, chunk, outcome)
    }
}

} // verus!
