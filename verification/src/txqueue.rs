//! The send side of a framed stream: a queue of frames waiting to be
//! written, and the decisions of one send round over it.
//!
//! A send appends the frame of the new payload to the queue and then writes
//! the waiting frames from the oldest on, the new one last, taking each out
//! of the queue before its write. After a complete write the round goes on
//! with the next frame. A partial write puts the bytes it did not take back
//! at the front of the queue and ends the send, which succeeds with the
//! bytes written so far. A write that would block puts the frame back at the
//! front and ends the send with the error; any other failed write drops the
//! frame and ends the send with the error. The caller performs each write
//! and reports its outcome.
use vstd::prelude::*;
use crate::frame::{encode_frame, from_slice};
use crate::decoder::payloads;

verus! {

/// What a write of a frame reported.
#[derive(Debug, Clone, Copy, PartialEq, Eq, Structural)]
pub enum WriteOutcome {
    /// The write accepted this many bytes.
    Written(usize),
    /// The socket would block; nothing was written.
    WouldBlock,
    /// The write failed for another reason.
    Failed,
}

/// The next step of a send round.
#[derive(Debug)]
pub enum SendAction {
    /// Write these bytes and report the outcome.
    Write(Vec<u8>),
    /// The round is over; the send succeeded with this many bytes written.
    Finished(usize),
}

/// Where a send round stands after a write.
#[derive(Debug, Clone, Copy, PartialEq, Eq, Structural)]
pub enum SendProgress {
    /// Ask for the next step.
    Continue,
    /// The send succeeded with this many bytes written in total.
    Done(usize),
    /// The send ends with the error that the write reported.
    Failed,
}

/// The mathematical state of a send round.
pub struct RoundModel {
    /// The number of frames the round still has to write.
    pub remaining: int,
    /// Bytes written so far in this round.
    pub total: int,
}

/// The queue and round after appending the frame of `payload` and starting
/// a round over every frame waiting, the new one last.
pub open spec fn begin_model(queue: Seq<Seq<u8>>, payload: Seq<u8>) -> (Seq<Seq<u8>>, RoundModel) {
    (queue.push(encode_frame(payload)), RoundModel { remaining: queue.len() + 1int, total: 0 })
}

/// The queue after the next step, and the frame to write (none when the
/// round is over): the oldest frame leaves the queue.
pub open spec fn take_model(queue: Seq<Seq<u8>>, round: RoundModel) -> (Seq<Seq<u8>>, Option<Seq<u8>>) {
    if round.remaining > 0 && queue.len() > 0 {
        (queue.drop_first(), Some(queue[0]))
    } else {
        (queue, None)
    }
}

/// The queue, round and progress after the write of `chunk`, the frame that
/// the last step took from the front of the queue, reported `outcome`.
pub open spec fn complete_model(
    queue: Seq<Seq<u8>>,
    round: RoundModel,
    chunk: Seq<u8>,
    outcome: WriteOutcome,
) -> (Seq<Seq<u8>>, RoundModel, SendProgress) {
    match outcome {
        WriteOutcome::Failed => (queue, round, SendProgress::Failed),
        WriteOutcome::WouldBlock => (seq![chunk] + queue, round, SendProgress::Failed),
        WriteOutcome::Written(n) => {
            let total = round.total + n;
            if n < chunk.len() {
                (
                    seq![chunk.subrange(n as int, chunk.len() as int)] + queue,
                    RoundModel { total, ..round },
                    SendProgress::Done(total as usize),
                )
            } else {
                (queue, RoundModel { remaining: round.remaining - 1, total }, SendProgress::Continue)
            }
        },
    }
}

/// The number of bytes in the frames of `queue`.
pub open spec fn bytes_in(queue: Seq<Seq<u8>>) -> int
    decreases queue.len(),
{
    if queue.len() == 0 {
        0
    } else {
        queue[0].len() + bytes_in(queue.drop_first())
    }
}

/// The rest of a round in which every write is accepted whole: the frames
/// written, in order, the round at its end, and the queue left.
pub open spec fn write_all(queue: Seq<Seq<u8>>, round: RoundModel) -> (Seq<Seq<u8>>, RoundModel, Seq<Seq<u8>>)
    decreases queue.len(),
{
    if round.remaining > 0 && queue.len() > 0 {
        let next = RoundModel { remaining: round.remaining - 1, total: round.total + queue[0].len() };
        let (w, r, q) = write_all(queue.drop_first(), next);
        (seq![queue[0]] + w, r, q)
    } else {
        (Seq::empty(), round, queue)
    }
}

/// The state of one send round.
pub struct SendRound {
    remaining: usize,
    total: usize,
}

impl View for SendRound {
    type V = RoundModel;

    closed spec fn view(&self) -> RoundModel {
        RoundModel { remaining: self.remaining as int, total: self.total as int }
    }
}

impl SendRound {
    /// Bytes written so far in this round.
    pub fn total(&self) -> (t: usize)
        ensures
            t == self@.total,
    {
        self.total
    }

    /// The number of frames the round still has to write.
    pub fn remaining(&self) -> (n: usize)
        ensures
            n == self@.remaining,
    {
        self.remaining
    }
}

/// Frames waiting to be written, oldest first.
#[derive(Clone)]
pub struct TxQueue {
    queue: Vec<Vec<u8>>,
}

impl View for TxQueue {
    type V = Seq<Seq<u8>>;

    closed spec fn view(&self) -> Seq<Seq<u8>> {
        payloads(&self.queue)
    }
}

impl TxQueue {
    /// An empty queue.
    pub fn new() -> (q: TxQueue)
        ensures
            q@ == Seq::<Seq<u8>>::empty(),
    {
        let q = TxQueue { queue: Vec::new() };
        assert(q@ =~= Seq::<Seq<u8>>::empty());
        q
    }

    /// The number of frames waiting.
    pub fn len(&self) -> (n: usize)
        ensures
            n == self@.len(),
    {
        self.queue.len()
    }

    /// Appends the frame of `payload` and starts a round over every frame
    /// waiting.
    pub fn begin_send(&mut self, payload: &[u8]) -> (round: SendRound)
        ensures
            (final(self)@, round@) == begin_model(old(self)@, payload@),
    {
        let frame = from_slice(payload);
        let ghost before = self@;
        self.queue.push(frame);
        assert(self@ =~= before.push(encode_frame(payload@)));
        SendRound { remaining: self.queue.len(), total: 0 }
    }

    /// The next step of `round`: the oldest frame, taken out of the queue,
    /// or the end of the round.
    pub fn take_next(&mut self, round: &SendRound) -> (action: SendAction)
        ensures
            ({
                let (q, c) = take_model(old(self)@, round@);
                &&& final(self)@ == q
                &&& match action {
                    SendAction::Write(bytes) => c == Some(bytes@),
                    SendAction::Finished(n) => c is None && n == round@.total,
                }
            }),
    {
        if round.remaining > 0 && self.queue.len() > 0 {
            let ghost before = self@;
            let b = self.queue.remove(0);
            assert(self@ =~= before.drop_first());
            SendAction::Write(b)
        } else {
            SendAction::Finished(round.total)
        }
    }

    /// Records the outcome of writing `chunk`, the frame that the last step
    /// of `round` took out.
    pub fn complete_write(&mut self, round: &mut SendRound, chunk: Vec<u8>, outcome: WriteOutcome) -> (progress: SendProgress)
        requires
            old(round)@.remaining > 0,
            outcome matches WriteOutcome::Written(n) ==> n <= chunk@.len() && old(round)@.total + n <= usize::MAX,
        ensures
            (final(self)@, final(round)@, progress) == complete_model(old(self)@, old(round)@, chunk@, outcome),
    {
        let ghost before = self@;
        match outcome {
            WriteOutcome::Failed => SendProgress::Failed,
            WriteOutcome::WouldBlock => {
                self.queue.insert(0, chunk);
                assert(self@ =~= seq![chunk@] + before);
                SendProgress::Failed
            },
            WriteOutcome::Written(n) => {
                round.total = round.total + n;
                if n < chunk.len() {
                    let remainder = unwritten_bytes(&chunk, n);
                    self.queue.insert(0, remainder);
                    assert(self@ =~= seq![chunk@.subrange(n as int, chunk@.len() as int)] + before);
                    SendProgress::Done(round.total)
                } else {
                    round.remaining = round.remaining - 1;
                    SendProgress::Continue
                }
            },
        }
    }
}

/// The bytes of `bytes` from position `n` on: what a write that accepted
/// `n` of them left unwritten.
fn unwritten_bytes(bytes: &Vec<u8>, n: usize) -> (r: Vec<u8>)
    requires
        n <= bytes@.len(),
    ensures
        r@ == bytes@.subrange(n as int, bytes@.len() as int),
{
    let len = bytes.len();
    let mut r: Vec<u8> = Vec::new();
    let mut x = n;
    while x < len
        invariant
            len == bytes@.len(),
            n <= x <= len,
            r@ == bytes@.subrange(n as int, x as int),
        decreases len - x,
    {
        r.push(bytes[x]);
        assert(bytes@.subrange(n as int, x + 1) == bytes@.subrange(n as int, x as int).push(bytes@[x as int]));
        x = x + 1;
    }
    r
}

/// A write that accepts a whole frame is one step of `write_all`: the
/// frame leaves the queue, its bytes are counted, and the round goes on.
pub proof fn lemma_full_write_step(queue: Seq<Seq<u8>>, round: RoundModel, n: usize)
    requires
        round.remaining > 0,
        queue.len() > 0,
        n == queue[0].len(),
    ensures
        ({
            let (q1, c) = take_model(queue, round);
            let (q2, r2, p) = complete_model(q1, round, c->0, WriteOutcome::Written(n));
            &&& c == Some(queue[0])
            &&& p == SendProgress::Continue
            &&& q2 == queue.drop_first()
            &&& r2 == (RoundModel { remaining: round.remaining - 1, total: round.total + queue[0].len() })
        }),
{
}

/// A round over the whole queue, whose writes are all accepted whole,
/// writes every frame, oldest first, counts all their bytes and leaves the
/// queue empty.
pub proof fn lemma_write_all_flushes(queue: Seq<Seq<u8>>, round: RoundModel)
    requires
        round.remaining == queue.len(),
    ensures
        write_all(queue, round) == (queue, RoundModel { remaining: 0, total: round.total + bytes_in(queue) }, Seq::<Seq<u8>>::empty()),
    decreases queue.len(),
{
    if queue.len() > 0 {
        let next = RoundModel { remaining: round.remaining - 1, total: round.total + queue[0].len() };
        lemma_write_all_flushes(queue.drop_first(), next);
        assert(seq![queue[0]] + queue.drop_first() =~= queue);
    }
}

/// A send flushes what earlier sends left waiting: when every write is
/// accepted whole, the frames already queued are written first, in order,
/// then the new frame; the round counts all their bytes, and the queue ends
/// empty.
pub proof fn lemma_send_flushes_queue(queue: Seq<Seq<u8>>, payload: Seq<u8>)
    ensures
        ({
            let (q1, r1) = begin_model(queue, payload);
            write_all(q1, r1) == (
                queue.push(encode_frame(payload)),
                RoundModel { remaining: 0, total: bytes_in(queue.push(encode_frame(payload))) },
                Seq::<Seq<u8>>::empty(),
            )
        }),
{
    let (q1, r1) = begin_model(queue, payload);
    lemma_write_all_flushes(q1, r1);
}

/// A send of one payload on an empty queue, whose single write is accepted
/// whole, writes exactly the payload's frame, succeeds with the frame's
/// length (the payload length plus four) and leaves the queue empty.
pub proof fn lemma_send_single_frame(payload: Seq<u8>, written: usize)
    requires
        written == encode_frame(payload).len(),
    ensures
        ({
            let (q1, r1) = begin_model(Seq::empty(), payload);
            let (q2, c) = take_model(q1, r1);
            let (q3, r3, p) = complete_model(q2, r1, encode_frame(payload), WriteOutcome::Written(written));
            let (q4, c4) = take_model(q3, r3);
            &&& c == Some(encode_frame(payload))
            &&& p == SendProgress::Continue
            &&& c4 is None
            &&& r3.total == payload.len() + 4
            &&& q4 == Seq::<Seq<u8>>::empty()
        }),
{
    let (q1, r1) = begin_model(Seq::empty(), payload);
    assert(q1 =~= seq![encode_frame(payload)]);
    let (q2, c) = take_model(q1, r1);
    assert(q2 =~= Seq::<Seq<u8>>::empty());
}

/// A write that accepts only part of a frame loses nothing and repeats
/// nothing: the bytes it did not take go back to the front of the queue,
/// ahead of the frames that were waiting behind, and the send ends with the
/// bytes written so far.
pub proof fn lemma_partial_write_keeps_unwritten(queue: Seq<Seq<u8>>, round: RoundModel, n: usize)
    requires
        round.remaining > 0,
        queue.len() > 0,
        n < queue[0].len(),
    ensures
        ({
            let (q1, c) = take_model(queue, round);
            let (q2, r2, p) = complete_model(q1, round, c->0, WriteOutcome::Written(n));
            &&& queue[0].subrange(0, n as int) + q2[0] == queue[0]
            &&& q2 == queue.update(0, queue[0].subrange(n as int, queue[0].len() as int))
            &&& r2.total == round.total + n
            &&& p == SendProgress::Done((round.total + n) as usize)
        }),
{
    let (q1, c) = take_model(queue, round);
    let (q2, r2, p) = complete_model(q1, round, c->0, WriteOutcome::Written(n));
    assert(queue[0].subrange(0, n as int) + q2[0] =~= queue[0]);
    assert(q2 =~= queue.update(0, queue[0].subrange(n as int, queue[0].len() as int)));
}

/// A write that would block loses nothing: the frame goes back to the front
/// of the queue, and the queue is as before the step.
pub proof fn lemma_would_block_keeps_queue(queue: Seq<Seq<u8>>, round: RoundModel)
    requires
        round.remaining > 0,
        queue.len() > 0,
    ensures
        ({
            let (q1, c) = take_model(queue, round);
            let (q2, r2, p) = complete_model(q1, round, c->0, WriteOutcome::WouldBlock);
            &&& q2 == queue
            &&& r2 == round
            &&& p == SendProgress::Failed
        }),
{
    let (q1, c) = take_model(queue, round);
    assert(seq![queue[0]] + queue.drop_first() =~= queue);
}

} // verus!
