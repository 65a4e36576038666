//! The receive side of a framed stream: a decoder that takes the bytes read
//! from a socket, chunk by chunk, and collects the payloads of all the frames
//! they complete.
//!
//! The decoder looks for the start byte, then reads the two length bytes,
//! then the payload, then checks the end byte. Every byte of every chunk is
//! taken into account, in order: a chunk may hold the tail of one frame, any
//! number of whole frames and the head of the next, and where the chunks are
//! cut makes no difference. A frame with a recorded length of zero goes
//! straight from its length bytes to its end byte. A wrong end byte drops
//! the frame, and that byte is looked at again as a possible start byte.
use vstd::prelude::*;
use crate::frame::{FrameState, START, END, MAX_PAYLOAD_LEN, decode_len, encode_frame, frame_header, lemma_header_roundtrip};

verus! {

/// The mathematical state of a decoder.
pub struct DecoderModel {
    /// Where the decoder stands inside the current frame.
    pub state: FrameState,
    /// The bytes of the current frame read so far (header, then payload).
    pub buffer: Seq<u8>,
    /// Payloads of completed frames, oldest first.
    pub rx_queue: Seq<Seq<u8>>,
}

/// The payload length recorded in the header held in `buffer`.
pub open spec fn buffered_len(buffer: Seq<u8>) -> int {
    decode_len(buffer[1], buffer[2])
}

/// The byte sequences held in a vector of byte vectors.
pub open spec fn payloads(v: &Vec<Vec<u8>>) -> Seq<Seq<u8>> {
    v@.map_values(|b: Vec<u8>| b@)
}

/// The well-formed decoder states.
pub open spec fn model_wf(m: DecoderModel) -> bool {
    match m.state {
        FrameState::Start => m.buffer.len() == 0,
        FrameState::PayloadLen => 1 <= m.buffer.len() <= 2,
        FrameState::Payload => m.buffer.len() >= 3 && m.buffer.len() < buffered_len(m.buffer) + 3,
        FrameState::End => m.buffer.len() >= 3 && m.buffer.len() == buffered_len(m.buffer) + 3,
    }
}

/// A decoder that has read nothing of a frame.
pub open spec fn fresh_model(rx_queue: Seq<Seq<u8>>) -> DecoderModel {
    DecoderModel { state: FrameState::Start, buffer: Seq::empty(), rx_queue }
}

/// Looking for a frame: the start byte begins one, any other byte is
/// skipped.
pub open spec fn start_on(b: u8, rx_queue: Seq<Seq<u8>>) -> DecoderModel {
    if b == START {
        DecoderModel { state: FrameState::PayloadLen, buffer: seq![START], rx_queue }
    } else {
        fresh_model(rx_queue)
    }
}

/// The decoder after the byte `b`.
pub open spec fn step_byte(m: DecoderModel, b: u8) -> DecoderModel {
    match m.state {
        FrameState::Start => start_on(b, m.rx_queue),
        FrameState::PayloadLen => {
            let buffer = m.buffer.push(b);
            DecoderModel {
                state: if buffer.len() < 3 {
                    FrameState::PayloadLen
                } else if buffered_len(buffer) == 0 {
                    FrameState::End
                } else {
                    FrameState::Payload
                },
                buffer,
                rx_queue: m.rx_queue,
            }
        },
        FrameState::Payload => {
            let buffer = m.buffer.push(b);
            DecoderModel {
                state: if buffer.len() == buffered_len(buffer) + 3 {
                    FrameState::End
                } else {
                    FrameState::Payload
                },
                buffer,
                rx_queue: m.rx_queue,
            }
        },
        FrameState::End => if b == END {
            fresh_model(m.rx_queue.push(m.buffer.subrange(3, m.buffer.len() as int)))
        } else {
            start_on(b, m.rx_queue)
        },
    }
}

/// The decoder after the bytes of `data`, in order.
pub open spec fn feed_model(m: DecoderModel, data: Seq<u8>) -> DecoderModel
    decreases data.len(),
{
    if data.len() == 0 {
        m
    } else {
        step_byte(feed_model(m, data.drop_last()), data.last())
    }
}

/// The decoder after the chunks of `chunks`, one after the other.
pub open spec fn feed_chunks(m: DecoderModel, chunks: Seq<Seq<u8>>) -> DecoderModel
    decreases chunks.len(),
{
    if chunks.len() == 0 {
        m
    } else {
        feed_model(feed_chunks(m, chunks.drop_last()), chunks.last())
    }
}

/// The bytes of `chunks`, one chunk after the other.
pub open spec fn concat_chunks(chunks: Seq<Seq<u8>>) -> Seq<u8>
    decreases chunks.len(),
{
    if chunks.len() == 0 {
        Seq::empty()
    } else {
        concat_chunks(chunks.drop_last()) + chunks.last()
    }
}

/// The frames of `payloads`, back to back.
pub open spec fn encode_frames(payloads: Seq<Seq<u8>>) -> Seq<u8>
    decreases payloads.len(),
{
    if payloads.len() == 0 {
        Seq::empty()
    } else {
        encode_frames(payloads.drop_last()) + encode_frame(payloads.last())
    }
}

proof fn lemma_step_wf(m: DecoderModel, b: u8)
    requires
        model_wf(m),
    ensures
        model_wf(step_byte(m, b)),
{
    let buffer = m.buffer.push(b);
    if m.buffer.len() >= 3 {
        assert(buffer[1] == m.buffer[1] && buffer[2] == m.buffer[2]);
    }
    if m.state == FrameState::Start || m.state == FrameState::End {
        assert(seq![START].len() == 1);
    }
}

/// The receive side of a framed stream.
#[derive(Clone)]
pub struct FrameDecoder {
    state: FrameState,
    buffer: Vec<u8>,
    rx_queue: Vec<Vec<u8>>,
}

impl View for FrameDecoder {
    type V = DecoderModel;

    closed spec fn view(&self) -> DecoderModel {
        DecoderModel { state: self.state, buffer: self.buffer@, rx_queue: payloads(&self.rx_queue) }
    }
}

impl FrameDecoder {
    /// Well-formedness: the frame bytes gathered agree with the state.
    pub open spec fn wf(&self) -> bool {
        model_wf(self@)
    }

    /// A decoder looking for the start of a frame, with no payload waiting.
    pub fn new() -> (d: FrameDecoder)
        ensures
            d.wf(),
            d@ == fresh_model(Seq::empty()),
    {
        let d = FrameDecoder { state: FrameState::Start, buffer: Vec::new(), rx_queue: Vec::new() };
        assert(payloads(&d.rx_queue) =~= Seq::<Seq<u8>>::empty());
        d
    }

    /// Where the decoder stands inside the current frame.
    pub fn state(&self) -> (s: FrameState)
        ensures
            s == self@.state,
    {
        self.state
    }

    /// Removes and returns the payloads of all completed frames, oldest first.
    pub fn drain_rx_queue(&mut self) -> (q: Vec<Vec<u8>>)
        ensures
            payloads(&q) == old(self)@.rx_queue,
            final(self)@ == (DecoderModel { rx_queue: Seq::empty(), ..old(self)@ }),
    {
        let mut q: Vec<Vec<u8>> = Vec::new();
        std::mem::swap(&mut q, &mut self.rx_queue);
        assert(payloads(&self.rx_queue) =~= Seq::<Seq<u8>>::empty());
        q
    }

    /// The payload length recorded in the gathered header.
    fn payload_len(&self) -> (n: usize)
        requires
            self.buffer@.len() >= 3,
        ensures
            n == buffered_len(self.buffer@),
    {
        let hi = self.buffer[1] as usize;
        let lo = self.buffer[2] as usize;
        hi * 0x100 + lo
    }

    /// Looking for a frame: takes `b` as its first byte when it is the start
    /// byte.
    fn read_for_frame_start(&mut self, b: u8)
        requires
            old(self).state == FrameState::Start,
            old(self).buffer@.len() == 0,
        ensures
            final(self)@ == start_on(b, old(self)@.rx_queue),
    {
        if b == START {
            self.buffer.push(START);
            self.state = FrameState::PayloadLen;
            assert(self.buffer@ =~= seq![START]);
        }
        assert(self.buffer@ =~= start_on(b, old(self)@.rx_queue).buffer);
    }

    /// Takes `b` as a length byte.
    fn read_payload_len(&mut self, b: u8)
        requires
            old(self).state == FrameState::PayloadLen,
            1 <= old(self).buffer@.len() <= 2,
        ensures
            final(self)@ == step_byte(old(self)@, b),
    {
        self.buffer.push(b);
        if self.buffer.len() == 3 {
            if self.payload_len() == 0 {
                self.state = FrameState::End;
            } else {
                self.state = FrameState::Payload;
            }
        }
    }

    /// Takes `b` as a payload byte.
    fn read_payload(&mut self, b: u8)
        requires
            old(self).state == FrameState::Payload,
            old(self).buffer@.len() >= 3,
            old(self).buffer@.len() < buffered_len(old(self).buffer@) + 3,
        ensures
            final(self)@ == step_byte(old(self)@, b),
    {
        self.buffer.push(b);
        assert(self.buffer@[1] == old(self).buffer@[1] && self.buffer@[2] == old(self).buffer@[2]);
        if self.buffer.len() == self.payload_len() + 3 {
            self.state = FrameState::End;
        }
    }

    /// Checks `b` as the end byte: a correct one completes the frame and its
    /// payload joins the receive queue; a wrong one drops the frame and is
    /// looked at as a possible start byte.
    fn read_for_frame_end(&mut self, b: u8)
        requires
            old(self).state == FrameState::End,
            old(self).buffer@.len() >= 3,
        ensures
            final(self)@ == step_byte(old(self)@, b),
    {
        if b == END {
            let n = self.buffer.len();
            let mut payload: Vec<u8> = Vec::new();
            let mut x: usize = 3;
            while x < n
                invariant
                    3 <= x <= n,
                    n == self.buffer@.len(),
                    payload@ == self.buffer@.subrange(3, x as int),
                decreases n - x,
            {
                payload.push(self.buffer[x]);
                assert(self.buffer@.subrange(3, x + 1) == self.buffer@.subrange(3, x as int).push(self.buffer@[x as int]));
                x = x + 1;
            }
            let ghost before = payloads(&self.rx_queue);
            self.rx_queue.push(payload);
            assert(payloads(&self.rx_queue) =~= before.push(old(self).buffer@.subrange(3, n as int)));
            self.state = FrameState::Start;
            self.buffer = Vec::new();
            assert(self.buffer@ =~= Seq::<u8>::empty());
        } else {
            self.state = FrameState::Start;
            self.buffer = Vec::new();
            self.read_for_frame_start(b);
        }
    }

    /// Takes the byte `b`.
    fn step(&mut self, b: u8)
        requires
            old(self).wf(),
        ensures
            final(self).wf(),
            final(self)@ == step_byte(old(self)@, b),
    {
        proof {
            lemma_step_wf(self@, b);
        }
        match self.state {
            FrameState::Start => self.read_for_frame_start(b),
            FrameState::PayloadLen => self.read_payload_len(b),
            FrameState::Payload => self.read_payload(b),
            FrameState::End => self.read_for_frame_end(b),
        }
    }

    /// Takes the bytes of one read, in order; the payload of every frame they
    /// complete joins the receive queue.
    pub fn feed(&mut self, data: &[u8])
        requires
            old(self).wf(),
        ensures
            final(self).wf(),
            final(self)@ == feed_model(old(self)@, data@),
    {
        let ghost m0 = self@;
        let mut i: usize = 0;
        assert(data@.subrange(0, 0) =~= Seq::<u8>::empty());
        while i < data.len()
            invariant
                0 <= i <= data@.len(),
                self.wf(),
                self@ == feed_model(m0, data@.subrange(0, i as int)),
            decreases data@.len() - i,
        {
            assert(data@.subrange(0, i + 1).drop_last() =~= data@.subrange(0, i as int));
            self.step(data[i]);
            i = i + 1;
        }
        assert(data@.subrange(0, data@.len() as int) =~= data@);
    }
}

} // verus!

verus! {

/// Taking two pieces of data one after the other leaves the decoder where
/// taking them joined leaves it: how the bytes are cut into reads makes no
/// difference.
pub proof fn lemma_feed_concat(m: DecoderModel, a: Seq<u8>, b: Seq<u8>)
    ensures
        feed_model(m, a + b) == feed_model(feed_model(m, a), b),
    decreases b.len(),
{
    if b.len() == 0 {
        assert(a + b =~= a);
    } else {
        assert((a + b).drop_last() =~= a + b.drop_last());
        assert((a + b).last() == b.last());
        lemma_feed_concat(m, a, b.drop_last());
    }
}

/// Taking chunks one after the other leaves the decoder where taking all
/// their bytes at once leaves it.
pub proof fn lemma_feed_chunks(m: DecoderModel, chunks: Seq<Seq<u8>>)
    ensures
        feed_chunks(m, chunks) == feed_model(m, concat_chunks(chunks)),
    decreases chunks.len(),
{
    if chunks.len() > 0 {
        lemma_feed_chunks(m, chunks.drop_last());
        lemma_feed_concat(m, concat_chunks(chunks.drop_last()), chunks.last());
    }
}

/// A decoder looking for a frame skips bytes that hold no start byte.
pub proof fn lemma_skip_noise(rx_queue: Seq<Seq<u8>>, noise: Seq<u8>)
    requires
        forall|i: int| 0 <= i < noise.len() ==> noise[i] != START,
    ensures
        feed_model(fresh_model(rx_queue), noise) == fresh_model(rx_queue),
    decreases noise.len(),
{
    if noise.len() > 0 {
        lemma_skip_noise(rx_queue, noise.drop_last());
        assert(noise.last() != START);
    }
}

/// The decoder that has read the first `k` bytes of the frame around
/// `payload`, for `k` short of the whole frame.
pub open spec fn partial_model(rx_queue: Seq<Seq<u8>>, payload: Seq<u8>, k: int) -> DecoderModel {
    if k == 0 {
        fresh_model(rx_queue)
    } else {
        DecoderModel {
            state: if k < 3 {
                FrameState::PayloadLen
            } else if k < payload.len() + 3 {
                FrameState::Payload
            } else {
                FrameState::End
            },
            buffer: encode_frame(payload).subrange(0, k),
            rx_queue,
        }
    }
}

/// Reading the first `k` bytes of a frame, `k` short of the whole frame,
/// leaves the decoder at `partial_model`.
proof fn lemma_read_frame_prefix(rx_queue: Seq<Seq<u8>>, payload: Seq<u8>, k: int)
    requires
        payload.len() <= MAX_PAYLOAD_LEN,
        0 <= k <= payload.len() + 3,
    ensures
        feed_model(fresh_model(rx_queue), encode_frame(payload).subrange(0, k))
            == partial_model(rx_queue, payload, k),
    decreases k,
{
    let frame = encode_frame(payload);
    let p = payload.len() as int;
    let h = frame_header(payload.len());
    assert(frame.len() == p + 4);
    if k == 0 {
        assert(frame.subrange(0, 0) =~= Seq::<u8>::empty());
    } else {
        lemma_read_frame_prefix(rx_queue, payload, k - 1);
        assert(frame.subrange(0, k).drop_last() =~= frame.subrange(0, k - 1));
        let prev = partial_model(rx_queue, payload, k - 1);
        let b = frame[k - 1];
        assert(frame.subrange(0, k).last() == b);
        assert(frame[0] == h[0] && frame[1] == h[1] && frame[2] == h[2]);
        lemma_header_roundtrip(payload.len());
        if k == 1 {
            assert(b == START);
            assert(frame.subrange(0, 1) =~= seq![START]);
        } else {
            assert(prev.buffer.push(b) =~= frame.subrange(0, k));
            if k >= 3 {
                assert(frame.subrange(0, k)[1] == h[1] && frame.subrange(0, k)[2] == h[2]);
                assert(buffered_len(frame.subrange(0, k)) == p);
            }
        }
    }
}

/// Frame decoding undoes frame encoding: a decoder that has read nothing of
/// a frame, given a frame, queues exactly its payload and stands ready for
/// the next frame. This holds for every payload that the length bytes can
/// describe, the empty one included.
pub proof fn lemma_decode_encoded_frame(rx_queue: Seq<Seq<u8>>, payload: Seq<u8>)
    requires
        payload.len() <= MAX_PAYLOAD_LEN,
    ensures
        feed_model(fresh_model(rx_queue), encode_frame(payload)) == fresh_model(rx_queue.push(payload)),
{
    let frame = encode_frame(payload);
    let p = payload.len() as int;
    assert(frame.len() == p + 4);
    lemma_read_frame_prefix(rx_queue, payload, p + 3);
    assert(frame.drop_last() =~= frame.subrange(0, p + 3));
    assert(frame.last() == END);
    assert(frame.subrange(0, p + 3).subrange(3, p + 3) =~= payload);
}

/// Bytes without a start byte, then a frame: the noise is skipped and the
/// frame's payload is queued.
pub proof fn lemma_decode_after_noise(rx_queue: Seq<Seq<u8>>, noise: Seq<u8>, payload: Seq<u8>)
    requires
        forall|i: int| 0 <= i < noise.len() ==> noise[i] != START,
        payload.len() <= MAX_PAYLOAD_LEN,
    ensures
        feed_model(fresh_model(rx_queue), noise + encode_frame(payload)) == fresh_model(rx_queue.push(payload)),
{
    lemma_feed_concat(fresh_model(rx_queue), noise, encode_frame(payload));
    lemma_skip_noise(rx_queue, noise);
    lemma_decode_encoded_frame(rx_queue, payload);
}

/// Frames sent back to back are all delivered, in order: a decoder that has
/// read nothing of a frame, given the frames of some payloads, queues exactly
/// those payloads and stands ready for the next frame.
pub proof fn lemma_decode_frames(rx_queue: Seq<Seq<u8>>, payloads: Seq<Seq<u8>>)
    requires
        forall|i: int| 0 <= i < payloads.len() ==> (#[trigger] payloads[i]).len() <= MAX_PAYLOAD_LEN,
    ensures
        feed_model(fresh_model(rx_queue), encode_frames(payloads)) == fresh_model(rx_queue + payloads),
    decreases payloads.len(),
{
    if payloads.len() == 0 {
        assert(rx_queue + payloads =~= rx_queue);
    } else {
        let init = payloads.drop_last();
        assert forall|i: int| 0 <= i < init.len() implies (#[trigger] init[i]).len() <= MAX_PAYLOAD_LEN by {
            assert(init[i] == payloads[i]);
        }
        lemma_decode_frames(rx_queue, init);
        lemma_feed_concat(fresh_model(rx_queue), encode_frames(init), encode_frame(payloads.last()));
        assert(payloads.last() == payloads[payloads.len() - 1]);
        lemma_decode_encoded_frame(rx_queue + init, payloads.last());
        assert((rx_queue + init).push(payloads.last()) =~= rx_queue + payloads);
    }
}

/// Frames delivered in reads cut anywhere decode to their payloads: a
/// decoder that has read nothing of a frame, given in turn chunks whose bytes
/// are the frames of some payloads back to back, queues exactly those
/// payloads, in order, and stands ready for the next frame.
pub proof fn lemma_decode_chunks(rx_queue: Seq<Seq<u8>>, payloads: Seq<Seq<u8>>, chunks: Seq<Seq<u8>>)
    requires
        forall|i: int| 0 <= i < payloads.len() ==> (#[trigger] payloads[i]).len() <= MAX_PAYLOAD_LEN,
        concat_chunks(chunks) == encode_frames(payloads),
    ensures
        feed_chunks(fresh_model(rx_queue), chunks) == fresh_model(rx_queue + payloads),
{
    lemma_feed_chunks(fresh_model(rx_queue), chunks);
    lemma_decode_frames(rx_queue, payloads);
}

} // verus!
