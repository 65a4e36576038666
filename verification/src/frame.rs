//! Wire framing of messages.
//!
//! A frame is the start byte, the payload length as two bytes (high byte
//! first), the payload itself and the end byte.
use vstd::prelude::*;

verus! {

/// Indicates start of frame
pub const START: u8 = 0x01;

/// Indicates end of frame
pub const END: u8 = 0x17;

/// The largest payload length that the two length bytes of a header hold.
pub const MAX_PAYLOAD_LEN: usize = 0xFFFF;

/// Where a frame decoder stands inside the frame it is reading.
#[derive(Debug, Clone, Copy, PartialEq, Eq, Structural)]
pub enum FrameState {
    /// Looking for the start byte.
    Start,
    /// Reading the two length bytes.
    PayloadLen,
    /// Reading the payload.
    Payload,
    /// Expecting the end byte.
    End,
}

/// The name under which a frame state is displayed.
pub open spec fn frame_state_name(s: FrameState) -> Seq<char> {
    match s {
        FrameState::Start => "Start"@,
        FrameState::PayloadLen => "PayloadLen"@,
        FrameState::Payload => "Payload"@,
        FrameState::End => "End"@,
    }
}

impl FrameState {
    /// The display name of this state ("Start", "PayloadLen", "Payload", "End").
    pub fn name(&self) -> (s: String)
        ensures
            s@ == frame_state_name(*self),
    {
        match self {
            FrameState::Start => "Start".to_owned(),
            FrameState::PayloadLen => "PayloadLen".to_owned(),
            FrameState::Payload => "Payload".to_owned(),
            FrameState::End => "End".to_owned(),
        }
    }
}

/// The payload length that a header records for a payload of `n` bytes: the
/// length is taken modulo 2^16.
pub open spec fn header_len(n: nat) -> int {
    n as int % 0x10000
}

/// The three header bytes of a frame around a payload of `n` bytes.
pub open spec fn frame_header(n: nat) -> Seq<u8> {
    seq![START, (header_len(n) / 0x100) as u8, (header_len(n) % 0x100) as u8]
}

/// The frame that carries `payload`.
pub open spec fn encode_frame(payload: Seq<u8>) -> Seq<u8> {
    frame_header(payload.len()) + payload + seq![END]
}

/// The payload length recorded in the two length bytes `hi`, `lo`.
pub open spec fn decode_len(hi: u8, lo: u8) -> int {
    hi as int * 0x100 + lo as int
}

/// Reading the length back from the header gives the payload length, for
/// every payload that the two length bytes can describe.
pub proof fn lemma_header_roundtrip(n: nat)
    requires
        n <= MAX_PAYLOAD_LEN,
    ensures
        decode_len(frame_header(n)[1], frame_header(n)[2]) == n,
{
    let l = header_len(n);
    assert(l == n);
    assert(0 <= l / 0x100 < 0x100);
    assert((l / 0x100) as u8 == l / 0x100);
    assert((l % 0x100) as u8 == l % 0x100);
}

/// Wraps `slice` into a frame: start byte, 16-bit length (high byte first),
/// payload, end byte. A payload longer than 0xFFFF bytes has its length
/// recorded modulo 2^16.
pub fn from_slice(slice: &[u8]) -> (buf: Vec<u8>)
    ensures
        buf@ == encode_frame(slice@),
{
    let n = slice.len();
    let len: u16 = (n % 0x10000) as u16;
    let hi: u8 = (len / 0x100) as u8;
    let lo: u8 = (len % 0x100) as u8;
    let mut buf: Vec<u8> = Vec::new();
    buf.push(START);
    buf.push(hi);
    buf.push(lo);
    assert(buf@ == frame_header(slice@.len()));
    let mut i: usize = 0;
    while i < n
        invariant
            n == slice@.len(),
            0 <= i <= n,
            buf@ == frame_header(slice@.len()) + slice@.subrange(0, i as int),
        decreases n - i,
    {
        buf.push(slice[i]);
        assert(slice@.subrange(0, i + 1) == slice@.subrange(0, i as int).push(slice@[i as int]));
        i = i + 1;
    }
    assert(slice@.subrange(0, n as int) == slice@);
    buf.push(END);
    buf
}

} // verus!
