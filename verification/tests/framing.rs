use hydrogen::decoder::FrameDecoder;
use hydrogen::frame::{from_slice, FrameState, END, MAX_PAYLOAD_LEN, START};
use hydrogen::nbstream::{Nbstream, Socket, STREAM_ID_LEN};

fn payloads_of(d: &mut FrameDecoder) -> Vec<Vec<u8>> {
    d.drain_rx_queue()
}

#[test]
fn from_slice_wraps_payload() {
    let frame = from_slice(&[0x61, 0x62, 0x63]);
    assert_eq!(frame, vec![START, 0x00, 0x03, 0x61, 0x62, 0x63, END]);
}

#[test]
fn from_slice_empty_payload() {
    assert_eq!(from_slice(&[]), vec![0x01, 0x00, 0x00, 0x17]);
}

#[test]
fn from_slice_length_high_byte_first() {
    let payload = vec![7u8; 0x0102];
    let frame = from_slice(&payload);
    assert_eq!(frame.len(), 0x0102 + 4);
    assert_eq!(&frame[..3], &[0x01, 0x01, 0x02]);
    assert_eq!(*frame.last().unwrap(), 0x17);
}

#[test]
fn from_slice_length_wraps_past_u16() {
    let payload = vec![0u8; 0x10001];
    let frame = from_slice(&payload);
    assert_eq!(&frame[..3], &[0x01, 0x00, 0x01]);
    assert_eq!(frame.len(), 0x10001 + 4);
}

#[test]
fn decode_single_frame_roundtrip() {
    let mut d = FrameDecoder::new();
    d.feed(&from_slice(b"ping"));
    assert_eq!(d.state(), FrameState::Start);
    assert_eq!(payloads_of(&mut d), vec![b"ping".to_vec()]);
}

#[test]
fn decode_largest_payload() {
    let payload = vec![0xAB; MAX_PAYLOAD_LEN];
    let mut d = FrameDecoder::new();
    d.feed(&from_slice(&payload));
    assert_eq!(payloads_of(&mut d), vec![payload]);
}

#[test]
fn decode_skips_noise_before_start() {
    let mut data = vec![0x00, 0x42, 0x17, 0xFF];
    data.extend(from_slice(b"hello"));
    let mut d = FrameDecoder::new();
    d.feed(&data);
    assert_eq!(payloads_of(&mut d), vec![b"hello".to_vec()]);
    assert_eq!(d.state(), FrameState::Start);
}

#[test]
fn decode_every_split_point() {
    let frame = from_slice(b"split me");
    for k in 0..=frame.len() {
        let mut d = FrameDecoder::new();
        d.feed(&frame[..k]);
        d.feed(&frame[k..]);
        assert_eq!(payloads_of(&mut d), vec![b"split me".to_vec()], "split at {}", k);
        assert_eq!(d.state(), FrameState::Start);
    }
}

#[test]
fn decode_byte_by_byte() {
    let frame = from_slice(b"abc");
    let mut d = FrameDecoder::new();
    let expected = [
        FrameState::PayloadLen,
        FrameState::PayloadLen,
        FrameState::Payload,
        FrameState::Payload,
        FrameState::Payload,
        FrameState::End,
        FrameState::Start,
    ];
    for (i, b) in frame.iter().enumerate() {
        d.feed(&[*b]);
        assert_eq!(d.state(), expected[i]);
    }
    assert_eq!(payloads_of(&mut d), vec![b"abc".to_vec()]);
}

#[test]
fn decode_two_frames_in_one_read() {
    let mut data = from_slice(b"one");
    data.extend(from_slice(b"two"));
    let mut d = FrameDecoder::new();
    d.feed(&data);
    assert_eq!(payloads_of(&mut d), vec![b"one".to_vec(), b"two".to_vec()]);
    assert_eq!(d.state(), FrameState::Start);
}

#[test]
fn decode_back_to_back_frames_cut_anywhere() {
    let mut data = from_slice(b"first");
    data.extend(from_slice(&[]));
    data.extend(from_slice(b"third one"));
    for i in 0..=data.len() {
        for j in i..=data.len() {
            let mut d = FrameDecoder::new();
            d.feed(&data[..i]);
            d.feed(&data[i..j]);
            d.feed(&data[j..]);
            assert_eq!(
                payloads_of(&mut d),
                vec![b"first".to_vec(), vec![], b"third one".to_vec()],
                "cut at {} and {}",
                i,
                j
            );
            assert_eq!(d.state(), FrameState::Start);
        }
    }
}

#[test]
fn decode_frames_in_small_reads() {
    let payloads: Vec<Vec<u8>> = (0..5u8).map(|i| vec![i; 100 * i as usize]).collect();
    let mut data = Vec::new();
    for p in &payloads {
        data.extend(from_slice(p));
    }
    let mut d = FrameDecoder::new();
    for chunk in data.chunks(7) {
        d.feed(chunk);
    }
    assert_eq!(payloads_of(&mut d), payloads);
}

#[test]
fn decode_wrong_end_byte_resets() {
    let mut frame = from_slice(b"xy");
    let last = frame.len() - 1;
    frame[last] = 0x00;
    let mut d = FrameDecoder::new();
    d.feed(&frame);
    assert!(payloads_of(&mut d).is_empty());
    assert_eq!(d.state(), FrameState::Start);
    d.feed(&from_slice(b"ok"));
    assert_eq!(payloads_of(&mut d), vec![b"ok".to_vec()]);
}

#[test]
fn decode_empty_payload() {
    let mut d = FrameDecoder::new();
    d.feed(&from_slice(&[]));
    assert_eq!(payloads_of(&mut d), vec![Vec::<u8>::new()]);
    assert_eq!(d.state(), FrameState::Start);
}

#[test]
fn decode_wrong_end_byte_that_starts_a_frame() {
    let mut data = vec![START, 0x00, 0x01, 0x41];
    data.extend(from_slice(b"z"));
    let mut d = FrameDecoder::new();
    d.feed(&data);
    assert_eq!(payloads_of(&mut d), vec![b"z".to_vec()]);
    assert_eq!(d.state(), FrameState::Start);
}

#[test]
fn frame_state_names() {
    assert_eq!(FrameState::Start.name(), "Start");
    assert_eq!(FrameState::PayloadLen.name(), "PayloadLen");
    assert_eq!(FrameState::Payload.name(), "Payload");
    assert_eq!(FrameState::End.name(), "End");
}

#[test]
fn nbstream_delivers_every_frame_of_a_read() {
    let mut s = Nbstream::new(Socket { fd: 3 });
    let mut data = from_slice(b"aa");
    data.extend(from_slice(b"bb"));
    s.absorb(&data);
    assert_eq!(s.drain_rx_queue(), vec![b"aa".to_vec(), b"bb".to_vec()]);
    assert_eq!(s.state(), FrameState::Start);
}

#[test]
fn nbstream_frame_across_reads() {
    let mut s = Nbstream::new(Socket { fd: 3 });
    let mut data = from_slice(b"abc");
    data.extend(from_slice(b"d"));
    s.absorb(&data[..5]);
    s.absorb(&data[5..6]);
    s.absorb(&data[6..]);
    assert_eq!(s.drain_rx_queue(), vec![b"abc".to_vec(), b"d".to_vec()]);
}

#[test]
fn nbstream_new_identity() {
    let s = Nbstream::new(Socket { fd: 9 });
    assert_eq!(s.as_raw_fd(), 9);
    let id = s.id();
    assert_eq!(id.chars().count(), STREAM_ID_LEN);
    assert!(id.chars().all(|c| c.is_ascii_alphanumeric()));
    assert_eq!(s.state(), FrameState::Start);
}
