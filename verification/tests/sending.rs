use hydrogen::frame::from_slice;
use hydrogen::nbstream::{Nbstream, Socket};
use hydrogen::txqueue::{SendAction, SendProgress, TxQueue, WriteOutcome};

fn take(q: &mut TxQueue, r: &hydrogen::txqueue::SendRound) -> Vec<u8> {
    match q.take_next(r) {
        SendAction::Write(c) => c,
        SendAction::Finished(_) => panic!("expected a write"),
    }
}

#[test]
fn send_single_frame_whole_write() {
    let mut q = TxQueue::new();
    let mut round = q.begin_send(b"ping");
    let chunk = take(&mut q, &round);
    assert_eq!(chunk, from_slice(b"ping"));
    let n = chunk.len();
    assert_eq!(q.complete_write(&mut round, chunk, WriteOutcome::Written(n)), SendProgress::Continue);
    match q.take_next(&round) {
        SendAction::Finished(total) => assert_eq!(total, 8),
        SendAction::Write(_) => panic!("expected the end of the round"),
    }
    assert_eq!(q.len(), 0);
}

#[test]
fn send_would_block_keeps_frame_then_next_send_flushes_it() {
    let mut q = TxQueue::new();
    let mut round = q.begin_send(b"data");
    let chunk = take(&mut q, &round);
    assert_eq!(q.len(), 0);
    assert_eq!(q.complete_write(&mut round, chunk, WriteOutcome::WouldBlock), SendProgress::Failed);
    assert_eq!(q.len(), 1);
    // The next send writes the kept frame first, then its own.
    let mut round2 = q.begin_send(b"more");
    let c = take(&mut q, &round2);
    assert_eq!(c, from_slice(b"data"));
    let n = c.len();
    assert_eq!(q.complete_write(&mut round2, c, WriteOutcome::Written(n)), SendProgress::Continue);
    let c = take(&mut q, &round2);
    assert_eq!(c, from_slice(b"more"));
    let n = c.len();
    assert_eq!(q.complete_write(&mut round2, c, WriteOutcome::Written(n)), SendProgress::Continue);
    match q.take_next(&round2) {
        SendAction::Finished(total) => assert_eq!(total, 16),
        SendAction::Write(_) => panic!("expected the end of the round"),
    }
    assert_eq!(q.len(), 0);
}

#[test]
fn send_failure_drops_frame() {
    let mut q = TxQueue::new();
    let mut round = q.begin_send(b"x");
    let chunk = take(&mut q, &round);
    assert_eq!(q.complete_write(&mut round, chunk, WriteOutcome::Failed), SendProgress::Failed);
    assert_eq!(q.len(), 0);
}

#[test]
fn send_partial_write_keeps_unwritten_bytes() {
    let mut q = TxQueue::new();
    let mut round = q.begin_send(&[0xAA, 0xBB]);
    let chunk = take(&mut q, &round);
    assert_eq!(chunk, vec![0x01, 0x00, 0x02, 0xAA, 0xBB, 0x17]);
    assert_eq!(q.complete_write(&mut round, chunk, WriteOutcome::Written(2)), SendProgress::Done(2));
    assert_eq!(round.total(), 2);
    assert_eq!(q.len(), 1);
    let mut round2 = q.begin_send(b"");
    let c = take(&mut q, &round2);
    assert_eq!(c, vec![0x02, 0xAA, 0xBB, 0x17]);
    let n = c.len();
    assert_eq!(q.complete_write(&mut round2, c, WriteOutcome::Written(n)), SendProgress::Continue);
    assert_eq!(take(&mut q, &round2), from_slice(b""));
}

#[test]
fn nbstream_send_round() {
    let mut s = Nbstream::new(Socket { fd: 5 });
    let mut round = s.begin_send(b"hi");
    let chunk = match s.next_send_step(&round) {
        SendAction::Write(c) => c,
        SendAction::Finished(_) => panic!("expected a write"),
    };
    assert_eq!(chunk, vec![0x01, 0x00, 0x02, b'h', b'i', 0x17]);
    let n = chunk.len();
    assert_eq!(s.complete_send_step(&mut round, chunk, WriteOutcome::Written(n)), SendProgress::Continue);
    match s.next_send_step(&round) {
        SendAction::Finished(total) => assert_eq!(total, 6),
        SendAction::Write(_) => panic!("expected the end"),
    }
}
