use hydrogen::connection::{
    classify_readiness, interest_needs_removal, is_read_event, Connection, IoEvent, IoState,
    StreamOutcome, EPOLL_ERR, EPOLL_ET, EPOLL_HUP, EPOLL_IN, EPOLL_ONESHOT, EPOLL_OUT, EPOLL_PRI,
    EPOLL_RDHUP, EVENTS_R, EVENTS_RW,
};

#[test]
fn epoll_constants_match_libc() {
    assert_eq!(EPOLL_IN, libc::EPOLLIN as u32);
    assert_eq!(EPOLL_PRI, libc::EPOLLPRI as u32);
    assert_eq!(EPOLL_OUT, libc::EPOLLOUT as u32);
    assert_eq!(EPOLL_ERR, libc::EPOLLERR as u32);
    assert_eq!(EPOLL_HUP, libc::EPOLLHUP as u32);
    assert_eq!(EPOLL_RDHUP, libc::EPOLLRDHUP as u32);
    assert_eq!(EPOLL_ONESHOT, libc::EPOLLONESHOT as u32);
    assert_eq!(EPOLL_ET, libc::EPOLLET as u32);
    assert_eq!(
        EVENTS_R,
        (libc::EPOLLIN | libc::EPOLLRDHUP | libc::EPOLLPRI | libc::EPOLLET | libc::EPOLLONESHOT) as u32
    );
    assert_eq!(
        EVENTS_RW,
        (libc::EPOLLIN | libc::EPOLLOUT | libc::EPOLLRDHUP | libc::EPOLLPRI | libc::EPOLLET | libc::EPOLLONESHOT)
            as u32
    );
}

fn conn(event: IoEvent, state: IoState) -> Connection {
    Connection { fd: 4, event, state }
}

#[test]
fn send_would_block_requests_write_interest() {
    let mut c = conn(IoEvent::Waiting, IoState::Waiting);
    c.on_send_result(StreamOutcome::WouldBlock);
    assert_eq!(c.state, IoState::ReArmRW);
    assert_eq!(c.rearm_events(), EVENTS_RW);
}

#[test]
fn send_keeps_closing_connection() {
    for outcome in [StreamOutcome::Done, StreamOutcome::WouldBlock, StreamOutcome::Failed] {
        let mut c = conn(IoEvent::ShouldClose, IoState::InUse);
        c.on_send_result(outcome);
        assert_eq!(c, conn(IoEvent::ShouldClose, IoState::InUse));
    }
}

#[test]
fn send_failure_marks_closing() {
    let mut c = conn(IoEvent::DataAvailable, IoState::Waiting);
    c.on_send_result(StreamOutcome::Failed);
    assert!(c.should_close());
    assert_eq!(c.state, IoState::Waiting);
}

#[test]
fn writable_success_transitions() {
    let mut c = conn(IoEvent::DataAvailableAndWritable, IoState::InUse);
    c.on_writable_result(StreamOutcome::Done);
    assert_eq!(c, conn(IoEvent::DataAvailable, IoState::InUse));

    let mut c = conn(IoEvent::Writable, IoState::InUse);
    c.on_writable_result(StreamOutcome::Done);
    assert_eq!(c, conn(IoEvent::Waiting, IoState::ReArmR));

    let mut c = conn(IoEvent::Writable, IoState::InUse);
    c.on_writable_result(StreamOutcome::WouldBlock);
    assert_eq!(c, conn(IoEvent::Writable, IoState::ReArmRW));

    let mut c = conn(IoEvent::Writable, IoState::InUse);
    c.on_writable_result(StreamOutcome::Failed);
    assert_eq!(c, conn(IoEvent::ShouldClose, IoState::InUse));
}

#[test]
fn recv_transitions() {
    let mut c = conn(IoEvent::DataAvailable, IoState::InUse);
    assert!(c.on_recv_result(StreamOutcome::Done));
    assert_eq!(c, conn(IoEvent::Waiting, IoState::ReArmR));

    let mut c = conn(IoEvent::DataAvailable, IoState::ReArmRW);
    assert!(!c.on_recv_result(StreamOutcome::WouldBlock));
    assert_eq!(c, conn(IoEvent::Waiting, IoState::ReArmRW));
    assert_eq!(c.rearm_events(), EVENTS_RW);

    let mut c = conn(IoEvent::DataAvailable, IoState::InUse);
    assert!(!c.on_recv_result(StreamOutcome::Failed));
    assert_eq!(c, conn(IoEvent::ShouldClose, IoState::InUse));
}

#[test]
fn ctl_error_marks_closing() {
    let mut c = Connection::new(7);
    assert_eq!(c, conn_fd(7, IoEvent::Waiting, IoState::New));
    c.on_epoll_ctl_error();
    assert!(c.should_close());
    assert_eq!(c.as_raw_fd(), 7);
    assert_eq!(c.rearm_events(), EVENTS_R);
}

fn conn_fd(fd: i32, event: IoEvent, state: IoState) -> Connection {
    Connection { fd, event, state }
}

#[test]
fn readiness_classification() {
    assert_eq!(classify_readiness(EPOLL_IN), Some(IoEvent::ReadAvailable));
    assert_eq!(classify_readiness(EPOLL_OUT), Some(IoEvent::WriteAvailable));
    assert_eq!(classify_readiness(EPOLL_IN | EPOLL_OUT | EPOLL_ET), Some(IoEvent::ReadWriteAvailable));
    assert_eq!(classify_readiness(EPOLL_HUP | EPOLL_ERR), None);
    assert!(is_read_event(EPOLL_IN | EPOLL_RDHUP));
    assert!(!is_read_event(EPOLL_HUP));
    assert!(interest_needs_removal(EPOLL_IN | EPOLL_RDHUP));
    assert!(interest_needs_removal(EPOLL_ERR));
    assert!(interest_needs_removal(EPOLL_HUP));
    assert!(!interest_needs_removal(EPOLL_IN | EPOLL_OUT));
}
