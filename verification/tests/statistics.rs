use hydrogen::stats::{is_stats_request, GeneralData, Ram, RamData, Stats};

#[test]
fn general_data_counters() {
    let mut d = GeneralData::new();
    d.conn_recv();
    d.conn_recv();
    d.conn_lost();
    assert_eq!(d.num_clients, 1);
    d.msg_recv();
    d.bytes_recv(100);
    d.msg_sent();
    d.bytes_sent(7);
    assert_eq!((d.msg_recv, d.bytes_recv, d.msg_sent, d.bytes_sent), (1, 100, 1, 7));
}

#[test]
fn conn_lost_at_zero_stays_zero() {
    let mut d = GeneralData::new();
    d.conn_lost();
    assert_eq!(d, GeneralData::new());
    let mut s = Stats::new();
    s.conn_lost();
    assert_eq!(s, Stats::new());
}

#[test]
fn conn_recv_then_lost_restores() {
    let mut d = GeneralData::new();
    d.bytes_sent(3);
    let before = d;
    d.conn_recv();
    d.conn_lost();
    assert_eq!(d, before);
}

#[test]
fn record_received_counts_messages_and_bytes() {
    let mut d = GeneralData::new();
    d.record_received(&vec![b"abc".to_vec(), vec![], b"hello".to_vec()]);
    assert_eq!(d.msg_recv, 3);
    assert_eq!(d.bytes_recv, 8);
    d.record_sent(4);
    assert_eq!((d.msg_sent, d.bytes_sent), (1, 4));
}

#[test]
fn stats_counters() {
    let mut s = Stats::new();
    s.conn_recv();
    s.fd_opened();
    s.fd_opened();
    s.fd_closed();
    assert_eq!(s, Stats { up_time: 0, num_connections: 1, fds_opened: 2, fds_closed: 1 });
    s.conn_lost();
    assert_eq!(s.num_connections, 0);
}

#[test]
fn ram_starts_zero() {
    assert_eq!(RamData::new(), RamData { bytes_used: 0, bytes_available: 0 });
    let r = Ram::new();
    assert_eq!(r.kernel, RamData::new());
    assert_eq!(r.user_space, RamData::new());
}

#[test]
fn stats_request_detection() {
    assert!(is_stats_request(&[0x0D, 0, 0, 0x80, 0x3F]));
    assert!(!is_stats_request(&[0x0D, 0, 0, 0x80]));
    assert!(!is_stats_request(&[0x0E, 0, 0, 0x80, 0x3F]));
    assert!(!is_stats_request(&[]));
}
