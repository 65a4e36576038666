use hydrogen::bstream::Bstream;
use hydrogen::ipc::{ConnectionLoop, IpcMessage};
use hydrogen::nbstream::{Nbstream, Socket};
use hydrogen::streamlist::{begin_epoll_event, finish_read, find_stream_index, remove_fd_from_list, take_stream_for_event, EventStep};
use hydrogen::connection::{EPOLL_HUP, EPOLL_IN};
use hydrogen::workers::{core_ids, machine_core_ids, machine_worker_count, workers_for_cpus, WorkerRing};

#[test]
fn ring_zero_workers_means_one() {
    let mut r = WorkerRing::new(0);
    assert_eq!(r.len(), 1);
    assert_eq!(r.pick(), 0);
    assert_eq!(r.pick(), 0);
}

#[test]
fn ring_round_robin() {
    let mut r = WorkerRing::new(3);
    let picks: Vec<usize> = (0..7).map(|_| r.pick()).collect();
    assert_eq!(picks, vec![0, 1, 2, 0, 1, 2, 0]);
    let mut r = WorkerRing::with_len(2);
    assert_eq!((r.pick(), r.pick(), r.pick()), (0, 1, 0));
}

#[test]
fn ring_kth_choice_is_k_mod_len() {
    for m in 1..6u8 {
        let mut r = WorkerRing::new(m);
        for k in 0..20usize {
            assert_eq!(r.pick(), k % (m as usize));
        }
    }
}

#[test]
fn pool_size_from_cpus() {
    assert_eq!(workers_for_cpus(3), None);
    assert_eq!(workers_for_cpus(4), Some(1));
    assert_eq!(workers_for_cpus(8), Some(5));
    assert_eq!(workers_for_cpus(16), Some(13));
    let machine = num_cpus::get();
    assert_eq!(machine_worker_count(), if machine < 4 { None } else { Some(machine - 3) });
}

#[test]
fn core_numbering() {
    assert_eq!(core_ids(3), vec![0, 1, 2]);
    let ids = core_ids(258);
    assert_eq!((ids[255], ids[256], ids[257]), (255, 0, 1));
    let m = machine_core_ids();
    assert_eq!(m.len(), num_cpus::get());
    assert_eq!(m[0], 0);
}

fn list_of(fds: &[i32]) -> Vec<Nbstream> {
    fds.iter().map(|fd| Nbstream::new(Socket { fd: *fd })).collect()
}

fn fds(list: &Vec<Nbstream>) -> Vec<i32> {
    list.iter().map(|s| s.as_raw_fd()).collect()
}

#[test]
fn stream_list_search_and_removal() {
    let mut list = list_of(&[4, 5, 6, 5]);
    assert_eq!(find_stream_index(&list, 5), Some(1));
    assert_eq!(find_stream_index(&list, 9), None);
    let taken = take_stream_for_event(&mut list, 5).unwrap();
    assert_eq!(taken.as_raw_fd(), 5);
    assert_eq!(fds(&list), vec![4, 6, 5]);
    assert!(take_stream_for_event(&mut list, 42).is_none());
    remove_fd_from_list(4, &mut list);
    assert_eq!(fds(&list), vec![6, 5]);
    remove_fd_from_list(4, &mut list);
    assert_eq!(fds(&list), vec![6, 5]);
}

#[test]
fn epoll_event_read_requeues_stream_at_end() {
    let mut list: Vec<Nbstream> = [4, 5, 6].iter().map(|fd| Nbstream::new(Socket { fd: *fd })).collect();
    let s = match begin_epoll_event(&mut list, EPOLL_IN, 5) {
        EventStep::Read(s) => s,
        _ => panic!("expected a read"),
    };
    assert_eq!(fds(&list), vec![4, 6]);
    assert_eq!(finish_read(&mut list, s, true), None);
    assert_eq!(fds(&list), vec![4, 6, 5]);
}

#[test]
fn epoll_event_failed_read_closes_stream() {
    let mut list: Vec<Nbstream> = [4, 5, 6].iter().map(|fd| Nbstream::new(Socket { fd: *fd })).collect();
    let s = match begin_epoll_event(&mut list, EPOLL_IN, 4) {
        EventStep::Read(s) => s,
        _ => panic!("expected a read"),
    };
    assert_eq!(finish_read(&mut list, s, false), Some(4));
    assert_eq!(fds(&list), vec![5, 6]);
}

#[test]
fn epoll_event_drop_and_unknown() {
    let mut list: Vec<Nbstream> = [4, 5, 6].iter().map(|fd| Nbstream::new(Socket { fd: *fd })).collect();
    match begin_epoll_event(&mut list, EPOLL_HUP, 6) {
        EventStep::Drop(s) => assert_eq!(s.as_raw_fd(), 6),
        _ => panic!("expected a drop"),
    }
    assert_eq!(fds(&list), vec![4, 5]);
    assert!(matches!(begin_epoll_event(&mut list, EPOLL_IN, 9), EventStep::NotFound));
    assert_eq!(fds(&list), vec![4, 5]);
}

#[test]
fn bstream_wraps() {
    let b = Bstream::new(vec![1u8, 2]);
    assert_eq!(b.into_inner(), vec![1, 2]);
}

#[test]
fn ipc_values() {
    assert_ne!(IpcMessage::Ping, IpcMessage::Pong);
    assert_eq!(ConnectionLoop, ConnectionLoop);
    assert_eq!(IpcMessage::Kill, IpcMessage::Kill.clone());
    assert_ne!(IpcMessage::Restart, IpcMessage::Kill);
}

#[test]
fn tagged_socket() {
    let mut s = hydrogen::socket::Socket::new(Nbstream::new(Socket { fd: 12 }));
    assert_eq!(s.raw_fd(), 12);
    let id = s.id();
    assert_eq!(s.clone().id(), id);
    s.stream_mut().absorb(&hydrogen::frame::from_slice(b"q"));
    assert_eq!(s.buffer(), vec![b"q".to_vec()]);
    assert!(s.buffer().is_empty());
}
