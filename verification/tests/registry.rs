use hydrogen::connection::{IoEvent, EPOLL_HUP, EPOLL_IN, EPOLL_OUT};
use hydrogen::registry::{
    find_connection_from_fd, insert_new_connections, remove_stale_connections, update_io_events,
    ConnectionSlab, IoPair, ReadyEvent,
};

fn slab_of(fds: &[i32]) -> ConnectionSlab {
    let mut s = ConnectionSlab::with_capacity(2);
    for fd in fds {
        s.insert(*fd);
    }
    s
}

fn contents(s: &ConnectionSlab) -> Vec<i32> {
    (0..s.len()).map(|i| s.get(i)).collect()
}

#[test]
fn slab_insert_and_get() {
    let s = slab_of(&[10, 11, 12]);
    assert_eq!(contents(&s), vec![10, 11, 12]);
}

#[test]
fn slab_remove_moves_last_into_place() {
    let mut s = slab_of(&[10, 11, 12, 13]);
    assert_eq!(s.remove(1), 11);
    assert_eq!(contents(&s), vec![10, 13, 12]);
    assert_eq!(s.remove(2), 12);
    assert_eq!(contents(&s), vec![10, 13]);
}

#[test]
fn find_connection_first_match() {
    let s = slab_of(&[5, 6, 5]);
    assert_eq!(find_connection_from_fd(5, &s), Ok(0));
    assert_eq!(find_connection_from_fd(6, &s), Ok(1));
    assert_eq!(find_connection_from_fd(9, &s), Err(()));
}

#[test]
fn insert_new_connections_order() {
    let mut new = slab_of(&[1, 2, 3, 4]);
    let mut main = slab_of(&[9]);
    let moved = insert_new_connections(&mut new, &mut main);
    assert_eq!(moved, vec![1, 4, 3, 2]);
    assert_eq!(contents(&main), vec![9, 1, 4, 3, 2]);
    assert_eq!(new.len(), 0);
}

#[test]
fn remove_stale_connections_removes_all_stale() {
    let mut s = slab_of(&[1, 2, 3, 4, 5]);
    let mut removed = remove_stale_connections(&mut s, &[2, 5, 1]);
    removed.sort();
    assert_eq!(removed, vec![1, 2, 5]);
    let mut left = contents(&s);
    left.sort();
    assert_eq!(left, vec![3, 4]);
}

#[test]
fn remove_stale_connections_order() {
    let mut s = slab_of(&[1, 2, 3, 4, 5]);
    assert_eq!(remove_stale_connections(&mut s, &[2, 5, 1]), vec![1, 5, 2]);
    assert_eq!(contents(&s), vec![4, 3]);
    let mut s = slab_of(&[1, 2, 3, 4, 5]);
    assert_eq!(remove_stale_connections(&mut s, &[2, 5]), vec![2, 5]);
    assert_eq!(contents(&s), vec![1, 4, 3]);
}

#[test]
fn remove_stale_connections_none_stale() {
    let mut s = slab_of(&[1, 2]);
    assert!(remove_stale_connections(&mut s, &[7]).is_empty());
    assert_eq!(contents(&s), vec![1, 2]);
}

#[test]
fn update_io_events_classifies() {
    let s = slab_of(&[3, 4, 5]);
    let events = [
        ReadyEvent { events: EPOLL_IN, data: 3 },
        ReadyEvent { events: EPOLL_HUP, data: 4 },
        ReadyEvent { events: EPOLL_IN | EPOLL_OUT, data: 5 },
        ReadyEvent { events: EPOLL_IN, data: 99 },
    ];
    let (aborted, queue) = update_io_events(&s, &events);
    assert_eq!(aborted, vec![4]);
    assert_eq!(
        queue,
        vec![
            IoPair { event: IoEvent::ReadAvailable, fd: 3 },
            IoPair { event: IoEvent::ReadWriteAvailable, fd: 5 },
        ]
    );
}
