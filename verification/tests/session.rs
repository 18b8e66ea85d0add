use breaknet::session::Session;

#[test]
fn push_fills_slots_in_ring_order() {
    let mut s: Session<u32> = Session::new(9100);
    for i in 0..8u32 {
        let (slot, evicted) = s.push(i, 100).unwrap();
        assert_eq!(slot, i as usize);
        assert!(evicted.is_none());
    }
}

#[test]
fn push_refuses_when_ring_is_fresh_and_full() {
    let mut s: Session<u32> = Session::new(9100);
    for i in 0..8u32 {
        s.push(i, 100).unwrap();
    }
    // all eight slots hold sockets younger than the expiry window
    assert!(s.push(99, 105).is_none());
    assert!(s.push(99, 110).is_none());
}

#[test]
fn push_evicts_only_expired_slots() {
    let mut s: Session<u32> = Session::new(9100);
    for i in 0..8u32 {
        s.push(i, 100).unwrap();
    }
    // eleven seconds later the oldest slot is expired and is replaced
    let (slot, evicted) = s.push(99, 111).unwrap();
    assert_eq!(slot, 0);
    assert_eq!(evicted, Some(0));
}

#[test]
fn take_returns_the_installed_socket_once() {
    let mut s: Session<u32> = Session::new(9100);
    let (slot, _) = s.push(42, 100).unwrap();
    // the next take of that slot pairs with exactly that socket
    assert_eq!(s.take(slot), Some(42));
    // a second claim of the same slot finds nothing
    assert_eq!(s.take(slot), None);
}

#[test]
fn take_out_of_range_is_none() {
    let mut s: Session<u32> = Session::new(9100);
    s.push(1, 100).unwrap();
    assert_eq!(s.take(8), None);
    assert_eq!(s.take(usize::MAX), None);
}

#[test]
fn taken_slot_is_free_for_the_next_arrival() {
    let mut s: Session<u32> = Session::new(9100);
    for i in 0..8u32 {
        s.push(i, 100).unwrap();
    }
    assert_eq!(s.take(3), Some(3));
    // the consumed slot is reused without waiting for expiry
    let (slot, evicted) = s.push(50, 101).unwrap();
    assert_eq!(slot, 3);
    assert!(evicted.is_none());
}

#[test]
fn close_returns_all_pending_sockets() {
    let mut s: Session<u32> = Session::new(9100);
    s.push(10, 100).unwrap();
    s.push(11, 100).unwrap();
    s.take(0).unwrap();
    let mut conns = s.close();
    conns.sort();
    assert_eq!(conns, vec![11]);
    assert!(!s.is_using());
    // a closed session rejects new pushes
    assert!(s.push(12, 100).is_none());
    // and every slot is empty
    for i in 0..8 {
        assert_eq!(s.take(i), None);
    }
}

#[test]
fn session_port_is_kept() {
    let s: Session<u32> = Session::new(9100);
    assert_eq!(s.port(), 9100);
    assert!(s.is_using());
}
