use breaknet::registry::Registry;
use breaknet::registry::StartError;

#[test]
fn start_sessions_assigns_ids_in_order() {
    let mut reg: Registry<u32> = Registry::new();
    let ids = reg.start_sessions(&vec![9100, 9101]).unwrap();
    assert_eq!(ids, vec![0, 1]);
    assert_eq!(reg.port_id(9100), Some(0));
    assert_eq!(reg.port_id(9101), Some(1));
    assert!(reg.is_using(0));
    assert!(reg.is_using(1));
}

#[test]
fn start_sessions_capacity_overflow_leaves_nothing() {
    // a registry capped at one session refuses a two-mapping START whole
    let mut reg: Registry<u32> = Registry::new();
    reg.set_limit(1);
    let r = reg.start_sessions(&vec![9100, 9101]);
    assert_eq!(r, Err(StartError::CapacityOver));
    assert_eq!(reg.port_id(9100), None);
    assert_eq!(reg.port_id(9101), None);
    // a single mapping still fits
    assert_eq!(reg.start_sessions(&vec![9100]).unwrap(), vec![0]);
}

#[test]
fn start_sessions_refuses_owned_port() {
    let mut reg: Registry<u32> = Registry::new();
    reg.start_sessions(&vec![9100]).unwrap();
    assert_eq!(
        reg.start_sessions(&vec![9100]),
        Err(StartError::PortConflict)
    );
    assert_eq!(
        reg.start_sessions(&vec![9102, 9100]),
        Err(StartError::PortConflict)
    );
    // the refused batch left nothing behind
    assert_eq!(reg.port_id(9102), None);
}

#[test]
fn start_sessions_refuses_duplicate_ports() {
    let mut reg: Registry<u32> = Registry::new();
    assert_eq!(
        reg.start_sessions(&vec![9100, 9100]),
        Err(StartError::PortConflict)
    );
    assert_eq!(reg.port_id(9100), None);
}

#[test]
fn port_conflict_resolved_after_close() {
    // a second client may claim a port once the first owner is torn down
    let mut reg: Registry<u32> = Registry::new();
    let ids = reg.start_sessions(&vec![9100]).unwrap();
    assert_eq!(reg.start_sessions(&vec![9100]), Err(StartError::PortConflict));
    let (port, _) = reg.close_single(ids[0] as usize).unwrap();
    assert_eq!(port, 9100);
    let ids2 = reg.start_sessions(&vec![9100]).unwrap();
    // the freed session id is reused as well
    assert_eq!(ids2, vec![0]);
}

#[test]
fn close_single_returns_pending_sockets_and_unmaps() {
    let mut reg: Registry<u32> = Registry::new();
    let ids = reg.start_sessions(&vec![9100]).unwrap();
    let id = ids[0] as usize;
    reg.push_conn(id, 71, 100).unwrap();
    reg.push_conn(id, 72, 100).unwrap();
    let (port, mut conns) = reg.close_single(id).unwrap();
    assert_eq!(port, 9100);
    conns.sort();
    assert_eq!(conns, vec![71, 72]);
    assert_eq!(reg.port_id(9100), None);
    assert!(!reg.is_using(id));
    assert!(reg.close_single(id).is_none());
}

#[test]
fn push_and_take_pair_through_the_registry() {
    let mut reg: Registry<u32> = Registry::new();
    let ids = reg.start_sessions(&vec![9100]).unwrap();
    let id = ids[0] as usize;
    let (slot, evicted) = reg.push_conn(id, 42, 100).unwrap();
    assert_eq!(slot, 0);
    assert!(evicted.is_none());
    assert_eq!(reg.take_conn(id, slot), Some(42));
    assert_eq!(reg.take_conn(id, slot), None);
    // unknown session or out-of-range slot pair with nothing
    assert_eq!(reg.take_conn(7, 0), None);
    assert_eq!(reg.take_conn(id, 8), None);
}
