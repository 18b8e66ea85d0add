use breaknet::client::client_step;
use breaknet::client::ClientAction;
use breaknet::client::SessionTable;
use breaknet::config::Iomap;
use breaknet::consts::IDLE;
use breaknet::consts::KILL;
use breaknet::handshake::server_step;
use breaknet::handshake::ServerAction;
use breaknet::consts::NEWCONN;
use breaknet::consts::NEWSOCKET;

fn mappings() -> Vec<Iomap> {
    vec![
        Iomap { inner: "127.0.0.1:7000".to_string(), outer: 9100 },
        Iomap { inner: "127.0.0.1:7001".to_string(), outer: 9101 },
    ]
}

#[test]
fn table_maps_ids_to_inner_addresses() {
    let t = SessionTable::new(vec![3, 9], &mappings());
    assert_eq!(t.lookup(3), Some("127.0.0.1:7000".to_string()));
    assert_eq!(t.lookup(9), Some("127.0.0.1:7001".to_string()));
    assert_eq!(t.lookup(4), None);
}

#[test]
fn newsocket_frame_is_echoed_as_newconn() {
    let t = SessionTable::new(vec![258], &mappings()[..1].to_vec());
    match client_step(&t, NEWSOCKET, 1, 2, 5) {
        ClientAction::Dial { inner, frame } => {
            assert_eq!(inner, "127.0.0.1:7000");
            // the data connection claims exactly the announced (id, slot)
            assert_eq!(frame, vec![NEWCONN, 1, 2, 5]);
        },
        _ => panic!("expected a dial"),
    }
}

#[test]
fn newsocket_for_unknown_session_is_ignored() {
    let t = SessionTable::new(vec![258], &mappings()[..1].to_vec());
    assert!(matches!(client_step(&t, NEWSOCKET, 0, 7, 0), ClientAction::Ignore));
}

#[test]
fn idle_resets_the_watchdog() {
    let t = SessionTable::new(vec![], &vec![]);
    assert!(matches!(client_step(&t, IDLE, 0, 0, 0), ClientAction::ResetWatchdog));
}

#[test]
fn kill_closes_the_channel() {
    let t = SessionTable::new(vec![], &vec![]);
    assert!(matches!(client_step(&t, KILL, 0, 0, 0), ClientAction::Close));
    assert_eq!(server_step(KILL), ServerAction::Close);
}

#[test]
fn unknown_opcodes_are_ignored() {
    let t = SessionTable::new(vec![], &vec![]);
    assert!(matches!(client_step(&t, 0, 0, 0, 0), ClientAction::Ignore));
    assert!(matches!(client_step(&t, 12, 0, 0, 0), ClientAction::Ignore));
}

#[test]
fn server_echoes_idle_only() {
    assert_eq!(server_step(IDLE), ServerAction::EchoIdle);
    assert_eq!(server_step(0), ServerAction::Ignore);
    assert_eq!(server_step(NEWSOCKET), ServerAction::Ignore);
}
