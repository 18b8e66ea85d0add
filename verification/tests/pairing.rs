//! One whole exchange at the value level: handshake, announcement,
//! demultiplexing, and pairing.

use breaknet::client::{client_step, ClientAction, SessionTable};
use breaknet::codec::{join_id, newsocket_frame, parse_session_ids};
use breaknet::config::{Client, Iomap, Server};
use breaknet::consts::{NEWCONN, SUCCESS};
use breaknet::handshake::{reply_bytes, server_handshake, HandshakeOutcome};
use breaknet::registry::Registry;

#[test]
fn announced_socket_is_paired_with_the_claiming_data_connection() {
    let mut reg: Registry<u32> = Registry::new();
    let cfg = Server { key: "k".to_string(), port: 9000, limit_port: None };
    let client_cfg = Client {
        key: "k".to_string(),
        server: "127.0.0.1:9000".to_string(),
        map: vec![Iomap { inner: "127.0.0.1:7000".to_string(), outer: 9100 }],
    };

    // the server accepts the START and replies SUCCESS plus the id bytes
    let out = server_handshake(&mut reg, &cfg, 64, &Some(client_cfg.clone()), true);
    assert!(matches!(out, HandshakeOutcome::Accept(_)));
    let reply = reply_bytes(&out).unwrap();
    assert_eq!(reply[0], SUCCESS);

    // the client reads the ids back and builds its session table
    let ids = parse_session_ids(&reply[1..].to_vec());
    assert_eq!(ids.len(), client_cfg.map.len());
    let table = SessionTable::new(ids.clone(), &client_cfg.map);

    // an external user connects: socket 77 takes a slot of the session
    let (slot, evicted) = reg.push_conn(ids[0] as usize, 77, 1000).unwrap();
    assert!(evicted.is_none());
    let announcement = newsocket_frame(ids[0], slot as u8);

    // the client demultiplexes the announcement and answers with a NEWCONN
    // frame that claims exactly the announced (id, slot)
    match client_step(
        &table,
        announcement[0],
        announcement[1],
        announcement[2],
        announcement[3],
    ) {
        ClientAction::Dial { inner, frame } => {
            assert_eq!(inner, "127.0.0.1:7000");
            assert_eq!(frame[0], NEWCONN);
            let id = join_id(frame[1], frame[2]) as usize;
            let claimed = reg.take_conn(id, frame[3] as usize);
            // the data connection is paired with exactly socket 77
            assert_eq!(claimed, Some(77));
            // and nothing else can claim the same slot again
            assert_eq!(reg.take_conn(id, frame[3] as usize), None);
        },
        _ => panic!("expected a dial of the private service"),
    }
}
