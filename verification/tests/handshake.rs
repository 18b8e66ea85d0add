use breaknet::config::Client;
use breaknet::config::Iomap;
use breaknet::config::Server;
use breaknet::consts::ERROR;
use breaknet::consts::ERROR_BUSY;
use breaknet::consts::ERROR_LIMIT_PORT;
use breaknet::consts::ERROR_PWD;
use breaknet::consts::ERROR_SESSION_OVER;
use breaknet::consts::NEWCONN;
use breaknet::consts::START;
use breaknet::consts::SUCCESS;
use breaknet::handshake::classify_opcode;
use breaknet::handshake::reply_bytes;
use breaknet::handshake::server_handshake;
use breaknet::handshake::FirstOpcode;
use breaknet::handshake::HandshakeOutcome;
use breaknet::registry::Registry;

fn server_cfg(key: &str, limit: Option<(u16, u16)>) -> Server {
    Server { key: key.to_string(), port: 9000, limit_port: limit }
}

fn client_cfg(key: &str, outers: &[u16]) -> Client {
    Client {
        key: key.to_string(),
        server: "127.0.0.1:9000".to_string(),
        map: outers
            .iter()
            .map(|o| Iomap { inner: "127.0.0.1:7000".to_string(), outer: *o })
            .collect(),
    }
}

#[test]
fn happy_path_accepts_and_replies_success() {
    let mut reg: Registry<u32> = Registry::new();
    let cfg = server_cfg("k", None);
    let parsed = Some(client_cfg("k", &[9100]));
    let out = server_handshake(&mut reg, &cfg, 64, &parsed, true);
    match &out {
        HandshakeOutcome::Accept(ids) => assert_eq!(ids, &vec![0u16]),
        _ => panic!("expected acceptance"),
    }
    assert_eq!(reply_bytes(&out), Some(vec![SUCCESS, 0, 0]));
    assert_eq!(reg.port_id(9100), Some(0));
}

#[test]
fn wrong_key_is_rejected_with_error_pwd() {
    let mut reg: Registry<u32> = Registry::new();
    let cfg = server_cfg("k", None);
    let parsed = Some(client_cfg("x", &[9100]));
    let out = server_handshake(&mut reg, &cfg, 64, &parsed, true);
    match out {
        HandshakeOutcome::Reject(e) => assert_eq!(e, ERROR_PWD),
        _ => panic!("expected rejection"),
    }
    assert_eq!(reply_bytes(&out), Some(vec![8]));
    assert_eq!(reg.port_id(9100), None);
}

#[test]
fn out_of_range_port_is_rejected_with_error_limit_port() {
    let mut reg: Registry<u32> = Registry::new();
    let cfg = server_cfg("k", Some((9100, 9110)));
    let parsed = Some(client_cfg("k", &[9200]));
    let out = server_handshake(&mut reg, &cfg, 64, &parsed, true);
    match out {
        HandshakeOutcome::Reject(e) => assert_eq!(e, 10),
        _ => panic!("expected rejection"),
    }
    assert_eq!(reply_bytes(&out), Some(vec![ERROR_LIMIT_PORT]));
}

#[test]
fn in_range_ports_pass_the_limit() {
    let mut reg: Registry<u32> = Registry::new();
    let cfg = server_cfg("k", Some((9100, 9110)));
    let parsed = Some(client_cfg("k", &[9100, 9110]));
    let out = server_handshake(&mut reg, &cfg, 64, &parsed, true);
    assert!(matches!(out, HandshakeOutcome::Accept(_)));
}

#[test]
fn capacity_overflow_is_rejected_with_error_session_over() {
    let mut reg: Registry<u32> = Registry::new();
    reg.set_limit(1);
    let cfg = server_cfg("k", None);
    let parsed = Some(client_cfg("k", &[9100, 9101]));
    let out = server_handshake(&mut reg, &cfg, 64, &parsed, true);
    match out {
        HandshakeOutcome::Reject(e) => assert_eq!(e, ERROR_SESSION_OVER),
        _ => panic!("expected rejection"),
    }
    // no lingering sessions
    assert_eq!(reg.port_id(9100), None);
    assert_eq!(reg.port_id(9101), None);
}

#[test]
fn oversized_length_is_rejected_with_error() {
    let mut reg: Registry<u32> = Registry::new();
    let cfg = server_cfg("k", None);
    let parsed = Some(client_cfg("k", &[9100]));
    let out = server_handshake(&mut reg, &cfg, 1048577, &parsed, true);
    match out {
        HandshakeOutcome::Reject(e) => assert_eq!(e, ERROR),
        _ => panic!("expected rejection"),
    }
}

#[test]
fn empty_map_is_rejected_with_error() {
    let mut reg: Registry<u32> = Registry::new();
    let cfg = server_cfg("k", None);
    let parsed = Some(client_cfg("k", &[]));
    let out = server_handshake(&mut reg, &cfg, 16, &parsed, true);
    match out {
        HandshakeOutcome::Reject(e) => assert_eq!(e, ERROR),
        _ => panic!("expected rejection"),
    }
}

#[test]
fn undecodable_payload_closes_silently() {
    let mut reg: Registry<u32> = Registry::new();
    let cfg = server_cfg("k", None);
    let out = server_handshake(&mut reg, &cfg, 64, &None, true);
    assert!(matches!(out, HandshakeOutcome::CloseSilent));
    assert_eq!(reply_bytes(&out), None);
}

#[test]
fn failed_binds_are_rejected_with_error_busy() {
    let mut reg: Registry<u32> = Registry::new();
    let cfg = server_cfg("k", None);
    let parsed = Some(client_cfg("k", &[9100]));
    let out = server_handshake(&mut reg, &cfg, 64, &parsed, false);
    match out {
        HandshakeOutcome::Reject(e) => assert_eq!(e, ERROR_BUSY),
        _ => panic!("expected rejection"),
    }
    assert_eq!(reg.port_id(9100), None);
}

#[test]
fn checks_run_in_wire_order() {
    // a wrong key is reported before an out-of-range port
    let mut reg: Registry<u32> = Registry::new();
    let cfg = server_cfg("k", Some((9100, 9110)));
    let parsed = Some(client_cfg("x", &[9200]));
    let out = server_handshake(&mut reg, &cfg, 64, &parsed, true);
    match out {
        HandshakeOutcome::Reject(e) => assert_eq!(e, ERROR_PWD),
        _ => panic!("expected rejection"),
    }
}

#[test]
fn first_opcode_routing() {
    assert_eq!(classify_opcode(START), FirstOpcode::Handshake);
    assert_eq!(classify_opcode(NEWCONN), FirstOpcode::DataConn);
    assert_eq!(classify_opcode(0), FirstOpcode::Unknown);
    assert_eq!(classify_opcode(6), FirstOpcode::Unknown);
}
