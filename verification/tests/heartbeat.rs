use breaknet::consts::HEARTBEAT_TIME;
use breaknet::consts::HEARTBEAT_TIMEOUT;
use breaknet::heartbeat::Watchdog;

#[test]
fn emit_period_is_half_the_timeout() {
    assert_eq!(HEARTBEAT_TIME * 2, HEARTBEAT_TIMEOUT);
}

#[test]
fn watchdog_fires_only_after_the_timeout() {
    let w = Watchdog::new(100);
    assert!(!w.expired(100));
    assert!(!w.expired(105));
    assert!(w.expired(106));
    assert!(w.expired(200));
}

#[test]
fn reset_pushes_the_deadline_out() {
    let mut w = Watchdog::new(100);
    w.reset(104);
    assert!(!w.expired(106));
    assert!(!w.expired(109));
    assert!(w.expired(110));
}

#[test]
fn regular_heartbeats_keep_the_channel_alive() {
    // one heartbeat every HEARTBEAT_TIME seconds never lets the deadline pass
    let mut w = Watchdog::new(0);
    let mut t = 0u64;
    while t < 60 {
        t += HEARTBEAT_TIME;
        assert!(!w.expired(t));
        w.reset(t);
    }
}

#[test]
fn a_paused_peer_is_detected_within_ten_seconds() {
    // handshake at second zero, then silence: the watchdog has fired
    // by the time the peer has been paused for ten seconds
    let w = Watchdog::new(0);
    assert!(w.expired(10));
}
