use snd_core::session::{KeepaliveAction, Session};
use snd_core::time::{systime, to_epoch};
use snd_core::KEEPALIVE_INTERVAL;

#[test]
fn checks_inside_the_interval_wait() {
    let mut s = Session::new(1000);
    assert_eq!(s.keepalive_check(1000), KeepaliveAction::Wait);
    assert_eq!(s.keepalive_check(1000 + KEEPALIVE_INTERVAL - 1), KeepaliveAction::Wait);
    assert!(!s.expecting_keepalive);
}

#[test]
fn a_silent_peer_is_disconnected_within_two_intervals() {
    let mut s = Session::new(1000);
    let probe_at = 1000 + KEEPALIVE_INTERVAL;
    assert_eq!(s.keepalive_check(probe_at), KeepaliveAction::SendProbe);
    assert!(s.expecting_keepalive);
    assert_eq!(s.last_keepalive, probe_at);
    // still waiting inside the second interval
    assert_eq!(s.keepalive_check(probe_at + KEEPALIVE_INTERVAL - 1), KeepaliveAction::Wait);
    // no reply a full interval after the probe: the peer is dead
    assert_eq!(
        s.keepalive_check(probe_at + KEEPALIVE_INTERVAL),
        KeepaliveAction::Disconnect
    );
}

#[test]
fn a_reply_clears_the_probe_and_measures_latency() {
    let mut s = Session::new(1000);
    assert_eq!(s.keepalive_check(1020), KeepaliveAction::SendProbe);
    // the client answers with its clock at 1005:
    // latency = 1005 - (1020 - 20) = 5
    assert_eq!(s.handle_keepalive_reply(1005), Some(5));
    assert!(!s.expecting_keepalive);
    assert_eq!(s.ping, 5);
    // the cleared session probes again a full interval later
    assert_eq!(s.keepalive_check(1039), KeepaliveAction::Wait);
    assert_eq!(s.keepalive_check(1040), KeepaliveAction::SendProbe);
}

#[test]
fn an_unsolicited_reply_is_ignored() {
    let mut s = Session::new(1000);
    assert_eq!(s.handle_keepalive_reply(12345), None);
    assert_eq!(s.last_keepalive, 1000);
    assert!(!s.expecting_keepalive);
    assert_eq!(s.ping, 0);
}

#[test]
fn a_reply_from_a_clock_far_behind_measures_zero() {
    let mut s = Session::new(1000);
    assert_eq!(s.keepalive_check(1020), KeepaliveAction::SendProbe);
    assert_eq!(s.handle_keepalive_reply(3), Some(0));
}

#[test]
fn clock_wrappers_yield_epoch_seconds() {
    let now = systime();
    assert!(now > 1_600_000_000, "the clock reads after the epoch");
    let t = std::time::UNIX_EPOCH + std::time::Duration::from_secs(123);
    assert_eq!(to_epoch(t), 123);
    assert_eq!(to_epoch(std::time::UNIX_EPOCH), 0);
}
