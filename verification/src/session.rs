//! Per-connection session state: the keepalive bookkeeping that detects
//! dead peers, and the round-trip latency computation for replies.

use crate::messages::ClientEvent;
use crate::KEEPALIVE_INTERVAL;
use vstd::prelude::*;

verus! {

/// What the keepalive check asks the connection loop to do.
#[derive(Copy, Clone, PartialEq, Eq, Structural, Debug)]
pub enum KeepaliveAction {
    /// The interval has not elapsed; keep going.
    Wait,
    /// Send a probe carrying the current time.
    SendProbe,
    /// The peer missed a full interval after the probe: send a disconnect
    /// notice and close.
    Disconnect,
}

/// The live state of one connection after the handshake.
#[derive(Copy, Clone, PartialEq, Eq, Structural, Debug)]
pub struct Session {
    /// When the keepalive clock last started counting, in epoch seconds.
    pub last_keepalive: u64,
    /// Whether a probe is outstanding.
    pub expecting_keepalive: bool,
    /// The last measured round-trip latency, in seconds.
    pub ping: u64,
}

/// The state and action produced by one keepalive check at time `now`.
pub open spec fn spec_keepalive_check(s: Session, now: u64) -> (Session, KeepaliveAction) {
    if now - s.last_keepalive >= KEEPALIVE_INTERVAL {
        if !s.expecting_keepalive {
            (
                Session { last_keepalive: now, expecting_keepalive: true, ..s },
                KeepaliveAction::SendProbe,
            )
        } else {
            (s, KeepaliveAction::Disconnect)
        }
    } else {
        (s, KeepaliveAction::Wait)
    }
}

/// The latency derived from a reply carrying client time `t`, when the
/// probe was sent at `last`: `t - (last - KEEPALIVE_INTERVAL)`, held at
/// zero instead of wrapping when the peer's clock is behind.
pub open spec fn spec_ping_of(t: u64, last: u64) -> u64 {
    if last >= KEEPALIVE_INTERVAL && t >= last - KEEPALIVE_INTERVAL {
        (t - (last - KEEPALIVE_INTERVAL)) as u64
    } else {
        0u64
    }
}

impl Session {
    /// A session freshly bound at time `now`: the keepalive clock starts,
    /// no probe is outstanding.
    pub fn new(now: u64) -> (s: Session)
        ensures
            s.last_keepalive == now,
            !s.expecting_keepalive,
            s.ping == 0,
    {
        Session { last_keepalive: now, expecting_keepalive: false, ping: 0 }
    }

    /// One keepalive check at time `now`. Once a full interval has passed,
    /// the first check sends a probe and restarts the clock; if another
    /// full interval passes with the probe still outstanding, the peer is
    /// declared unresponsive.
    pub fn keepalive_check(&mut self, now: u64) -> (a: KeepaliveAction)
        requires
            now >= old(self).last_keepalive,
        ensures
            (*final(self), a) == spec_keepalive_check(*old(self), now),
    {
        if now - self.last_keepalive >= KEEPALIVE_INTERVAL {
            if !self.expecting_keepalive {
                self.last_keepalive = now;
                self.expecting_keepalive = true;
                KeepaliveAction::SendProbe
            } else {
                KeepaliveAction::Disconnect
            }
        } else {
            KeepaliveAction::Wait
        }
    }

    /// Take a keepalive reply carrying the client's clock `t`. A reply
    /// nobody asked for is ignored; an awaited one clears the outstanding
    /// flag and yields the measured latency.
    pub fn handle_keepalive_reply(&mut self, t: u64) -> (r: Option<u64>)
        ensures
            !old(self).expecting_keepalive ==> r is None && *final(self) == *old(self),
            old(self).expecting_keepalive ==> {
                &&& final(self).expecting_keepalive == false
                &&& final(self).last_keepalive == old(self).last_keepalive
                &&& final(self).ping == spec_ping_of(t, old(self).last_keepalive)
                &&& r == Some(final(self).ping)
            },
    {
        if !self.expecting_keepalive {
            return None;
        }
        let base = if self.last_keepalive >= KEEPALIVE_INTERVAL {
            self.last_keepalive - KEEPALIVE_INTERVAL
        } else {
            t
        };
        self.ping = if t >= base {
            t - base
        } else {
            0
        };
        self.expecting_keepalive = false;
        Some(self.ping)
    }
}

/// What the session loop must do with one inbound client event.
#[derive(Copy, Clone, PartialEq, Eq, Structural, Debug)]
pub enum SessionDirective {
    /// Acknowledge with a disconnect notice, then close.
    AckAndClose,
    /// Close without a further notice.
    CloseQuietly,
    /// Feed the carried timestamp to the keepalive bookkeeping.
    Keepalive(u64),
    /// Hand the command to the event dispatcher.
    Dispatch,
}

/// The session-level decision for one inbound event: a client disconnect
/// is acknowledged and ends the session, a fatal client error ends it
/// silently, a keepalive reply goes to the liveness bookkeeping, and
/// every game command goes to the dispatcher.
pub open spec fn spec_classify_event(ev: ClientEvent) -> SessionDirective {
    match ev {
        ClientEvent::Disconnect => SessionDirective::AckAndClose,
        ClientEvent::KeepAlive(t) => SessionDirective::Keepalive(t),
        ClientEvent::Error(e) => if e.disconnect {
            SessionDirective::CloseQuietly
        } else {
            SessionDirective::Dispatch
        },
        _ => SessionDirective::Dispatch,
    }
}

/// Decide what the session loop does with an inbound event.
pub fn classify_event(ev: &ClientEvent) -> (r: SessionDirective)
    ensures
        r == spec_classify_event(*ev),
{
    match ev {
        ClientEvent::Disconnect => SessionDirective::AckAndClose,
        ClientEvent::KeepAlive(t) => SessionDirective::Keepalive(*t),
        ClientEvent::Error(e) => if e.disconnect {
            SessionDirective::CloseQuietly
        } else {
            SessionDirective::Dispatch
        },
        _ => SessionDirective::Dispatch,
    }
}

/// Keepalive liveness: with no probe outstanding at the start of an
/// interval, the check at `t1` sends a probe, and if no reply has arrived
/// by `t2`, a full interval later, the check at `t2` disconnects — so a
/// peer that stays silent for `2 × KEEPALIVE_INTERVAL` after the clock
/// started is closed with a disconnect notice.
pub proof fn lemma_keepalive_timeout(s: Session, t1: u64, t2: u64)
    requires
        !s.expecting_keepalive,
        t1 >= s.last_keepalive,
        t1 - s.last_keepalive >= KEEPALIVE_INTERVAL,
        t2 >= t1,
        t2 - t1 >= KEEPALIVE_INTERVAL,
    ensures
        spec_keepalive_check(s, t1).1 == KeepaliveAction::SendProbe,
        spec_keepalive_check(spec_keepalive_check(s, t1).0, t2).1 == KeepaliveAction::Disconnect,
{
}

} // verus!
