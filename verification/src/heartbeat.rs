//! The liveness watchdog of the control channel.
//!
//! Both peers emit an IDLE byte every `HEARTBEAT_TIME` seconds and arm a
//! watchdog that fires after `HEARTBEAT_TIMEOUT` seconds of silence.  Each
//! received IDLE pushes the deadline out; a fired watchdog closes the
//! channel.  Because the emit period is half the timeout, one lost
//! heartbeat is tolerated.

use crate::consts::HEARTBEAT_TIMEOUT;
use vstd::prelude::*;

verus! {

/// The watchdog: holds the second at which it will declare the peer dead.
pub struct Watchdog {
    deadline: u64,
}

impl Watchdog {
    /// The second at which the watchdog fires unless it is reset first.
    pub closed spec fn spec_deadline(&self) -> u64 {
        self.deadline
    }

    /// Arms the watchdog a full timeout after `now`.
    pub fn new(now: u64) -> (w: Watchdog)
        requires
            now + HEARTBEAT_TIMEOUT <= u64::MAX,
        ensures
            w.spec_deadline() == now + HEARTBEAT_TIMEOUT,
    {
        Watchdog { deadline: now + HEARTBEAT_TIMEOUT }
    }

    /// A heartbeat arrived: push the deadline a full timeout past `now`.
    pub fn reset(&mut self, now: u64)
        requires
            now + HEARTBEAT_TIMEOUT <= u64::MAX,
        ensures
            final (self).spec_deadline() == now + HEARTBEAT_TIMEOUT,
    {
        self.deadline = now + HEARTBEAT_TIMEOUT;
    }

    /// Whether the watchdog has fired: the deadline has come and no
    /// heartbeat pushed it out.
    pub fn expired(&self, now: u64) -> (r: bool)
        ensures
            r == (now >= self.spec_deadline()),
    {
        now >= self.deadline
    }
}

/// The deadline a watchdog armed at `start` holds after being reset at each
/// time in `resets`, in order.
pub open spec fn deadline_after(start: u64, resets: Seq<u64>) -> int {
    if resets.len() == 0 {
        start + HEARTBEAT_TIMEOUT
    } else {
        resets.last() + HEARTBEAT_TIMEOUT
    }
}

/// Whether a watchdog armed at `start` and reset at the given times would
/// fire at some point up to `end`: some gap between consecutive resets, or
/// between the last reset and `end`, reaches the timeout.
pub open spec fn fires_within(start: u64, resets: Seq<u64>, end: u64) -> bool
    decreases resets.len(),
{
    if resets.len() == 0 {
        start + HEARTBEAT_TIMEOUT <= end
    } else {
        start + HEARTBEAT_TIMEOUT <= resets[0] || fires_within(resets[0], resets.drop_first(), end)
    }
}

/// Heartbeat liveness: as long as every reset arrives within the timeout
/// window of the one before it, and the horizon stays within a timeout of
/// the last reset, the watchdog never fires — for a horizon as far out as
/// the resets keep coming.
pub proof fn lemma_heartbeat_liveness(start: u64, resets: Seq<u64>, end: u64)
    requires
        forall|i: int|
            0 < i < resets.len() ==> (#[trigger] resets[i]) < resets[i - 1] + HEARTBEAT_TIMEOUT,
        resets.len() > 0 ==> resets[0] < start + HEARTBEAT_TIMEOUT,
        end < deadline_after(start, resets),
    ensures
        !fires_within(start, resets, end),
    decreases resets.len(),
{
    if resets.len() > 0 {
        let rest = resets.drop_first();
        assert forall|i: int| 0 < i < rest.len() implies (#[trigger] rest[i]) < rest[i - 1]
            + HEARTBEAT_TIMEOUT by {
            assert(rest[i] == resets[i + 1]);
            assert(rest[i - 1] == resets[i]);
        }
        if rest.len() > 0 {
            assert(rest[0] == resets[1]);
            assert(rest.last() == resets.last());
        }
        lemma_heartbeat_liveness(resets[0], rest, end);
    }
}

/// Heartbeat detection: once the resets stop, the watchdog fires by one
/// full timeout after the last of them (or after arming, if none came).
pub proof fn lemma_heartbeat_timeout(start: u64, resets: Seq<u64>, end: u64)
    requires
        end >= deadline_after(start, resets),
    ensures
        fires_within(start, resets, end),
    decreases resets.len(),
{
    if resets.len() > 0 {
        let rest = resets.drop_first();
        if rest.len() > 0 {
            assert(rest.last() == resets.last());
        }
        lemma_heartbeat_timeout(resets[0], rest, end);
    }
}

} // verus!
