//! Keeping the streaming session alive, and the Web API token fresh.
//!
//! The streaming library connects a session one time; when the connection stops, the session
//! stays invalid, and an invalid session serves no decryption keys, so a whole queue can fail in a
//! second. A watchdog looks at the session every few seconds and replaces a dead one from the
//! credentials on disk. The looking, the sleeping and the replacing are the application's; the
//! [`Watchdog`] decides what to say and how long to wait.

use vstd::prelude::*;

verus! {

/// How often the watchdog looks at the connection, in seconds.
pub const CHECK_S: u64 = 2;

/// How long the watchdog waits after a first failed attempt, in seconds.
pub const FIRST_WAIT_S: u64 = 2;

/// The longest wait between two attempts, in seconds. A machine that comes back from a week of
/// sleep must find the network quickly.
pub const LONGEST_WAIT_S: u64 = 60;

/// How long before its expiry a token is replaced, in milliseconds: a token that expires while a
/// request is in flight costs a round trip and a retry.
pub const EARLY_MS: u64 = 60_000;

/// What the watchdog holds between looks.
#[derive(Debug, Clone, Copy, PartialEq, Eq, Structural)]
pub struct Watchdog {
    /// How long to wait after the next failed attempt, in seconds.
    pub wait_s: u64,
    /// Whether this outage was reported. Each outage is reported one time, at its first attempt.
    pub reported: bool,
}

/// Whether a watchdog's wait is within its bounds.
pub open spec fn bounded(w: Watchdog) -> bool {
    FIRST_WAIT_S <= w.wait_s <= LONGEST_WAIT_S
}

/// The wait after one more failure: twice as long, and never longer than the longest.
pub open spec fn doubled(wait: u64) -> u64 {
    if wait * 2 > LONGEST_WAIT_S { LONGEST_WAIT_S } else { (wait * 2) as u64 }
}

impl Watchdog {
    /// A watchdog that has seen nothing wrong.
    pub fn new() -> (w: Self)
        ensures
            w.wait_s == FIRST_WAIT_S,
            !w.reported,
    {
        Watchdog { wait_s: FIRST_WAIT_S, reported: false }
    }

    /// What a look at the session means: says whether to report the connection lost. A live
    /// session resets the watchdog; a dead one is reported once per outage, and the caller then
    /// tries to connect again.
    pub fn looked(&mut self, dead: bool) -> (report_lost: bool)
        requires
            bounded(*old(self)),
        ensures
            bounded(*final(self)),
            !dead ==> !report_lost && *final(self) == Watchdog::new_spec(),
            dead ==> report_lost == !old(self).reported && final(self).reported
                && final(self).wait_s == old(self).wait_s,
    {
        if !dead {
            self.wait_s = FIRST_WAIT_S;
            self.reported = false;
            return false;
        }
        let report = !self.reported;
        self.reported = true;
        report
    }

    /// The session came back: the caller reports it restored, and the watchdog starts over.
    pub fn reconnected(&mut self)
        ensures
            *final(self) == Watchdog::new_spec(),
    {
        self.wait_s = FIRST_WAIT_S;
        self.reported = false;
    }

    /// An attempt failed: returns how long to wait before the next one, and makes the wait after
    /// that twice as long, up to the longest.
    pub fn failed(&mut self) -> (wait_s: u64)
        requires
            bounded(*old(self)),
        ensures
            wait_s == old(self).wait_s,
            final(self).wait_s == doubled(old(self).wait_s),
            final(self).reported == old(self).reported,
            bounded(*final(self)),
    {
        let wait = self.wait_s;
        self.wait_s = if wait > LONGEST_WAIT_S / 2 { LONGEST_WAIT_S } else { wait * 2 };
        wait
    }

    /// A watchdog that has seen nothing wrong.
    pub open spec fn new_spec() -> Watchdog {
        Watchdog { wait_s: FIRST_WAIT_S, reported: false }
    }
}

/// However many attempts fail, the wait between two of them grows to a minute and no further;
/// after six failures in a row it is a minute.
pub proof fn the_wait_reaches_a_minute(wait: u64)
    requires
        FIRST_WAIT_S <= wait <= LONGEST_WAIT_S,
    ensures
        FIRST_WAIT_S <= doubled(wait) <= LONGEST_WAIT_S,
        doubled(wait) >= wait,
        doubled(doubled(doubled(doubled(doubled(wait))))) == LONGEST_WAIT_S,
{
}

/// Whether a token that expires at `expires_ms` is still worth sending at `now_ms`, both in
/// milliseconds since the epoch: it is until a minute before it expires.
pub fn is_fresh(now_ms: u64, expires_ms: u64) -> (fresh: bool)
    ensures
        fresh == (now_ms + EARLY_MS < expires_ms),
{
    if now_ms > u64::MAX - EARLY_MS {
        false
    } else {
        now_ms + EARLY_MS < expires_ms
    }
}

} // verus!
