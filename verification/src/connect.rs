//! When to fall back to a relay: first directly, the relay in reserve.

use crate::time::Duration;
use vstd::prelude::*;

verus! {

#[derive(Clone, Copy, Debug, PartialEq, Eq, Structural)]
pub enum FallbackAction {
    /// Go on trying directly.
    KeepTrying,
    /// Add relay candidates: no direct connection came up in time.
    AddRelay,
    /// The connection is up.
    Connected,
    /// Time is up.
    GiveUp,
}

/// How long to try.
#[derive(Clone, Copy, Debug)]
pub struct FallbackPolicy {
    /// How long to try directly before a relay is added.
    pub relay_after: Duration,
    /// How long to try at all.
    pub give_up_after: Duration,
}

impl Default for FallbackPolicy {
    fn default() -> (p: FallbackPolicy)
        ensures
            p.relay_after.ns() == 3_000_000_000,
            p.give_up_after.ns() == 12_000_000_000,
    {
        FallbackPolicy {
            relay_after: Duration::from_secs(3),
            give_up_after: Duration::from_secs(12),
        }
    }
}

/// What to do `elapsed` nanoseconds into the attempt.
pub open spec fn decision(
    p: FallbackPolicy,
    elapsed: int,
    ice_connected: bool,
    relay_added: bool,
) -> FallbackAction {
    if ice_connected {
        FallbackAction::Connected
    } else if elapsed >= p.give_up_after.ns() {
        FallbackAction::GiveUp
    } else if elapsed >= p.relay_after.ns() && !relay_added {
        FallbackAction::AddRelay
    } else {
        FallbackAction::KeepTrying
    }
}

impl FallbackPolicy {
    /// What to do, given the time since the attempt began and the state of the connection.
    pub fn decide(&self, elapsed: Duration, ice_connected: bool, relay_added: bool) -> (a:
        FallbackAction)
        ensures
            a == decision(*self, elapsed.ns(), ice_connected, relay_added),
    {
        if ice_connected {
            FallbackAction::Connected
        } else if elapsed.at_least(self.give_up_after) {
            FallbackAction::GiveUp
        } else if elapsed.at_least(self.relay_after) && !relay_added {
            FallbackAction::AddRelay
        } else {
            FallbackAction::KeepTrying
        }
    }
}

/// A relay is added only after the direct attempt had its time, and at most once: with the relay
/// added it is not asked for again. Giving up is final while nothing connects.
pub proof fn law_direct_first(p: FallbackPolicy, elapsed: int, later: int, relay_added: bool)
    requires
        elapsed <= later,
    ensures
        decision(p, elapsed, false, relay_added) == FallbackAction::AddRelay ==> elapsed
            >= p.relay_after.ns() && !relay_added,
        decision(p, elapsed, false, true) != FallbackAction::AddRelay,
        decision(p, elapsed, false, relay_added) == FallbackAction::GiveUp ==> decision(
            p,
            later,
            false,
            relay_added,
        ) == FallbackAction::GiveUp,
        decision(p, elapsed, true, relay_added) == FallbackAction::Connected,
{
}

/// What is done is told by the clock and the connection alone: a connection that is up is reported
/// whatever the time; before the relay's time nothing but trying is done, from then on the relay is
/// added, once, and at the end of all time the attempt is given up.
pub proof fn law_attempt_runs_its_course(
    p: &FallbackPolicy,
    elapsed: Duration,
    up: bool,
    added: bool,
    a: FallbackAction,
)
    requires
        call_ensures(FallbackPolicy::decide, (p, elapsed, up, added), a),
    ensures
        a == FallbackAction::Connected <==> up,
        a == FallbackAction::GiveUp <==> !up && elapsed.ns() >= p.give_up_after.ns(),
        a == FallbackAction::AddRelay <==> !up && !added && p.relay_after.ns() <= elapsed.ns()
            < p.give_up_after.ns(),
{
}

/// Without other settings a relay is added after three seconds, and the attempt given up after
/// twelve.
pub proof fn law_usual_patience(p: FallbackPolicy)
    requires
        call_ensures(FallbackPolicy::default, (), p),
    ensures
        p.relay_after.nanos == 3_000_000_000,
        p.give_up_after.nanos == 12_000_000_000,
{
}

} // verus!
