//! The reconnect supervisor's state machine.
//!
//! The supervisor owns the outer loop of the client: while Disconnected
//! it tries to discover and open the device, backing off after each
//! failure without ever giving up; once a session is handed out it is
//! Active until the session reports how it ended. A clean end (the
//! operator left) terminates the program; a fatal end discards the dead
//! session and returns to discovery. The loop itself performs I/O and
//! lives outside the library; each of its decisions is taken here.

use crate::errors::SessionEnd;
use vstd::prelude::*;

verus! {

/// The two supervisor states.
#[derive(Clone, Copy, PartialEq, Eq, Structural, Debug)]
pub enum SupervisorState {
    /// No usable session; discovery is being retried.
    Disconnected,
    /// A freshly opened session has been handed to the selected mode.
    Active,
}

/// What the outer loop observed since the last decision.
#[derive(Clone, Copy, PartialEq, Eq, Structural, Debug)]
pub enum SupervisorEvent {
    /// Discovery, open or interface claim failed.
    DiscoveryFailed,
    /// A device matching the target address was opened and claimed.
    DiscoverySucceeded,
    /// The running mode ended because the operator asked to leave.
    SessionEndedClean,
    /// The running mode ended on a fatal transport error.
    SessionEndedFatal,
}

/// What the outer loop must do next.
#[derive(Clone, Copy, PartialEq, Eq, Structural, Debug)]
pub enum SupervisorAction {
    /// Wait one backoff interval, then retry discovery.
    Backoff,
    /// Hand the new session to the selected mode.
    RunSession,
    /// Terminate the program with a success exit code.
    ExitProgram,
    /// Announce the lost connection, discard the session, retry discovery.
    Reconnect,
}

/// Whether an event can be observed in a state: discovery outcomes while
/// Disconnected, session outcomes while Active.
pub open spec fn event_fits(st: SupervisorState, ev: SupervisorEvent) -> bool {
    match st {
        SupervisorState::Disconnected => ev is DiscoveryFailed || ev is DiscoverySucceeded,
        SupervisorState::Active => ev is SessionEndedClean || ev is SessionEndedFatal,
    }
}

/// The transition relation: next state and required action for an event.
pub open spec fn step(st: SupervisorState, ev: SupervisorEvent) -> (SupervisorState, SupervisorAction) {
    match ev {
        SupervisorEvent::DiscoveryFailed => (SupervisorState::Disconnected, SupervisorAction::Backoff),
        SupervisorEvent::DiscoverySucceeded => (SupervisorState::Active, SupervisorAction::RunSession),
        SupervisorEvent::SessionEndedClean => (SupervisorState::Disconnected, SupervisorAction::ExitProgram),
        SupervisorEvent::SessionEndedFatal => (SupervisorState::Disconnected, SupervisorAction::Reconnect),
    }
}

/// Advances the supervisor by one observed event.
pub fn supervisor_step(st: SupervisorState, ev: SupervisorEvent) -> (r: (
    SupervisorState,
    SupervisorAction,
))
    requires
        event_fits(st, ev),
    ensures
        r == step(st, ev),
{
    match ev {
        SupervisorEvent::DiscoveryFailed => (
            SupervisorState::Disconnected,
            SupervisorAction::Backoff,
        ),
        SupervisorEvent::DiscoverySucceeded => (
            SupervisorState::Active,
            SupervisorAction::RunSession,
        ),
        SupervisorEvent::SessionEndedClean => (
            SupervisorState::Disconnected,
            SupervisorAction::ExitProgram,
        ),
        SupervisorEvent::SessionEndedFatal => (
            SupervisorState::Disconnected,
            SupervisorAction::Reconnect,
        ),
    }
}

/// The event the supervisor receives when the running mode hands back its
/// outcome.
pub fn session_outcome_event(end: &SessionEnd) -> (r: SupervisorEvent)
    ensures
        end is Clean ==> r == SupervisorEvent::SessionEndedClean,
        end is Fatal ==> r == SupervisorEvent::SessionEndedFatal,
{
    match end {
        SessionEnd::Clean => SupervisorEvent::SessionEndedClean,
        SessionEnd::Fatal(_) => SupervisorEvent::SessionEndedFatal,
    }
}

/// The state after a whole sequence of events.
pub open spec fn run(st: SupervisorState, evs: Seq<SupervisorEvent>) -> SupervisorState
    decreases evs.len(),
{
    if evs.len() == 0 {
        st
    } else {
        run(step(st, evs[0]).0, evs.skip(1))
    }
}

/// A run of `n` discovery failures.
pub open spec fn failed_discoveries(n: nat) -> Seq<SupervisorEvent> {
    Seq::new(n, |i: int| SupervisorEvent::DiscoveryFailed)
}

/// Reconnect liveness: discovery may fail any finite number of times, but
/// the one success that follows always brings the supervisor to Active —
/// the retry loop never gives up early.
pub proof fn lemma_reconnect_liveness(n: nat)
    ensures
        run(
            SupervisorState::Disconnected,
            failed_discoveries(n).push(SupervisorEvent::DiscoverySucceeded),
        ) == SupervisorState::Active,
    decreases n,
{
    let evs = failed_discoveries(n).push(SupervisorEvent::DiscoverySucceeded);
    if n == 0 {
        assert(evs[0] == SupervisorEvent::DiscoverySucceeded);
        assert(evs.skip(1) =~= Seq::<SupervisorEvent>::empty());
        assert(run(SupervisorState::Active, Seq::<SupervisorEvent>::empty())
            == SupervisorState::Active);
        assert(run(SupervisorState::Disconnected, evs) == run(
            SupervisorState::Active,
            evs.skip(1),
        ));
    } else {
        assert(evs[0] == SupervisorEvent::DiscoveryFailed);
        lemma_reconnect_liveness((n - 1) as nat);
        assert(evs.skip(1) =~= failed_discoveries((n - 1) as nat).push(
            SupervisorEvent::DiscoverySucceeded,
        ));
        assert(run(SupervisorState::Disconnected, evs) == run(
            SupervisorState::Disconnected,
            evs.skip(1),
        ));
    }
}

/// While discovery keeps failing the supervisor stays Disconnected and
/// keeps retrying: failures alone never crash it, terminate it, or leave
/// it stuck anywhere but in discovery.
pub proof fn lemma_failures_keep_retrying(evs: Seq<SupervisorEvent>)
    requires
        forall|i: int| 0 <= i < evs.len() ==> evs[i] == SupervisorEvent::DiscoveryFailed,
    ensures
        run(SupervisorState::Disconnected, evs) == SupervisorState::Disconnected,
    decreases evs.len(),
{
    if evs.len() > 0 {
        lemma_failures_keep_retrying(evs.skip(1));
    }
}

} // verus!
