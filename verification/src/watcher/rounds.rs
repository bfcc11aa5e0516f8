//! The order in which the watcher works: round after round, until it is told to stop.
//!
//! A round asks whether to stop, looks at the running processes, collects notifications
//! for a while, checks the projects that have settled, and checks all of them where the
//! timer is due.
use vstd::prelude::*;

use crate::watcher::worker::POLL_INTERVAL;

verus! {

/// What the watcher does next.
#[derive(Debug, Clone, Copy, PartialEq, Eq, Structural)]
pub enum WatchPhase {
    /// Set up the notifications.
    Setup,
    /// Ask whether to stop.
    Listen,
    /// Look at the running processes and their open projects.
    Refresh,
    /// Wait for a notification, up to this time in nanoseconds.
    Drain { end: u64 },
    /// Check the projects that have settled.
    Settle,
    /// Check all projects, where the timer is due.
    Timer,
    /// Nothing more.
    Ended,
}

/// What came of a phase.
#[derive(Debug, Clone, Copy, PartialEq, Eq, Structural)]
pub enum WatchOutcome {
    /// It is done.
    Done,
    /// The notifications could not be set up.
    Failed,
    /// The message to stop has come.
    Stopped,
    /// Nobody is left to send the message to stop.
    Disconnected,
    /// No message has come.
    Nothing,
    /// A notification has come, and was dealt with.
    Notified,
    /// No notification has come in time, or the time to wait is over.
    Quiet,
}

/// Whether the outcome of asking tells the watcher to stop.
pub open spec fn is_stop(outcome: WatchOutcome) -> bool {
    outcome == WatchOutcome::Stopped || outcome == WatchOutcome::Disconnected
}

/// The phase behind another, given what came of that one and the time in nanoseconds.
pub open spec fn next_phase(phase: WatchPhase, outcome: WatchOutcome, now: u64) -> WatchPhase {
    match phase {
        WatchPhase::Setup => if outcome == WatchOutcome::Failed {
            WatchPhase::Ended
        } else {
            WatchPhase::Listen
        },
        WatchPhase::Listen => if is_stop(outcome) {
            WatchPhase::Ended
        } else {
            WatchPhase::Refresh
        },
        WatchPhase::Refresh => WatchPhase::Drain { end: (now + POLL_INTERVAL) as u64 },
        WatchPhase::Drain { end } => if outcome == WatchOutcome::Notified {
            WatchPhase::Drain { end }
        } else {
            WatchPhase::Settle
        },
        WatchPhase::Settle => WatchPhase::Timer,
        WatchPhase::Timer => WatchPhase::Listen,
        WatchPhase::Ended => WatchPhase::Ended,
    }
}

/// The phase behind another, given what came of that one and the time in nanoseconds.
pub fn worker(phase: WatchPhase, outcome: WatchOutcome, now: u64) -> (next: WatchPhase)
    requires
        phase == WatchPhase::Refresh ==> now + POLL_INTERVAL <= u64::MAX,
    ensures
        next == next_phase(phase, outcome, now),
{
    match (phase, outcome) {
        (WatchPhase::Ended, _)
        | (WatchPhase::Setup, WatchOutcome::Failed)
        | (WatchPhase::Listen, WatchOutcome::Stopped)
        | (WatchPhase::Listen, WatchOutcome::Disconnected) => WatchPhase::Ended,
        (WatchPhase::Setup, _) | (WatchPhase::Timer, _) => WatchPhase::Listen,
        (WatchPhase::Listen, _) => WatchPhase::Refresh,
        (WatchPhase::Refresh, _) => WatchPhase::Drain { end: now + POLL_INTERVAL },
        (WatchPhase::Drain { end }, WatchOutcome::Notified) => WatchPhase::Drain { end },
        (WatchPhase::Drain { .. }, _) => WatchPhase::Settle,
        (WatchPhase::Settle, _) => WatchPhase::Timer,
    }
}

// ---------------------------------------------------------------------------
// Laws
// ---------------------------------------------------------------------------

/// The phase that is reached from another by what comes of it and of those behind it.
pub open spec fn phase_after(phase: WatchPhase, outcomes: Seq<(WatchOutcome, u64)>) -> WatchPhase
    decreases outcomes.len(),
{
    if outcomes.len() == 0 {
        phase
    } else {
        let last = outcomes.last();
        next_phase(phase_after(phase, outcomes.drop_last()), last.0, last.1)
    }
}

/// One more outcome takes the watcher one phase further.
proof fn lemma_one_more(phase: WatchPhase, outcomes: Seq<(WatchOutcome, u64)>, n: int)
    requires
        0 <= n < outcomes.len(),
    ensures
        phase_after(phase, outcomes.take(n + 1)) == next_phase(
            phase_after(phase, outcomes.take(n)),
            outcomes[n].0,
            outcomes[n].1,
        ),
{
    assert(outcomes.take(n + 1).drop_last() =~= outcomes.take(n));
    assert(outcomes.take(n + 1).last() == outcomes[n]);
}

/// Nothing follows the end.
pub proof fn law_end_is_final(outcomes: Seq<(WatchOutcome, u64)>)
    ensures
        phase_after(WatchPhase::Ended, outcomes) == WatchPhase::Ended,
    decreases outcomes.len(),
{
    if outcomes.len() > 0 {
        law_end_is_final(outcomes.drop_last());
    }
}

/// The watcher ends where it asks and is told to stop, or finds nobody left who could
/// tell it, and where the notifications cannot be set up. It ends nowhere else. Once they
/// are set up it asks.
pub proof fn law_stop_ends(phase: WatchPhase, outcome: WatchOutcome, now: u64)
    ensures
        next_phase(phase, outcome, now) == WatchPhase::Ended <==> {
            ||| phase == WatchPhase::Ended
            ||| phase == WatchPhase::Listen && outcome == WatchOutcome::Stopped
            ||| phase == WatchPhase::Listen && outcome == WatchOutcome::Disconnected
            ||| phase == WatchPhase::Setup && outcome == WatchOutcome::Failed
        },
        phase == WatchPhase::Setup && outcome != WatchOutcome::Failed ==> next_phase(
            phase,
            outcome,
            now,
        ) == WatchPhase::Listen,
{
}

/// The outcomes of a round with `n` notifications that is not told to stop.
pub open spec fn is_round(outcomes: Seq<(WatchOutcome, u64)>, n: int) -> bool {
    &&& 0 <= n
    &&& outcomes.len() == n + 5
    &&& !is_stop(outcomes[0].0)
    &&& forall|i: int| 2 <= i < n + 2 ==> (#[trigger] outcomes[i]).0 == WatchOutcome::Notified
    &&& outcomes[n + 2].0 != WatchOutcome::Notified
}

/// A round goes through its phases in order: it asks whether to stop, looks at the
/// processes, waits for notifications up to the end of the poll, once more behind each,
/// checks what has settled, then looks at the timer, and asks again.
pub proof fn law_round_goes_in_order(outcomes: Seq<(WatchOutcome, u64)>, n: int)
    requires
        is_round(outcomes, n),
    ensures
        phase_after(WatchPhase::Listen, outcomes.take(0)) == WatchPhase::Listen,
        phase_after(WatchPhase::Listen, outcomes.take(1)) == WatchPhase::Refresh,
        forall|i: int|
            2 <= i <= n + 2 ==> #[trigger] phase_after(WatchPhase::Listen, outcomes.take(i))
                == (WatchPhase::Drain { end: (outcomes[1].1 + POLL_INTERVAL) as u64 }),
        phase_after(WatchPhase::Listen, outcomes.take(n + 3)) == WatchPhase::Settle,
        phase_after(WatchPhase::Listen, outcomes.take(n + 4)) == WatchPhase::Timer,
        phase_after(WatchPhase::Listen, outcomes) == WatchPhase::Listen,
{
    lemma_one_more(WatchPhase::Listen, outcomes, 0);
    lemma_one_more(WatchPhase::Listen, outcomes, 1);
    assert forall|i: int| 2 <= i <= n + 2 implies #[trigger] phase_after(
        WatchPhase::Listen,
        outcomes.take(i),
    ) == (WatchPhase::Drain { end: (outcomes[1].1 + POLL_INTERVAL) as u64 }) by {
        lemma_notified(outcomes, n, i);
    }
    lemma_notified(outcomes, n, n + 2);
    lemma_one_more(WatchPhase::Listen, outcomes, n + 2);
    lemma_one_more(WatchPhase::Listen, outcomes, n + 3);
    lemma_one_more(WatchPhase::Listen, outcomes, n + 4);
    assert(outcomes.take(n + 5) =~= outcomes);
}

/// As long as notifications come, the watcher waits for the next.
proof fn lemma_notified(outcomes: Seq<(WatchOutcome, u64)>, n: int, i: int)
    requires
        is_round(outcomes, n),
        2 <= i <= n + 2,
    ensures
        phase_after(WatchPhase::Listen, outcomes.take(i)) == (WatchPhase::Drain {
            end: (outcomes[1].1 + POLL_INTERVAL) as u64,
        }),
    decreases i,
{
    lemma_one_more(WatchPhase::Listen, outcomes, 0);
    lemma_one_more(WatchPhase::Listen, outcomes, 1);
    if i > 2 {
        lemma_notified(outcomes, n, i - 1);
        lemma_one_more(WatchPhase::Listen, outcomes, i - 1);
        assert(outcomes[i - 1].0 == WatchOutcome::Notified);
    }
}

/// A stop behind a round ends the watch for good.
pub proof fn law_stop_after_a_round(
    outcomes: Seq<(WatchOutcome, u64)>,
    n: int,
    stop: (WatchOutcome, u64),
    later: Seq<(WatchOutcome, u64)>,
)
    requires
        is_round(outcomes, n),
        is_stop(stop.0),
    ensures
        phase_after(WatchPhase::Listen, outcomes.push(stop) + later) == WatchPhase::Ended,
    decreases later.len(),
{
    let all = outcomes.push(stop) + later;
    if later.len() == 0 {
        law_round_goes_in_order(outcomes, n);
        assert(all =~= outcomes.push(stop));
        assert(all.drop_last() =~= outcomes);
        assert(all.last() == stop);
    } else {
        law_stop_after_a_round(outcomes, n, stop, later.drop_last());
        assert(all.drop_last() =~= outcomes.push(stop) + later.drop_last());
    }
}

} // verus!
