//! The kill switch.
//!
//! # Hold the publish queue; do not drain it
//!
//! The run queue drains to cancelled: those reviews were interrupted and are not worth
//! resuming half-done. The publish queue is held: every pending action stays where it is and
//! goes out when somebody resumes. Pause means stop, not undo.
//!
//! # Paused is persisted, because a crash is not consent
//!
//! The most likely reason a paused daemon restarts is that something went wrong, which is the
//! worst moment to start writing to other people's systems again.

use vstd::prelude::*;

use crate::clock::Timestamp;
use crate::model::RunStatus;
use crate::text::{cat5, count, decimal};

verus! {

/// The audit event for engaging the switch.
pub const AUDIT_KIND_PAUSED: &'static str = "kill_switch_engaged";

/// The audit event for releasing it.
pub const AUDIT_KIND_RESUMED: &'static str = "kill_switch_released";

/// The run statuses a pause cancels: anything not yet finished. Rewriting a finished run would
/// falsify history.
pub const CANCELLABLE: [RunStatus; 6] = [
    RunStatus::Queued,
    RunStatus::Preparing,
    RunStatus::Reviewing,
    RunStatus::Synthesizing,
    RunStatus::Publishing,
    RunStatus::AwaitingApproval,
];

/// Whether a run in this state is finished.
pub open spec fn is_finished(status: RunStatus) -> bool {
    status == RunStatus::Done || status == RunStatus::Failed || status == RunStatus::Skipped || status
        == RunStatus::Cancelled
}

/// Whether a pause cancels a run in this state.
pub fn cancels(status: RunStatus) -> (r: bool)
    ensures
        r == !is_finished(status),
{
    matches!(
        status,
        RunStatus::Queued
        | RunStatus::Preparing
        | RunStatus::Reviewing
        | RunStatus::Synthesizing
        | RunStatus::Publishing
        | RunStatus::AwaitingApproval
    )
}

/// Whether the publish queue may dispatch right now: a gate on dispatch, not a filter on rows.
pub fn may_dispatch(paused: bool) -> (r: bool)
    ensures
        r == !paused,
{
    !paused
}

/// What a pause did.
#[derive(Clone, Debug, PartialEq, Eq)]
pub struct PauseReport {
    /// Runs moved to cancelled.
    pub runs_cancelled: Vec<i64>,
    /// Publish actions left pending, deliberately.
    pub actions_held: usize,
}

/// The runs of a list that a pause cancels, in order.
pub open spec fn cancelled_by_pause(runs: Seq<(i64, RunStatus)>) -> Seq<i64>
    decreases runs.len(),
{
    if runs.len() == 0 {
        Seq::empty()
    } else if is_finished(runs.last().1) {
        cancelled_by_pause(runs.drop_last())
    } else {
        cancelled_by_pause(runs.drop_last()).push(runs.last().0)
    }
}

impl PauseReport {
    /// What a pause does to runs in these states, with so many actions waiting to be sent.
    pub fn of(runs: &Vec<(i64, RunStatus)>, actions_held: usize) -> (r: PauseReport)
        ensures
            r.runs_cancelled@ == cancelled_by_pause(runs@),
            r.actions_held == actions_held,
    {
        let mut runs_cancelled: Vec<i64> = Vec::new();
        let mut i: usize = 0;
        assert(runs@.take(0) =~= Seq::empty());
        while i < runs.len()
            invariant
                i <= runs.len(),
                runs_cancelled@ == cancelled_by_pause(runs@.take(i as int)),
            decreases runs.len() - i,
        {
            assert(runs@.take(i + 1).drop_last() =~= runs@.take(i as int));
            let (id, status) = runs[i];
            if cancels(status) {
                runs_cancelled.push(id);
            }
            i += 1;
        }
        assert(runs@.take(runs@.len() as int) =~= runs@);
        PauseReport { runs_cancelled, actions_held }
    }

    /// The line the terminal prints. It names what is waiting, not only what stopped, so that
    /// resuming later comes as no surprise.
    pub fn summary(&self) -> (r: String)
        ensures
            r@ == "cancelled "@ + decimal(self.runs_cancelled@.len()) + " run(s); "@ + decimal(
                self.actions_held as nat,
            ) + " publish action(s) held and will be sent on resume"@,
    {
        cat5(
            "cancelled ",
            count(self.runs_cancelled.len()).as_str(),
            " run(s); ",
            count(self.actions_held).as_str(),
            " publish action(s) held and will be sent on resume",
        )
    }
}

/// The audit detail for engaging or releasing the switch.
#[derive(Clone, Debug, PartialEq, Eq)]
pub struct SwitchDetail {
    /// Whether it is engaged.
    pub engaged: bool,
    /// Runs moved to cancelled.
    pub runs_cancelled: Vec<i64>,
    /// Publish actions left pending.
    pub actions_held: usize,
    /// When, as RFC 3339 writes it.
    pub at: String,
}

/// The audit detail for engaging or releasing the switch.
pub fn switch_detail(engaged: bool, report: &PauseReport, at: Timestamp) -> (r: SwitchDetail)
    requires
        at.in_calendar(),
    ensures
        r.engaged == engaged,
        r.runs_cancelled@ == report.runs_cancelled@,
        r.actions_held == report.actions_held,
        r.at@ == at.rfc3339(),
{
    let mut runs_cancelled: Vec<i64> = Vec::new();
    let mut i: usize = 0;
    while i < report.runs_cancelled.len()
        invariant
            i <= report.runs_cancelled.len(),
            runs_cancelled@ == report.runs_cancelled@.take(i as int),
        decreases report.runs_cancelled.len() - i,
    {
        runs_cancelled.push(report.runs_cancelled[i]);
        assert(report.runs_cancelled@.take(i + 1) =~= report.runs_cancelled@.take(i as int).push(
            report.runs_cancelled@[i as int],
        ));
        i += 1;
    }
    assert(report.runs_cancelled@.take(report.runs_cancelled@.len() as int) =~= report.runs_cancelled@);
    SwitchDetail { engaged, runs_cancelled, actions_held: report.actions_held, at: at.to_rfc3339() }
}

/// Whether a process may be signalled at all. Signalling zero means every process of one's
/// own group, and one is init: a stored zero or one is corrupt data, not an orphan.
pub fn is_signallable(pid: u32) -> (r: bool)
    ensures
        r == (pid > 1),
{
    pid > 1
}

/// The process that a recorded number names, when it may be signalled and the system can have
/// such a process.
pub fn signal_target(pid: u32) -> (r: Option<i32>)
    ensures
        r == if 1 < pid <= i32::MAX {
            Some(pid as i32)
        } else {
            None::<i32>
        },
        r matches Some(raw) ==> raw > 1,
{
    if is_signallable(pid) && pid <= i32::MAX as u32 {
        Some(pid as i32)
    } else {
        None
    }
}

// --- what holds of every pause ---

/// A pause rewrites no finished run, and leaves none unfinished.
pub proof fn a_pause_cancels_exactly_what_is_unfinished(runs: Seq<(i64, RunStatus)>, i: int)
    requires
        0 <= i < runs.len(),
        !is_finished(runs[i].1),
    ensures
        cancelled_by_pause(runs).contains(runs[i].0),
    decreases runs.len(),
{
    let before = cancelled_by_pause(runs.drop_last());
    if i == runs.len() - 1 {
        assert(before.push(runs[i].0)[before.len() as int] == runs[i].0);
    } else {
        assert(runs.drop_last()[i] == runs[i]);
        a_pause_cancels_exactly_what_is_unfinished(runs.drop_last(), i);
        let k = choose|k: int| 0 <= k < before.len() && before[k] == runs[i].0;
        if !is_finished(runs.last().1) {
            assert(before.push(runs.last().0)[k] == runs[i].0);
        }
    }
}

/// What a pause cancels was unfinished.
pub proof fn a_pause_rewrites_no_finished_run(runs: Seq<(i64, RunStatus)>, id: i64)
    requires
        cancelled_by_pause(runs).contains(id),
    ensures
        exists|i: int| 0 <= i < runs.len() && (#[trigger] runs[i]).0 == id && !is_finished(runs[i].1),
    decreases runs.len(),
{
    let before = cancelled_by_pause(runs.drop_last());
    if runs.len() > 0 {
        if !is_finished(runs.last().1) && runs.last().0 == id {
            assert(runs[runs.len() - 1].0 == id);
        } else {
            let all = cancelled_by_pause(runs);
            let k = choose|k: int| 0 <= k < all.len() && all[k] == id;
            assert(before[k] == id);
            a_pause_rewrites_no_finished_run(runs.drop_last(), id);
            let i = choose|i: int|
                0 <= i < runs.drop_last().len() && (#[trigger] runs.drop_last()[i]).0 == id && !is_finished(
                    runs.drop_last()[i].1,
                );
            assert(runs[i].0 == id);
        }
    }
}

/// Which runs a pause cancels: those that wait, are under way or wait for a person; and none that
/// is done, failed, skipped or cancelled already.
pub proof fn a_pause_cancels_what_is_in_flight(runs: Seq<(i64, RunStatus)>, id: i64)
    ensures
        cancelled_by_pause(runs).contains(id) == exists|i: int|
            0 <= i < runs.len() && (#[trigger] runs[i]).0 == id && (runs[i].1 == RunStatus::Queued || runs[i].1
                == RunStatus::Preparing || runs[i].1 == RunStatus::Reviewing || runs[i].1
                == RunStatus::Synthesizing || runs[i].1 == RunStatus::Publishing || runs[i].1
                == RunStatus::AwaitingApproval),
{
    if cancelled_by_pause(runs).contains(id) {
        a_pause_rewrites_no_finished_run(runs, id);
    }
    assert forall|i: int| 0 <= i < runs.len() && (#[trigger] runs[i]).0 == id && !is_finished(runs[i].1) implies
        cancelled_by_pause(runs).contains(id) by {
        a_pause_cancels_exactly_what_is_unfinished(runs, i);
    }
}

} // verus!
