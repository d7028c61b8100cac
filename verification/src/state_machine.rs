//! Run stage transitions and crash recovery.
//!
//! A daemon that dies mid-review leaves a run stuck in a stage that nothing will ever move it
//! out of. On startup such runs are failed as interrupted and queued again, a limited number
//! of times: a change that crashes the daemon crashes it again on the next attempt, and
//! without a ceiling it would be all that is ever reviewed.

use vstd::prelude::*;

use crate::clock::Timestamp;
use crate::model::{Run, RunStatus, Usage};
use crate::text::{cat3, cat7, decimal, num, stands_inside, within};

verus! {

/// How many attempts one change gets by default.
pub const DEFAULT_MAX_ATTEMPTS: u32 = 3;

/// The error recorded for a run the daemon abandoned by dying.
pub const INTERRUPTED: &'static str = "interrupted";

/// The attempt ceiling in force. Zero would mean to give up before trying, which is a mistake
/// rather than an instruction.
pub fn max_attempts_from(configured: u32) -> (r: u32)
    ensures
        r == if configured == 0 {
            1
        } else {
            configured
        },
{
    if configured == 0 {
        1
    } else {
        configured
    }
}

/// Something that happened to a run, for the live feed.
#[derive(Clone, Debug, PartialEq, Eq)]
pub enum RunEvent {
    /// A run moved between stages.
    StageChanged {
        /// Which run.
        run: i64,
        /// Where it was.
        from: RunStatus,
        /// Where it is now.
        to: RunStatus,
    },
    /// A run was found abandoned and failed as interrupted.
    Interrupted {
        /// Which run.
        run: i64,
        /// The stage it was stuck in, which says where the daemon died.
        stuck_in: RunStatus,
    },
    /// An interrupted run was queued again as a new attempt.
    ReEnqueued {
        /// The run that was interrupted.
        previous: i64,
        /// Its successor.
        run: i64,
        /// Which attempt the successor is.
        attempt: u32,
    },
    /// An interrupted run was not queued again, and why: a change that stops being reviewed
    /// with no record looks like one that was reviewed and found clean.
    GivenUp {
        /// Which run.
        run: i64,
        /// Why no further attempt was made.
        reason: String,
    },
}

/// Where run events go.
pub trait RunEventSink {
    /// Record one event. Must not block or fail the transition that produced it.
    fn emit(&self, event: RunEvent);
}

/// A sink that drops everything, for callers with no UI.
pub struct NullSink;

impl RunEventSink for NullSink {
    fn emit(&self, event: RunEvent) {
        let _ = event;
    }
}

/// What a recovery pass did.
#[derive(Clone, Debug, PartialEq, Eq)]
pub struct RecoveryReport {
    /// Runs failed as interrupted.
    pub interrupted: Vec<i64>,
    /// New runs created to retry them.
    pub re_enqueued: Vec<i64>,
    /// Runs abandoned, with the reason.
    pub given_up: Vec<(i64, String)>,
}

/// The runs abandoned and why.
pub open spec fn abandoned(v: Seq<(i64, String)>) -> Seq<(i64, Seq<char>)> {
    v.map_values(|p: (i64, String)| (p.0, p.1@))
}

/// Whether a run is a fresh attempt at the change of another: it has spent nothing, seen
/// nothing and salvaged nothing, so that the budget is not charged twice for work that was
/// thrown away.
pub open spec fn succeeds(next: Run, run: Run, now: Timestamp) -> bool {
    &&& next.id == 0
    &&& next.change_id == run.change_id
    &&& next.attempt == run.attempt + 1
    &&& next.status == RunStatus::Queued
    &&& next.engine == run.engine
    &&& next.depth == run.depth
    &&& next.trigger == run.trigger
    &&& next.skip_reason is None
    &&& next.error is None
    &&& next.error_detail is None
    &&& next.degraded is None
    &&& next.usage == Usage::zero()
    &&& next.started_at is None
    &&& next.finished_at is None
    &&& next.transcript_path is None
    &&& !next.truncated
    &&& next.omitted_files@.len() == 0
    &&& next.verdict is None
    &&& next.summary is None
    &&& next.created_at == now
}

/// Why an interrupted run is not tried again.
pub open spec fn exhausted_reason(run: Run, max_attempts: u32) -> Seq<char> {
    "attempt "@ + decimal(run.attempt as nat) + " of "@ + decimal(max_attempts as nat)
        + " was interrupted in `"@ + run.status.word()
        + "`; not retrying, because a change that keeps interrupting the daemon will keep interrupting it"@
}

/// Why an interrupted run gets no second successor.
pub open spec fn exists_reason(attempt: nat) -> Seq<char> {
    "attempt "@ + decimal(attempt) + " already exists; a previous recovery pass created it"@
}

/// What is to be done about a run found abandoned.
#[derive(Clone, Debug, PartialEq, Eq)]
pub enum Recovery {
    /// It has had its attempts.
    GiveUp,
    /// It is tried again.
    Retry(Run),
}

impl RecoveryReport {
    /// A pass that has found nothing yet.
    pub fn new() -> (r: RecoveryReport)
        ensures
            r.interrupted@.len() == 0,
            r.re_enqueued@.len() == 0,
            r.given_up@.len() == 0,
    {
        RecoveryReport { interrupted: Vec::new(), re_enqueued: Vec::new(), given_up: Vec::new() }
    }

    /// Whether the pass found anything to do.
    pub fn is_empty(&self) -> (r: bool)
        ensures
            r == (self.interrupted@.len() == 0 && self.re_enqueued@.len() == 0 && self.given_up@.len()
                == 0),
    {
        self.interrupted.is_empty() && self.re_enqueued.is_empty() && self.given_up.is_empty()
    }

    /// Take note of a run that was failed as interrupted. That comes first: if the process dies
    /// again mid-recovery, the next pass sees a finished run and queues no second successor.
    pub fn found(&mut self, run: &Run) -> (r: RunEvent)
        ensures
            r == (RunEvent::Interrupted { run: run.id, stuck_in: run.status }),
            final(self).interrupted@ == old(self).interrupted@.push(run.id),
            final(self).re_enqueued == old(self).re_enqueued,
            final(self).given_up == old(self).given_up,
    {
        self.interrupted.push(run.id);
        RunEvent::Interrupted { run: run.id, stuck_in: run.status }
    }

    fn abandon(&mut self, run: i64, reason: String) -> (r: RunEvent)
        ensures
            r is GivenUp,
            r->GivenUp_run == run,
            r->reason@ == reason@,
            abandoned(final(self).given_up@) == abandoned(old(self).given_up@).push((run, reason@)),
            final(self).interrupted == old(self).interrupted,
            final(self).re_enqueued == old(self).re_enqueued,
    {
        let ghost before = self.given_up@;
        self.given_up.push((run, reason.clone()));
        assert(abandoned(self.given_up@) =~= abandoned(before).push((run, reason@)));
        RunEvent::GivenUp { run, reason }
    }

    /// Give up on a run that has had its attempts.
    pub fn exhausted(&mut self, run: &Run, max_attempts: u32) -> (r: RunEvent)
        ensures
            r is GivenUp,
            r->GivenUp_run == run.id,
            r->reason@ == exhausted_reason(*run, max_attempts),
            abandoned(final(self).given_up@) == abandoned(old(self).given_up@).push(
                (run.id, exhausted_reason(*run, max_attempts)),
            ),
            final(self).interrupted == old(self).interrupted,
            final(self).re_enqueued == old(self).re_enqueued,
    {
        let reason = cat7(
            "attempt ",
            num(run.attempt as u64).as_str(),
            " of ",
            num(max_attempts as u64).as_str(),
            " was interrupted in `",
            run.status.as_str(),
            "`; not retrying, because a change that keeps interrupting the daemon will keep interrupting it",
        );
        self.abandon(run.id, reason)
    }

    /// Take note of the attempt that was queued in a run's place.
    pub fn retried(&mut self, run: &Run, created: i64, attempt: u32) -> (r: RunEvent)
        ensures
            r == (RunEvent::ReEnqueued { previous: run.id, run: created, attempt }),
            final(self).re_enqueued@ == old(self).re_enqueued@.push(created),
            final(self).interrupted == old(self).interrupted,
            final(self).given_up == old(self).given_up,
    {
        self.re_enqueued.push(created);
        RunEvent::ReEnqueued { previous: run.id, run: created, attempt }
    }

    /// Leave it at the attempt that is there already: a previous pass got this far, which is a
    /// success and keeps recovery from looping.
    pub fn already_retried(&mut self, run: &Run, attempt: u32) -> (r: RunEvent)
        ensures
            r is GivenUp,
            r->GivenUp_run == run.id,
            r->reason@ == exists_reason(attempt as nat),
            abandoned(final(self).given_up@) == abandoned(old(self).given_up@).push(
                (run.id, exists_reason(attempt as nat)),
            ),
            final(self).interrupted == old(self).interrupted,
            final(self).re_enqueued == old(self).re_enqueued,
    {
        let reason = cat3(
            "attempt ",
            num(attempt as u64).as_str(),
            " already exists; a previous recovery pass created it",
        );
        self.abandon(run.id, reason)
    }
}

/// Decide what to do about a run found abandoned.
pub fn recover(run: &Run, max_attempts: u32, now: Timestamp) -> (r: Recovery)
    ensures
        r is GiveUp == (run.attempt >= max_attempts),
        r matches Recovery::Retry(next) ==> succeeds(next, *run, now) && next.attempt <= max_attempts,
{
    if run.attempt >= max_attempts {
        return Recovery::GiveUp;
    }
    Recovery::Retry(
        Run {
            id: 0,
            change_id: run.change_id,
            attempt: run.attempt + 1,
            status: RunStatus::Queued,
            engine: run.engine,
            depth: run.depth,
            trigger: run.trigger,
            skip_reason: None,
            error: None,
            error_detail: None,
            degraded: None,
            usage: Usage::none(),
            started_at: None,
            finished_at: None,
            transcript_path: None,
            truncated: false,
            omitted_files: Vec::new(),
            verdict: None,
            summary: None,
            created_at: now,
        },
    )
}

/// The moment before which a run that was not touched counts as abandoned.
pub fn stale_before(now: Timestamp, stale_after_nanos: i64) -> (r: Timestamp)
    requires
        now.in_calendar(),
    ensures
        r.nanos == now.nanos - stale_after_nanos,
{
    Timestamp { nanos: now.nanos - stale_after_nanos as i128 }
}

/// Announce a move between stages that the store has made. After it, never before: an event
/// for a move that did not happen would show a stage that nothing can move a run out of.
pub fn stage_changed(run: i64, from: RunStatus, to: RunStatus) -> (r: RunEvent)
    ensures
        r == (RunEvent::StageChanged { run, from, to }),
{
    RunEvent::StageChanged { run, from, to }
}

// --- what holds of recovery ---

/// How many more times a run can be tried.
pub open spec fn attempts_left(run: Run, max_attempts: u32) -> int {
    if run.attempt >= max_attempts {
        0
    } else {
        max_attempts - run.attempt
    }
}

/// A change that keeps interrupting the daemon is given up on: every attempt leaves one fewer,
/// and with none left there is no successor.
pub proof fn recovery_ends(next: Run, run: Run, now: Timestamp, max_attempts: u32)
    requires
        run.attempt < max_attempts,
        succeeds(next, run, now),
    ensures
        attempts_left(next, max_attempts) == attempts_left(run, max_attempts) - 1,
        attempts_left(next, max_attempts) == 0 ==> next.attempt >= max_attempts,
{
}

/// A retry starts clean: it is the next attempt at the same change, by the same engine, at the same
/// depth and for the same trigger, it waits to be started, and it has spent, found and said nothing.
pub proof fn a_retry_starts_clean(next: Run, run: Run, now: Timestamp)
    requires
        succeeds(next, run, now),
    ensures
        next.attempt == run.attempt + 1,
        next.change_id == run.change_id,
        next.engine == run.engine,
        next.depth == run.depth,
        next.trigger == run.trigger,
        next.status == RunStatus::Queued,
        next.usage == Usage::zero(),
        next.error is None && next.error_detail is None && next.degraded is None && next.skip_reason is None,
        next.started_at is None && next.finished_at is None && next.transcript_path is None,
        next.verdict is None && next.summary is None,
        !next.truncated && next.omitted_files@.len() == 0,
        next.created_at == now,
{
}

/// Giving up says which attempt it was, of how many, and where it was interrupted.
pub proof fn giving_up_says_why(run: Run, max_attempts: u32)
    ensures
        within(exhausted_reason(run, max_attempts), decimal(run.attempt as nat)),
        within(exhausted_reason(run, max_attempts), decimal(max_attempts as nat)),
        within(exhausted_reason(run, max_attempts), run.status.word()),
        within(exists_reason(run.attempt as nat), decimal(run.attempt as nat)),
{
    let all = exhausted_reason(run, max_attempts);
    let a = decimal(run.attempt as nat);
    let m = decimal(max_attempts as nat);
    let w = run.status.word();
    let tail =
        "`; not retrying, because a change that keeps interrupting the daemon will keep interrupting it"@;
    let one = " of "@ + m + " was interrupted in `"@ + w + tail;
    stands_inside("attempt "@, a, one);
    assert("attempt "@ + a + one =~= all);
    let two = " was interrupted in `"@ + w + tail;
    stands_inside("attempt "@ + a + " of "@, m, two);
    assert("attempt "@ + a + " of "@ + m + two =~= all);
    stands_inside("attempt "@ + a + " of "@ + m + " was interrupted in `"@, w, tail);
    stands_inside("attempt "@, a, " already exists; a previous recovery pass created it"@);
}

} // verus!
