//! Manual review and resumable backfill.
//!
//! # Backfill is the one operation that can starve everything else
//!
//! Four years of history are tens of thousands of commits. If they sat in the same queue as
//! live work, the commit somebody just pushed would be reviewed after all of them. So
//! backfill goes strictly behind live work, and asks at every step.
//!
//! # Resumable means the cursor advances per item, not per run
//!
//! The cursor moves after each item, never in a batch at the end: interrupting a long sweep
//! is the expected way to stop one.
//!
//! # A dry run costs nothing
//!
//! Planning and executing are separate: a plan is made without anything that could spend.

use vstd::prelude::*;

use crate::budgets::BudgetVerdict;
use crate::clock::Timestamp;
use crate::executor::RunOutcome;
use crate::model::{RunStatus, TriggerSource};
use crate::text::{
    cat2, cat3, cat4, cat6, count, decimal, first_index, first_index_is, first_index_none, opt_str, opt_text,
    same, stands_inside, texts, within,
};

verus! {

/// The cursor scope of a backfill, distinct from that of discovery.
pub fn backfill_scope(stream: &str) -> (r: String)
    ensures
        r@ == "backfill:"@ + stream@,
{
    cat2("backfill:", stream)
}

/// Where a backfill starts, in the user's own words: a date, a sha or a revision number is
/// interpreted where the repository's kind is known.
#[derive(Clone, Debug, PartialEq, Eq)]
pub struct Since(pub String);

/// One historical change a backfill would review.
#[derive(Clone, Debug, PartialEq, Eq)]
pub struct BackfillItem {
    /// The change's identity in its own system.
    pub external_id: String,
    /// A one-line description for the dry-run listing.
    pub summary: String,
}

/// What an item holds.
pub struct ItemView {
    /// The change's identity.
    pub external_id: Seq<char>,
    /// A one-line description.
    pub summary: Seq<char>,
}

impl View for BackfillItem {
    type V = ItemView;

    open spec fn view(&self) -> ItemView {
        ItemView { external_id: self.external_id@, summary: self.summary@ }
    }
}

/// What each item of a list holds.
pub open spec fn item_views(v: Seq<BackfillItem>) -> Seq<ItemView> {
    v.map_values(|i: BackfillItem| i@)
}

fn copy_item(item: &BackfillItem) -> (r: BackfillItem)
    ensures
        r@ == item@,
        r == *item,
{
    BackfillItem { external_id: item.external_id.clone(), summary: item.summary.clone() }
}

/// What a backfill would do, without doing it.
#[derive(Clone, Debug, PartialEq, Eq)]
pub struct BackfillPlan {
    /// Which repository.
    pub repo_id: i64,
    /// The cursor scope this backfill advances.
    pub scope: String,
    /// Where it resumed from, if it did.
    pub resumed_from: Option<String>,
    /// The items it would review, in order.
    pub items: Vec<BackfillItem>,
    /// How many candidates the limit excluded. "Showing 50 of 3,000" and "there are 50" are
    /// different statements.
    pub excluded_by_limit: usize,
}

impl BackfillPlan {
    /// The lines a dry run prints.
    pub open spec fn listing(self) -> Seq<Seq<char>> {
        let n = decimal(self.items@.len());
        let head = match self.resumed_from {
            Some(cursor) => "resuming "@ + self.scope@ + " after "@ + cursor@ + ": "@ + n
                + " change(s) to review"@,
            None => self.scope@ + ": "@ + n + " change(s) to review"@,
        };
        let more: Seq<Seq<char>> = if self.excluded_by_limit > 0 {
            seq![
                "  "@ + decimal(self.excluded_by_limit as nat)
                    + " more match --since and were excluded by --limit"@,
            ]
        } else {
            seq![]
        };
        seq![head] + more + item_views(self.items@).map_values(
            |i: ItemView| "  "@ + i.external_id + " "@ + i.summary,
        )
    }

    /// How many changes would be reviewed.
    pub fn len(&self) -> (r: usize)
        ensures
            r == self.items@.len(),
    {
        self.items.len()
    }

    /// Whether there is nothing to do.
    pub fn is_empty(&self) -> (r: bool)
        ensures
            r == (self.items@.len() == 0),
    {
        self.items.is_empty()
    }

    /// The lines a dry run prints.
    pub fn summary_lines(&self) -> (r: Vec<String>)
        ensures
            texts(r@) == self.listing(),
    {
        let n = count(self.items.len());
        let mut lines: Vec<String> = Vec::new();
        match &self.resumed_from {
            Some(cursor) => {
                let mut head = cat6(
                    "resuming ",
                    self.scope.as_str(),
                    " after ",
                    cursor.as_str(),
                    ": ",
                    n.as_str(),
                );
                head.append(" change(s) to review");
                lines.push(head);
            },
            None => {
                lines.push(cat4(self.scope.as_str(), ": ", n.as_str(), " change(s) to review"));
            },
        }
        if self.excluded_by_limit > 0 {
            lines.push(
                cat3(
                    "  ",
                    count(self.excluded_by_limit).as_str(),
                    " more match --since and were excluded by --limit",
                ),
            );
        }
        let ghost head = texts(lines@);
        let ghost show = |i: ItemView| "  "@ + i.external_id + " "@ + i.summary;
        let ghost shown = item_views(self.items@).map_values(show);
        let mut i: usize = 0;
        assert(head + shown.take(0) =~= head);
        while i < self.items.len()
            invariant
                i <= self.items.len(),
                show == (|i: ItemView| "  "@ + i.external_id + " "@ + i.summary),
                shown == item_views(self.items@).map_values(show),
                texts(lines@) == head + shown.take(i as int),
            decreases self.items.len() - i,
        {
            let ghost before = lines@;
            lines.push(
                cat4(
                    "  ",
                    self.items[i].external_id.as_str(),
                    " ",
                    self.items[i].summary.as_str(),
                ),
            );
            proof {
                assert(texts(lines@) =~= texts(before).push(shown[i as int]));
                assert(head + shown.take(i + 1) =~= (head + shown.take(i as int)).push(shown[i as int]));
            }
            i += 1;
        }
        proof {
            assert(shown.take(shown.len() as int) =~= shown);
            assert(texts(lines@) =~= self.listing());
        }
        lines
    }
}

/// Whether an item is the one that a cursor names.
pub open spec fn named_by(cursor: Seq<char>) -> spec_fn(BackfillItem) -> bool {
    |i: BackfillItem| i.external_id@ == cursor
}

/// Where the item that a cursor names stands.
pub open spec fn cursor_index(candidates: Seq<BackfillItem>, cursor: Seq<char>) -> Option<int> {
    first_index(candidates, named_by(cursor))
}

/// What is left of the candidates: all of them, or those after the cursor. The cursor's own
/// item is done. A cursor that names none of them starts over: reviewing twice is wasteful,
/// skipping is wrong.
pub open spec fn after_cursor(candidates: Seq<BackfillItem>, resume: Option<Seq<char>>) -> Seq<BackfillItem> {
    match resume {
        Some(cursor) => match cursor_index(candidates, cursor) {
            Some(at) => candidates.skip(at + 1),
            None => candidates,
        },
        None => candidates,
    }
}

/// Where a backfill goes on from: the cursor, where it names one of the candidates. One that
/// names none of them starts over, so it goes on from nowhere.
pub open spec fn goes_on_from(candidates: Seq<BackfillItem>, resume: Option<Seq<char>>) -> Option<Seq<char>> {
    match resume {
        Some(cursor) => if cursor_index(candidates, cursor) is Some {
            Some(cursor)
        } else {
            None
        },
        None => None,
    }
}

/// The first items, as many as the limit allows.
pub open spec fn limited(items: Seq<BackfillItem>, limit: Option<usize>) -> Seq<BackfillItem> {
    match limit {
        Some(most) => if items.len() > most {
            items.take(most as int)
        } else {
            items
        },
        None => items,
    }
}

/// Enumerate what a backfill would review.
///
/// `candidates` is what was found since the starting point, oldest first. `resume` is the
/// cursor's current value, if it has one.
pub fn plan(
    repo_id: i64,
    scope: &str,
    candidates: &Vec<BackfillItem>,
    resume: Option<&str>,
    limit: Option<usize>,
) -> (r: BackfillPlan)
    ensures
        r.repo_id == repo_id,
        r.scope@ == scope@,
        opt_text(r.resumed_from) == goes_on_from(candidates@, opt_str(resume)),
        r.items@ == limited(after_cursor(candidates@, opt_str(resume)), limit),
        r.excluded_by_limit == after_cursor(candidates@, opt_str(resume)).len() - r.items@.len(),
{
    let mut start: usize = 0;
    let mut resumed_from: Option<String> = None;
    if let Some(cursor) = resume {
        let ghost at_cursor = named_by(cursor@);
        let mut found: Option<usize> = None;
        let mut i: usize = 0;
        while i < candidates.len() && found.is_none()
            invariant
                i <= candidates.len(),
                at_cursor == named_by(cursor@),
                match found {
                    Some(at) => at < candidates.len() && at_cursor(candidates@[at as int]) && forall|j: int|
                        0 <= j < at ==> !at_cursor(#[trigger] candidates@[j]),
                    None => forall|j: int| 0 <= j < i ==> !at_cursor(#[trigger] candidates@[j]),
                },
            decreases candidates.len() - i,
        {
            if same(candidates[i].external_id.as_str(), cursor) {
                found = Some(i);
            }
            i += 1;
        }
        match found {
            Some(at) => {
                proof {
                    first_index_is(candidates@, at_cursor, at as int);
                }
                start = at + 1;
                resumed_from = Some(cursor.to_owned());
            },
            None => {
                proof {
                    first_index_none(candidates@, at_cursor);
                }
            },
        }
    }
    let ghost rest = after_cursor(candidates@, opt_str(resume));
    assert(candidates@.skip(0) =~= candidates@);
    assert(rest =~= candidates@.skip(start as int));
    let left: usize = candidates.len() - start;
    let take: usize = match limit {
        Some(most) => if left > most {
            most
        } else {
            left
        },
        None => left,
    };
    let mut items: Vec<BackfillItem> = Vec::new();
    let mut k: usize = 0;
    while k < take
        invariant
            k <= take <= left,
            start + left == candidates.len(),
            items@ == candidates@.subrange(start as int, start + k),
        decreases take - k,
    {
        items.push(copy_item(&candidates[start + k]));
        assert(candidates@.subrange(start as int, start + k + 1) =~= candidates@.subrange(
            start as int,
            start + k,
        ).push(candidates@[start + k]));
        k += 1;
    }
    assert(items@ =~= limited(rest, limit));
    BackfillPlan {
        repo_id,
        scope: scope.to_owned(),
        resumed_from,
        items,
        excluded_by_limit: left - take,
    }
}

/// Why a backfill step did not run.
#[derive(Clone, Debug, PartialEq, Eq)]
pub enum Yielded {
    /// Live work is waiting. Backfill goes behind it, always.
    LiveWorkPending,
    /// The repository's budget is spent.
    BudgetExhausted {
        /// What to record on the item.
        reason: String,
    },
}

/// What a backfill step decided.
#[derive(Clone, Debug, PartialEq, Eq)]
pub enum Step {
    /// Review this item, then advance the cursor to it.
    Review(BackfillItem),
    /// Stand aside. The plan is not abandoned; it resumes when the reason clears.
    Yield(Yielded),
    /// Nothing left.
    Done,
}

/// What a step comes to.
pub enum StepView {
    /// Review an item.
    Review { item: ItemView },
    /// Live work is waiting.
    LiveWorkPending,
    /// The budget is spent.
    BudgetExhausted { reason: Seq<char> },
    /// Nothing left.
    Done,
}

impl View for Step {
    type V = StepView;

    open spec fn view(&self) -> StepView {
        match *self {
            Step::Review(item) => StepView::Review { item: item@ },
            Step::Yield(Yielded::LiveWorkPending) => StepView::LiveWorkPending,
            Step::Yield(Yielded::BudgetExhausted { reason }) => StepView::BudgetExhausted {
                reason: reason@,
            },
            Step::Done => StepView::Done,
        }
    }
}

/// Drives one backfill, yielding to live work at every step.
#[derive(Debug)]
pub struct Backfill {
    plan: BackfillPlan,
    position: usize,
    last_recorded: Option<String>,
}

impl Backfill {
    /// The plan being executed.
    pub closed spec fn planned(self) -> BackfillPlan {
        self.plan
    }

    /// How many items have been recorded.
    pub closed spec fn done(self) -> int {
        self.position as int
    }

    /// What the cursor holds.
    pub closed spec fn cursor(self) -> Option<Seq<char>> {
        opt_text(self.last_recorded)
    }

    /// What to do next.
    pub open spec fn step(self, live_pending: bool, budget: BudgetVerdict) -> StepView {
        let items = self.planned().items@;
        if live_pending {
            StepView::LiveWorkPending
        } else {
            match budget.why() {
                Some(reason) => StepView::BudgetExhausted { reason },
                None => if self.done() < items.len() {
                    StepView::Review { item: items[self.done()]@ }
                } else {
                    StepView::Done
                },
            }
        }
    }

    /// Start from a plan.
    pub fn new(plan: BackfillPlan) -> (r: Backfill)
        ensures
            r.planned() == plan,
            r.done() == 0,
            r.cursor() == opt_text(plan.resumed_from),
    {
        let last_recorded = plan.resumed_from.clone();
        Backfill { plan, position: 0, last_recorded }
    }

    /// Decide what to do next.
    ///
    /// `live_pending` is asked at every step: a check at the beginning alone would let the
    /// whole backlog run ahead of a commit pushed a minute later.
    pub fn next_step(&self, live_pending: bool, budget: &BudgetVerdict) -> (r: Step)
        ensures
            r@ == self.step(live_pending, *budget),
    {
        if live_pending {
            return Step::Yield(Yielded::LiveWorkPending);
        }
        if let Some(reason) = budget.reason() {
            return Step::Yield(Yielded::BudgetExhausted { reason: reason.to_owned() });
        }
        if self.position < self.plan.items.len() {
            Step::Review(copy_item(&self.plan.items[self.position]))
        } else {
            Step::Done
        }
    }

    /// Record that an item was reviewed, advancing the cursor to it.
    pub fn recorded(&mut self, item: &BackfillItem)
        ensures
            final(self).planned() == old(self).planned(),
            final(self).done() == if old(self).done() < usize::MAX {
                old(self).done() + 1
            } else {
                old(self).done()
            },
            final(self).cursor() == Some(item.external_id@),
    {
        self.position = self.position.saturating_add(1);
        self.last_recorded = Some(item.external_id.clone());
    }

    /// The value the cursor should hold right now.
    pub fn cursor_value(&self) -> (r: Option<&str>)
        ensures
            opt_str(r) == self.cursor(),
    {
        match &self.last_recorded {
            Some(value) => Some(value.as_str()),
            None => None,
        }
    }

    /// How many items are left.
    pub fn remaining(&self) -> (r: usize)
        ensures
            r == if self.done() < self.planned().items@.len() {
                self.planned().items@.len() - self.done()
            } else {
                0
            },
    {
        self.plan.items.len().saturating_sub(self.position)
    }

    /// How many have been recorded in this run.
    pub fn completed(&self) -> (r: usize)
        ensures
            r == self.done(),
    {
        self.position
    }

    /// The plan being executed.
    pub fn plan(&self) -> (r: &BackfillPlan)
        ensures
            *r == self.planned(),
    {
        &self.plan
    }
}

/// The trigger source a backfill's runs are recorded under.
pub const BACKFILL_TRIGGER: TriggerSource = TriggerSource::Backfill;

/// The trigger source a manual review is recorded under.
pub const MANUAL_TRIGGER: TriggerSource = TriggerSource::Manual;

/// A manual review request. It does not go through the trigger bus: a person naming a
/// revision has already decided, and coalescing it would review something else.
#[derive(Clone, Debug, PartialEq, Eq)]
pub struct ManualReview {
    /// Which repository.
    pub repo_id: i64,
    /// The revision the user named, verbatim.
    pub rev: String,
    /// When it was asked for.
    pub requested_at: Timestamp,
}

impl ManualReview {
    /// A request for one change.
    pub fn new(repo_id: i64, rev: &str, requested_at: Timestamp) -> (r: ManualReview)
        ensures
            r.repo_id == repo_id,
            r.rev@ == rev@,
            r.requested_at == requested_at,
    {
        ManualReview { repo_id, rev: rev.to_owned(), requested_at }
    }

    /// Whether a manual review yields to anything. It does not: a person is waiting for it.
    pub fn yields_to_live_work(&self) -> (r: bool)
        ensures
            !r,
    {
        false
    }
}

// --- what a sweep did ---

/// What one backfill actually did.
#[derive(Clone, Debug, PartialEq, Eq)]
pub struct BackfillOutcome {
    /// Reviews that finished, oldest first.
    pub reviewed: Vec<RunOutcome>,
    /// Items recorded this run: the cursor has advanced past each of them.
    pub completed: usize,
    /// Items still ahead of the cursor when this stopped.
    pub remaining: usize,
    /// Why it stopped before finishing, when it did. Standing aside, running out of budget and
    /// finishing the plan are three different outcomes.
    pub stopped: Option<String>,
    /// Where the cursor now points.
    pub cursor: Option<String>,
    /// Reviews that did not go ahead, and why.
    pub held: Vec<String>,
    /// Changes that are deliberately not reviewed, with the reason: a decision, where a held
    /// one is work that still wants doing.
    pub skipped: Vec<String>,
}

/// The line for one finished review.
pub open spec fn reviewed_line(o: RunOutcome) -> Seq<char> {
    "  reviewed "@ + o.change@ + " — "@ + match o.verdict {
        Some(v) => v@,
        None => "no verdict"@,
    } + " ("@ + decimal(o.findings as nat) + " finding(s), "@ + decimal(o.actions as nat)
        + " action(s), "@ + o.status@ + ")"@
}

impl BackfillOutcome {
    /// The lines a terminal prints after a backfill.
    pub open spec fn listing(self) -> Seq<Seq<char>> {
        let reviewed = self.reviewed@.map_values(|o: RunOutcome| reviewed_line(o));
        let skipped = texts(self.skipped@).map_values(|s: Seq<char>| "  skipped: "@ + s);
        let held = texts(self.held@).map_values(|s: Seq<char>| "  held: "@ + s);
        let stopped: Seq<Seq<char>> = match self.stopped {
            Some(why) => seq![
                "  stopped: "@ + why@,
                "  "@ + decimal(self.remaining as nat)
                    + " item(s) left; run the same command again to continue from the cursor"@,
            ],
            None => seq![],
        };
        reviewed + skipped + held + stopped
    }

    /// Whether the plan was worked to its end.
    pub fn finished_the_plan(&self) -> (r: bool)
        ensures
            r == (self.stopped is None),
    {
        self.stopped.is_none()
    }

    /// The lines a terminal prints after a backfill. Next to the reason it stopped stands how
    /// to go on: somebody who is not told would start over and review everything twice.
    pub fn summary_lines(&self) -> (r: Vec<String>)
        ensures
            texts(r@) == self.listing(),
    {
        let ghost line = |o: RunOutcome| reviewed_line(o);
        let ghost reviewed = self.reviewed@.map_values(line);
        let mut lines: Vec<String> = Vec::new();
        let mut i: usize = 0;
        assert(texts(lines@) =~= reviewed.take(0));
        while i < self.reviewed.len()
            invariant
                i <= self.reviewed.len(),
                line == (|o: RunOutcome| reviewed_line(o)),
                reviewed == self.reviewed@.map_values(line),
                texts(lines@) == reviewed.take(i as int),
            decreases self.reviewed.len() - i,
        {
            let ghost before = lines@;
            let o = &self.reviewed[i];
            let mut text = cat3("  reviewed ", o.change.as_str(), " — ");
            text.append(
                match &o.verdict {
                    Some(v) => v.as_str(),
                    None => "no verdict",
                },
            );
            text.append(" (");
            text.append(count(o.findings).as_str());
            text.append(" finding(s), ");
            text.append(count(o.actions).as_str());
            text.append(" action(s), ");
            text.append(o.status.as_str());
            text.append(")");
            lines.push(text);
            proof {
                assert(texts(lines@) =~= texts(before).push(reviewed[i as int]));
                assert(reviewed.take(i + 1) =~= reviewed.take(i as int).push(reviewed[i as int]));
            }
            i += 1;
        }
        assert(reviewed.take(reviewed.len() as int) =~= reviewed);
        push_labelled(&mut lines, "  skipped: ", &self.skipped);
        push_labelled(&mut lines, "  held: ", &self.held);
        let ghost so_far = texts(lines@);
        if let Some(why) = &self.stopped {
            lines.push(cat2("  stopped: ", why.as_str()));
            lines.push(
                cat3(
                    "  ",
                    count(self.remaining).as_str(),
                    " item(s) left; run the same command again to continue from the cursor",
                ),
            );
        }
        assert(texts(lines@) =~= self.listing());
        lines
    }
}

fn push_labelled(lines: &mut Vec<String>, label: &str, items: &Vec<String>)
    ensures
        texts(final(lines)@) == texts(old(lines)@) + texts(items@).map_values(
            |s: Seq<char>| label@ + s,
        ),
{
    let ghost show = |s: Seq<char>| label@ + s;
    let ghost shown = texts(items@).map_values(show);
    let ghost start = texts(lines@);
    let mut i: usize = 0;
    assert(start + shown.take(0) =~= start);
    while i < items.len()
        invariant
            i <= items.len(),
            show == (|s: Seq<char>| label@ + s),
            shown == texts(items@).map_values(show),
            texts(lines@) == start + shown.take(i as int),
        decreases items.len() - i,
    {
        let ghost before = lines@;
        lines.push(cat2(label, items[i].as_str()));
        proof {
            assert(texts(lines@) =~= texts(before).push(shown[i as int]));
            assert(start + shown.take(i + 1) =~= (start + shown.take(i as int)).push(shown[i as int]));
        }
        i += 1;
    }
    assert(shown.take(shown.len() as int) =~= shown);
}

// --- live work ---

/// Where a run waits or is under way.
pub const LIVE_STATUSES: [RunStatus; 4] = [
    RunStatus::Queued,
    RunStatus::Preparing,
    RunStatus::Reviewing,
    RunStatus::Synthesizing,
];

/// Whether a run in this state waits or is under way.
pub open spec fn is_under_way(status: RunStatus) -> bool {
    status == RunStatus::Queued || status == RunStatus::Preparing || status == RunStatus::Reviewing || status
        == RunStatus::Synthesizing
}

/// Whether a run in this state, started so, is live work: a person or a trigger asked for it,
/// and it waits or is under way.
pub open spec fn is_live(status: RunStatus, trigger: TriggerSource) -> bool {
    trigger != BACKFILL_TRIGGER && is_under_way(status)
}

fn under_way(status: RunStatus) -> (r: bool)
    ensures
        r == is_under_way(status),
{
    let mut i: usize = 0;
    while i < LIVE_STATUSES.len()
        invariant
            i <= LIVE_STATUSES@.len(),
            forall|j: int| 0 <= j < i ==> LIVE_STATUSES@[j] != status,
        decreases LIVE_STATUSES.len() - i,
    {
        if LIVE_STATUSES[i] == status {
            return true;
        }
        i += 1;
    }
    proof {
        assert(LIVE_STATUSES@[0] != status && LIVE_STATUSES@[1] != status);
        assert(LIVE_STATUSES@[2] != status && LIVE_STATUSES@[3] != status);
    }
    false
}

/// Whether a repository has live work waiting, given where its runs are and what started
/// them. Runs in flight count: an engine started beside one would be a second on the same
/// repository.
pub fn live_work_pending(runs: &Vec<(RunStatus, TriggerSource)>) -> (r: bool)
    ensures
        r == exists|i: int| 0 <= i < runs@.len() && is_live((#[trigger] runs@[i]).0, runs@[i].1),
{
    let mut i: usize = 0;
    while i < runs.len()
        invariant
            i <= runs.len(),
            forall|j: int| 0 <= j < i ==> !is_live((#[trigger] runs@[j]).0, runs@[j].1),
        decreases runs.len() - i,
    {
        let (status, trigger) = runs[i];
        if trigger != BACKFILL_TRIGGER && under_way(status) {
            assert(is_live(runs@[i as int].0, runs@[i as int].1));
            return true;
        }
        i += 1;
    }
    false
}

// --- the sweep ---

/// A backfill under way: the plan that it works through, and what has come of it.
#[derive(Debug)]
pub struct Sweep {
    driver: Backfill,
    outcome: BackfillOutcome,
}

impl Sweep {
    /// The plan, and how far it is done.
    pub closed spec fn progress(self) -> Backfill {
        self.driver
    }

    /// What has come of it so far.
    pub closed spec fn so_far(self) -> BackfillOutcome {
        self.outcome
    }

    /// Start a sweep.
    pub fn new(plan: BackfillPlan) -> (r: Sweep)
        ensures
            r.progress().planned() == plan,
            r.progress().done() == 0,
            r.progress().cursor() == opt_text(plan.resumed_from),
            r.so_far().reviewed@ == Seq::<RunOutcome>::empty(),
            r.so_far().completed == 0,
            r.so_far().remaining == 0,
            r.so_far().stopped is None,
            r.so_far().cursor is None,
            r.so_far().held@ == Seq::<String>::empty(),
            r.so_far().skipped@ == Seq::<String>::empty(),
    {
        Sweep {
            driver: Backfill::new(plan),
            outcome: BackfillOutcome {
                reviewed: Vec::new(),
                completed: 0,
                remaining: 0,
                stopped: None,
                cursor: None,
                held: Vec::new(),
                skipped: Vec::new(),
            },
        }
    }

    /// Stop because somebody asked to: a pause rather than a loss, since the cursor is at the
    /// last item recorded.
    pub fn cancel(&mut self)
        ensures
            final(self).progress() == old(self).progress(),
            final(self).so_far().stopped is Some,
            final(self).so_far().stopped->0@ == "cancelled; the cursor is at the last item reviewed"@,
            final(self).so_far() == (BackfillOutcome {
                stopped: final(self).so_far().stopped,
                ..old(self).so_far()
            }),
    {
        self.outcome.stopped = Some("cancelled; the cursor is at the last item reviewed".to_owned());
    }

    /// The next item to work on, or nothing when the sweep ends here, which is then said why
    /// unless the plan is done.
    pub fn next(&mut self, live_pending: bool, budget: &BudgetVerdict) -> (r: Option<BackfillItem>)
        ensures
            final(self).progress() == old(self).progress(),
            match old(self).progress().step(live_pending, *budget) {
                StepView::Review { item } => {
                    &&& r is Some
                    &&& r->0@ == item
                    &&& final(self).so_far() == old(self).so_far()
                },
                StepView::Done => r is None && final(self).so_far() == old(self).so_far(),
                StepView::LiveWorkPending => {
                    &&& r is None
                    &&& final(self).so_far() == (BackfillOutcome {
                        stopped: final(self).so_far().stopped,
                        ..old(self).so_far()
                    })
                    &&& opt_text(final(self).so_far().stopped) == Some(
                        "live work is waiting, and backfill goes behind it (§7.4)"@,
                    )
                },
                StepView::BudgetExhausted { reason } => {
                    &&& r is None
                    &&& final(self).so_far() == (BackfillOutcome {
                        stopped: final(self).so_far().stopped,
                        ..old(self).so_far()
                    })
                    &&& opt_text(final(self).so_far().stopped) == Some(reason)
                },
            },
    {
        match self.driver.next_step(live_pending, budget) {
            Step::Done => None,
            Step::Yield(Yielded::LiveWorkPending) => {
                self.outcome.stopped = Some(
                    "live work is waiting, and backfill goes behind it (§7.4)".to_owned(),
                );
                None
            },
            Step::Yield(Yielded::BudgetExhausted { reason }) => {
                self.outcome.stopped = Some(reason);
                None
            },
            Step::Review(item) => Some(item),
        }
    }

    /// An item that the enumeration does not hold: reported, never skipped past, since a sweep
    /// that quietly reviewed fewer commits than it listed would look like one that reviewed
    /// them all. The cursor moves with the next item that is worked on.
    pub fn not_enumerated(&mut self, item: &BackfillItem)
        ensures
            final(self).progress().planned() == old(self).progress().planned(),
            final(self).progress().cursor() == Some(item.external_id@),
            final(self).progress().done() == saturating_next(old(self).progress().done()),
            texts(final(self).so_far().held@) == texts(old(self).so_far().held@).push(
                item.external_id@
                    + ": planned but not among the enumerated changes, so there is nothing to review"@,
            ),
            final(self).so_far() == (BackfillOutcome {
                held: final(self).so_far().held,
                ..old(self).so_far()
            }),
    {
        let ghost before = self.outcome.held@;
        self.outcome.held.push(
            cat2(
                item.external_id.as_str(),
                ": planned but not among the enumerated changes, so there is nothing to review",
            ),
        );
        self.driver.recorded(item);
        assert(texts(self.outcome.held@) =~= texts(before).push(self.outcome.held@.last()@));
    }

    /// An item that is deliberately not reviewed. Returns where the cursor goes.
    pub fn skipped(&mut self, item: &BackfillItem, detail: &str) -> (r: String)
        ensures
            final(self).worked_on(*old(self), *item, r@),
            texts(final(self).so_far().skipped@) == texts(old(self).so_far().skipped@).push(
                item.external_id@ + ": "@ + detail@,
            ),
            final(self).so_far().held == old(self).so_far().held,
            final(self).so_far().reviewed == old(self).so_far().reviewed,
    {
        let ghost before = self.outcome.skipped@;
        self.outcome.skipped.push(cat3(item.external_id.as_str(), ": ", detail));
        assert(texts(self.outcome.skipped@) =~= texts(before).push(self.outcome.skipped@.last()@));
        self.advance(item)
    }

    /// An item that was worked on: reviewed, or refused with a reason. Returns where the cursor
    /// goes, in either case: the run is recorded with its outcome, and one broken commit must
    /// not be a wall that the sweep never gets past.
    pub fn attempted(&mut self, item: &BackfillItem, result: Result<RunOutcome, String>) -> (r: String)
        ensures
            final(self).worked_on(*old(self), *item, r@),
            final(self).so_far().skipped == old(self).so_far().skipped,
            match result {
                Ok(outcome) => {
                    &&& final(self).so_far().reviewed@ == old(self).so_far().reviewed@.push(outcome)
                    &&& final(self).so_far().held == old(self).so_far().held
                },
                Err(reason) => {
                    &&& final(self).so_far().reviewed == old(self).so_far().reviewed
                    &&& final(self).so_far().held@ == old(self).so_far().held@.push(reason)
                },
            },
    {
        match result {
            Ok(outcome) => {
                self.outcome.reviewed.push(outcome);
            },
            Err(reason) => {
                self.outcome.held.push(reason);
            },
        }
        self.advance(item)
    }

    /// Whether a sweep is one item further: recorded, counted, and with its cursor there.
    pub open spec fn worked_on(self, before: Sweep, item: BackfillItem, cursor: Seq<char>) -> bool {
        &&& self.progress().planned() == before.progress().planned()
        &&& self.progress().done() == saturating_next(before.progress().done())
        &&& self.progress().cursor() == Some(item.external_id@)
        &&& self.so_far().completed == self.progress().done()
        &&& opt_text(self.so_far().cursor) == Some(item.external_id@)
        &&& cursor == item.external_id@
        &&& self.so_far().remaining == before.so_far().remaining
        &&& self.so_far().stopped == before.so_far().stopped
    }

    fn advance(&mut self, item: &BackfillItem) -> (r: String)
        ensures
            final(self).worked_on(*old(self), *item, r@),
            final(self).so_far().held == old(self).so_far().held,
            final(self).so_far().reviewed == old(self).so_far().reviewed,
            final(self).so_far().skipped == old(self).so_far().skipped,
    {
        self.driver.recorded(item);
        self.outcome.completed = self.driver.completed();
        self.outcome.cursor = Some(item.external_id.clone());
        item.external_id.clone()
    }

    /// What the sweep did, with how much is done and how much is left.
    pub fn finish(self) -> (r: BackfillOutcome)
        ensures
            r == (BackfillOutcome { completed: r.completed, remaining: r.remaining, ..self.so_far() }),
            r.completed == self.progress().done(),
            r.remaining == if self.progress().done() < self.progress().planned().items@.len() {
                self.progress().planned().items@.len() - self.progress().done()
            } else {
                0
            },
    {
        let completed: usize = self.driver.completed();
        let remaining: usize = self.driver.remaining();
        let mut outcome = self.outcome;
        outcome.completed = completed;
        outcome.remaining = remaining;
        outcome
    }
}

/// One more, as far as can be counted.
pub open spec fn saturating_next(n: int) -> int {
    if n < usize::MAX {
        n + 1
    } else {
        n
    }
}

/// Where the change with an item's identity stands among those that were enumerated.
pub fn enumerated_at(ids: &Vec<String>, item: &BackfillItem) -> (r: Option<usize>)
    ensures
        match r {
            Some(i) => i < ids.len() && texts(ids@)[i as int] == item.external_id@ && forall|j: int|
                0 <= j < i ==> #[trigger] texts(ids@)[j] != item.external_id@,
            None => !texts(ids@).contains(item.external_id@),
        },
{
    let mut i: usize = 0;
    while i < ids.len()
        invariant
            i <= ids.len(),
            forall|j: int| 0 <= j < i ==> #[trigger] texts(ids@)[j] != item.external_id@,
        decreases ids.len() - i,
    {
        assert(texts(ids@)[i as int] == ids@[i as int]@);
        if same(ids[i].as_str(), item.external_id.as_str()) {
            return Some(i);
        }
        i += 1;
    }
    None
}

// --- what holds of every backfill ---

/// Whether no two items have the same identity.
pub open spec fn distinct(items: Seq<BackfillItem>) -> bool {
    forall|i: int, j: int|
        0 <= i < j < items.len() ==> (#[trigger] items[i]).external_id@ != (#[trigger] items[j]).external_id@
}

/// A backfill interrupted after so many items resumes with exactly the rest: nothing is
/// reviewed twice and nothing is left out.
pub proof fn resuming_continues_where_it_stopped(candidates: Seq<BackfillItem>, done: int)
    requires
        distinct(candidates),
        0 < done <= candidates.len(),
    ensures
        after_cursor(candidates, Some(candidates[done - 1].external_id@)) == candidates.skip(done),
        candidates.take(done) + after_cursor(candidates, Some(candidates[done - 1].external_id@))
            == candidates,
{
    let cursor = candidates[done - 1].external_id@;
    let named = named_by(cursor);
    assert forall|j: int| 0 <= j < done - 1 implies !named(#[trigger] candidates[j]) by {
        assert(candidates[j].external_id@ != candidates[done - 1].external_id@);
    }
    first_index_is(candidates, named, done - 1);
    assert(candidates.take(done) + candidates.skip(done) =~= candidates);
}

/// A limit and a resumed sweep together cover everything: the limited plan, and the plan that
/// continues from its last item.
pub proof fn a_limited_sweep_and_its_continuation_cover_everything(
    candidates: Seq<BackfillItem>,
    limit: usize,
)
    requires
        distinct(candidates),
        0 < limit < candidates.len(),
    ensures
        limited(candidates, Some(limit)) + after_cursor(
            candidates,
            Some(limited(candidates, Some(limit)).last().external_id@),
        ) == candidates,
{
    resuming_continues_where_it_stopped(candidates, limit as int);
    assert(candidates.take(limit as int).last() == candidates[limit - 1]);
}

/// A history that was rewritten under the cursor is started over rather than skipped.
pub proof fn a_lost_cursor_starts_over(candidates: Seq<BackfillItem>, cursor: Seq<char>)
    requires
        forall|i: int| 0 <= i < candidates.len() ==> (#[trigger] candidates[i]).external_id@ != cursor,
    ensures
        after_cursor(candidates, Some(cursor)) == candidates,
        goes_on_from(candidates, Some(cursor)) is None,
{
    first_index_none(candidates, named_by(cursor));
}

/// A single live trigger outranks the whole backlog, at every step.
pub proof fn live_work_outranks_the_backlog(driver: Backfill, budget: BudgetVerdict)
    ensures
        driver.step(true, budget) is LiveWorkPending,
        !(driver.step(true, budget) is Review),
{
}

/// What a plan goes through: what follows the cursor, in order and from the first item that it
/// names; everything where there is no cursor; and no more of it than the limit allows.
pub proof fn a_plan_goes_on_after_its_cursor(
    candidates: Seq<BackfillItem>,
    cursor: Seq<char>,
    at: int,
    limit: Option<usize>,
    k: int,
)
    requires
        0 <= at < candidates.len(),
        candidates[at].external_id@ == cursor,
        forall|j: int| 0 <= j < at ==> (#[trigger] candidates[j]).external_id@ != cursor,
    ensures
        goes_on_from(candidates, Some(cursor)) == Some(cursor),
        after_cursor(candidates, Some(cursor)).len() == candidates.len() - at - 1,
        0 <= k < candidates.len() - at - 1 ==> after_cursor(candidates, Some(cursor))[k] == candidates[at + 1 + k],
        after_cursor(candidates, None) == candidates,
        goes_on_from(candidates, None) is None,
        limited(candidates, limit).is_prefix_of(candidates),
        limit is None ==> limited(candidates, limit) == candidates,
        limit matches Some(most) ==> limited(candidates, limit).len() == if most < candidates.len() {
            most as nat
        } else {
            candidates.len()
        },
{
    let named = named_by(cursor);
    assert forall|j: int| 0 <= j < at implies !named(#[trigger] candidates[j]) by {}
    first_index_is(candidates, named, at);
    let some = limited(candidates, limit);
    assert(candidates.subrange(0, some.len() as int) =~= some);
}

/// What a backfill does next: it stands aside for live work and for a spent budget, and otherwise
/// reviews the first item that has not been recorded.
pub proof fn a_backfill_takes_the_next_item(driver: Backfill, live_pending: bool, budget: BudgetVerdict)
    ensures
        driver.step(live_pending, budget) is LiveWorkPending == live_pending,
        driver.step(live_pending, budget) is BudgetExhausted == (!live_pending && !(budget is WithinBudget)),
        driver.step(live_pending, budget) matches StepView::BudgetExhausted { reason } ==> budget.why() == Some(
            reason,
        ),
        !live_pending && budget is WithinBudget && driver.done() < driver.planned().items@.len() ==> (driver.step(
            live_pending,
            budget,
        ) matches StepView::Review { item } && item.external_id
            == driver.planned().items@[driver.done()].external_id@ && item.summary
            == driver.planned().items@[driver.done()].summary@),
        !live_pending && budget is WithinBudget && driver.done() >= driver.planned().items@.len() ==> driver.step(
            live_pending,
            budget,
        ) is Done,
{
}

/// What a dry run prints: where the plan begins and how many changes there are, what the limit left
/// out, and each change with its summary.
pub proof fn a_dry_run_lists_every_change(plan: BackfillPlan, k: int)
    requires
        0 <= k < plan.items@.len(),
    ensures
        ({
            let lines = plan.listing();
            let first: int = if plan.excluded_by_limit > 0 {
                2
            } else {
                1
            };
            &&& lines.len() == first + plan.items@.len()
            &&& within(lines[0], plan.scope@)
            &&& within(lines[0], decimal(plan.items@.len()))
            &&& plan.resumed_from matches Some(cursor) ==> within(lines[0], cursor@)
            &&& plan.excluded_by_limit > 0 ==> within(lines[1], decimal(plan.excluded_by_limit as nat))
            &&& within(lines[first + k], plan.items@[k].external_id@)
            &&& within(lines[first + k], plan.items@[k].summary@)
        }),
{
    let lines = plan.listing();
    let n = decimal(plan.items@.len());
    let first: int = if plan.excluded_by_limit > 0 {
        2
    } else {
        1
    };
    let tail = " change(s) to review"@;
    match plan.resumed_from {
        Some(cursor) => {
            let rest = " after "@ + cursor@ + ": "@ + n + tail;
            stands_inside("resuming "@, plan.scope@, rest);
            assert("resuming "@ + plan.scope@ + rest =~= lines[0]);
            let more = ": "@ + n + tail;
            stands_inside("resuming "@ + plan.scope@ + " after "@, cursor@, more);
            assert("resuming "@ + plan.scope@ + " after "@ + cursor@ + more =~= lines[0]);
            stands_inside("resuming "@ + plan.scope@ + " after "@ + cursor@ + ": "@, n, tail);
        },
        None => {
            let rest = ": "@ + n + tail;
            stands_inside(Seq::empty(), plan.scope@, rest);
            assert(Seq::empty() + plan.scope@ + rest =~= lines[0]);
            stands_inside(plan.scope@ + ": "@, n, tail);
        },
    }
    if plan.excluded_by_limit > 0 {
        stands_inside(
            "  "@,
            decimal(plan.excluded_by_limit as nat),
            " more match --since and were excluded by --limit"@,
        );
    }
    let item = item_views(plan.items@)[k];
    let line = "  "@ + item.external_id + " "@ + item.summary;
    assert(lines[first + k] == line);
    let rest = " "@ + item.summary;
    stands_inside("  "@, item.external_id, rest);
    assert("  "@ + item.external_id + rest =~= line);
    stands_inside("  "@ + item.external_id + " "@, item.summary, Seq::empty());
    assert("  "@ + item.external_id + " "@ + item.summary + Seq::empty() =~= line);
}

/// What is live work: a run that waits or is under way and that no backfill started.
pub proof fn what_is_live_work(status: RunStatus, trigger: TriggerSource)
    ensures
        is_live(status, trigger) == (trigger != TriggerSource::Backfill && (status == RunStatus::Queued || status
            == RunStatus::Preparing || status == RunStatus::Reviewing || status == RunStatus::Synthesizing)),
{
}

/// What a backfill tells of a change: which it was, how many findings and actions came of it, and
/// the verdict it reached.
pub proof fn a_reviewed_change_is_told(o: RunOutcome)
    ensures
        within(reviewed_line(o), o.change@),
        within(reviewed_line(o), decimal(o.findings as nat) + " finding(s)"@),
        within(reviewed_line(o), decimal(o.actions as nat) + " action(s)"@),
        o.verdict matches Some(v) ==> within(reviewed_line(o), v@),
{
    reveal_strlit(" finding(s), ");
    reveal_strlit(" finding(s)");
    reveal_strlit(" action(s), ");
    reveal_strlit(" action(s)");
    let v = match o.verdict {
        Some(v) => v@,
        None => "no verdict"@,
    };
    let all = reviewed_line(o);
    let f = decimal(o.findings as nat);
    let a = decimal(o.actions as nat);
    let end = o.status@ + ")"@;
    let one = " — "@ + v + " ("@ + f + " finding(s), "@ + a + " action(s), "@ + end;
    stands_inside("  reviewed "@, o.change@, one);
    assert("  reviewed "@ + o.change@ + one =~= all);
    let head = "  reviewed "@ + o.change@ + " — "@;
    let two = " ("@ + f + " finding(s), "@ + a + " action(s), "@ + end;
    stands_inside(head, v, two);
    assert(head + v + two =~= all);
    let three = ", "@ + a + " action(s), "@ + end;
    stands_inside(head + v + " ("@, f + " finding(s)"@, three);
    assert(head + v + " ("@ + (f + " finding(s)"@) + three =~= all) by {
        reveal_strlit(", ");
        assert(" finding(s), "@ =~= " finding(s)"@ + ", "@);
    }
    let four = ", "@ + end;
    stands_inside(head + v + " ("@ + f + " finding(s), "@, a + " action(s)"@, four);
    assert(head + v + " ("@ + f + " finding(s), "@ + (a + " action(s)"@) + four =~= all) by {
        reveal_strlit(", ");
        assert(" action(s), "@ =~= " action(s)"@ + ", "@);
    }
}

/// Working on an item counts it, once, and moves the cursor to it; what was planned and what is left
/// to be told stay.
pub proof fn an_item_is_worked_on_once(before: Sweep, after: Sweep, item: BackfillItem, cursor: Seq<char>)
    requires
        after.worked_on(before, item, cursor),
    ensures
        after.progress().planned() == before.progress().planned(),
        before.progress().done() < usize::MAX ==> after.progress().done() == before.progress().done() + 1,
        after.progress().cursor() == Some(item.external_id@),
        opt_text(after.so_far().cursor) == Some(item.external_id@),
        after.so_far().completed == after.progress().done(),
        cursor == item.external_id@,
        after.so_far().remaining == before.so_far().remaining,
        after.so_far().stopped == before.so_far().stopped,
{
}

} // verus!
