//! One run in detail.
//!
//! The transcript is not here, only its size: it is routinely megabytes, and a screen that had to
//! fetch it could not show a summary before. And there is no timeline: what is recorded is when a
//! run started and when it finished, and the rest is said to be unknown.

use vstd::prelude::*;

use crate::clock::{whole, whole_units, Timestamp, NANOS_PER_SEC};
use crate::model::{Finding, PublishAction, PublishActionStatus, Run};
use crate::text::{cat3, copy_texts, decimal_int, in_order, opt_text, same, signed, sort_texts, text_le, texts};

verus! {

/// Why a run could not be shown.
#[derive(Clone, Debug, PartialEq, Eq)]
pub enum RunViewError {
    /// There is no such run.
    NoSuchRun {
        /// What was asked for.
        id: i64,
    },
    /// The database could not be read.
    Store {
        /// Why.
        source: String,
    },
}

impl RunViewError {
    /// The error in words.
    pub fn describe(&self) -> (r: String)
        ensures
            r@ == match *self {
                Self::NoSuchRun { id } => "no run with id "@ + decimal_int(id as int)
                    + "\n  try: revlocal runs list"@,
                Self::Store { source } => "could not read the local database: "@ + source@
                    + "\n  try: revlocal db migrate"@,
            },
    {
        match self {
            Self::NoSuchRun { id } => cat3(
                "no run with id ",
                signed(*id).as_str(),
                "\n  try: revlocal runs list",
            ),
            Self::Store { source } => cat3(
                "could not read the local database: ",
                source.as_str(),
                "\n  try: revlocal db migrate",
            ),
        }
    }
}

/// One finding, anchored where it can be put against a diff.
#[derive(Clone, Debug, PartialEq, Eq)]
pub struct AnchoredFinding {
    /// Its number.
    pub id: i64,
    /// How bad.
    pub severity: String,
    /// What kind.
    pub category: String,
    /// One line.
    pub title: String,
    /// The file it names, if it names one.
    pub file: Option<String>,
    /// The first line it names.
    pub line_start: Option<u32>,
    /// The last line.
    pub line_end: Option<u32>,
    /// Whether it can be placed against the diff. One that cannot is still shown: a review that
    /// found something outside the changed lines has still found something.
    pub anchorable: bool,
}

impl AnchoredFinding {
    /// Whether this shows a finding.
    pub open spec fn shows(self, finding: Finding) -> bool {
        &&& self.id == finding.id
        &&& self.severity@ == finding.severity.word()
        &&& self.category@ == finding.category.word()
        &&& self.title@ == finding.title@
        &&& opt_text(self.file) == opt_text(finding.file)
        &&& self.line_start == finding.line_start
        &&& self.line_end == finding.line_end
        &&& self.anchorable == (finding.file is Some && finding.line_start is Some)
    }

    /// Show a finding.
    pub fn of(finding: &Finding) -> (r: AnchoredFinding)
        ensures
            r.shows(*finding),
    {
        AnchoredFinding {
            id: finding.id,
            severity: finding.severity.as_str().to_owned(),
            category: finding.category.as_str().to_owned(),
            title: finding.title.clone(),
            file: finding.file.clone(),
            line_start: finding.line_start,
            line_end: finding.line_end,
            anchorable: finding.file.is_some() && finding.line_start.is_some(),
        }
    }
}

/// What is known about when a run passed through its stages.
#[derive(Clone, Debug, PartialEq, Eq)]
pub struct Stages {
    /// When it started, if it did.
    pub started_at: Option<String>,
    /// When it finished, if it did.
    pub finished_at: Option<String>,
    /// Whole seconds between them, when both are known.
    pub elapsed_secs: Option<i64>,
    /// Why there is no more than that. Said, because a start and an end without a word look like
    /// a timeline that failed to load.
    pub per_stage_unavailable: String,
}

/// How long a run took, when both its ends are known.
pub open spec fn elapsed(started: Option<Timestamp>, finished: Option<Timestamp>) -> Option<int> {
    match (started, finished) {
        (Some(a), Some(b)) => Some(whole_units(b.nanos - a.nanos, NANOS_PER_SEC as int)),
        _ => None,
    }
}

/// A moment in words, when there is one.
pub open spec fn moment_text(at: Option<Timestamp>) -> Option<Seq<char>> {
    match at {
        Some(t) => Some(t.rfc3339()),
        None => None,
    }
}

fn write_moment(at: Option<Timestamp>) -> (r: Option<String>)
    requires
        at matches Some(t) ==> t.in_calendar(),
    ensures
        opt_text(r) == moment_text(at),
{
    match at {
        Some(t) => Some(t.to_rfc3339()),
        None => None,
    }
}

/// What is recorded about a run's passage through its stages.
pub fn stages_of(started: Option<Timestamp>, finished: Option<Timestamp>) -> (r: Stages)
    requires
        started matches Some(t) ==> t.in_calendar(),
        finished matches Some(t) ==> t.in_calendar(),
    ensures
        opt_text(r.started_at) == moment_text(started),
        opt_text(r.finished_at) == moment_text(finished),
        r.elapsed_secs == match elapsed(started, finished) {
            Some(n) => Some(n as i64),
            None => None,
        },
        elapsed(started, finished) matches Some(n) ==> i64::MIN <= n <= i64::MAX,
        r.per_stage_unavailable@
            == "stage transitions are not recorded, so only start and end are known"@,
{
    let elapsed_secs: Option<i64> = match (started, finished) {
        (Some(a), Some(b)) => {
            let secs: i128 = whole(b.since(a), NANOS_PER_SEC);
            Some(secs as i64)
        },
        _ => None,
    };
    Stages {
        started_at: write_moment(started),
        finished_at: write_moment(finished),
        elapsed_secs,
        per_stage_unavailable: "stage transitions are not recorded, so only start and end are known".to_owned(),
    }
}

/// One target's publish state, and whether retrying it means anything.
#[derive(Clone, Debug, PartialEq, Eq)]
pub struct TargetLine {
    /// Which target.
    pub target: String,
    /// Actions delivered.
    pub sent: usize,
    /// Actions still to be attempted.
    pub pending: usize,
    /// Actions waiting for a person.
    pub awaiting_approval: usize,
    /// Actions that are not attempted again without a retry.
    pub failed: usize,
    /// Whether a retry would do anything.
    pub retryable: bool,
}

/// The actions of a target that a status holds of.
pub open spec fn actions_that(
    actions: Seq<PublishAction>,
    target: Seq<char>,
    p: spec_fn(PublishActionStatus) -> bool,
) -> nat
    decreases actions.len(),
{
    if actions.len() == 0 {
        0
    } else {
        actions_that(actions.drop_last(), target, p) + if actions.last().target@ == target && p(
            actions.last().status,
        ) {
            1nat
        } else {
            0
        }
    }
}

/// Delivered.
pub open spec fn is_sent() -> spec_fn(PublishActionStatus) -> bool {
    |s: PublishActionStatus| s == PublishActionStatus::Sent
}

/// Still to be attempted.
pub open spec fn is_pending() -> spec_fn(PublishActionStatus) -> bool {
    |s: PublishActionStatus| s == PublishActionStatus::Pending || s == PublishActionStatus::Approved
}

/// Waiting for a person.
pub open spec fn is_awaiting() -> spec_fn(PublishActionStatus) -> bool {
    |s: PublishActionStatus| s == PublishActionStatus::AwaitingApproval
}

/// Failed. One that was rejected or only recorded is settled, and no failure.
pub open spec fn is_failed() -> spec_fn(PublishActionStatus) -> bool {
    |s: PublishActionStatus| s == PublishActionStatus::Failed
}

impl TargetLine {
    /// Whether the line counts a target's actions. Only a failed one can be retried: a pending one
    /// is tried anyway, and one that awaits approval needs a person.
    pub open spec fn counts(self, actions: Seq<PublishAction>) -> bool {
        let target = self.target@;
        &&& self.sent == actions_that(actions, target, is_sent())
        &&& self.pending == actions_that(actions, target, is_pending())
        &&& self.awaiting_approval == actions_that(actions, target, is_awaiting())
        &&& self.failed == actions_that(actions, target, is_failed())
        &&& self.retryable == (actions_that(actions, target, is_failed()) > 0)
    }
}

/// Whether an action has a target.
pub open spec fn has_target(actions: Seq<PublishAction>, target: Seq<char>) -> bool {
    exists|i: int| 0 <= i < actions.len() && (#[trigger] actions[i]).target@ == target
}

fn count_target(actions: &Vec<PublishAction>, target: &str) -> (r: TargetLine)
    ensures
        r.target@ == target@,
        r.counts(actions@),
{
    let mut sent: usize = 0;
    let mut pending: usize = 0;
    let mut awaiting_approval: usize = 0;
    let mut failed: usize = 0;
    let mut i: usize = 0;
    assert(actions@.take(0) =~= Seq::empty());
    while i < actions.len()
        invariant
            i <= actions.len(),
            sent <= i,
            pending <= i,
            awaiting_approval <= i,
            failed <= i,
            sent == actions_that(actions@.take(i as int), target@, is_sent()),
            pending == actions_that(actions@.take(i as int), target@, is_pending()),
            awaiting_approval == actions_that(actions@.take(i as int), target@, is_awaiting()),
            failed == actions_that(actions@.take(i as int), target@, is_failed()),
        decreases actions.len() - i,
    {
        assert(actions@.take(i + 1).drop_last() =~= actions@.take(i as int));
        let action = &actions[i];
        if same(action.target.as_str(), target) {
            match action.status {
                PublishActionStatus::Sent => {
                    sent = sent + 1;
                },
                PublishActionStatus::Pending | PublishActionStatus::Approved => {
                    pending = pending + 1;
                },
                PublishActionStatus::AwaitingApproval => {
                    awaiting_approval = awaiting_approval + 1;
                },
                PublishActionStatus::Failed => {
                    failed = failed + 1;
                },
                PublishActionStatus::Rejected | PublishActionStatus::SkippedDryRun => {},
            }
        }
        i += 1;
    }
    assert(actions@.take(actions@.len() as int) =~= actions@);
    TargetLine {
        target: target.to_owned(),
        sent,
        pending,
        awaiting_approval,
        failed,
        retryable: failed > 0,
    }
}

/// The targets of lines.
pub open spec fn line_targets(lines: Seq<TargetLine>) -> Seq<Seq<char>> {
    lines.map_values(|l: TargetLine| l.target@)
}

/// Whether every target has one line, in the order of their names, and nothing else has.
pub open spec fn tallied(lines: Seq<TargetLine>, actions: Seq<PublishAction>) -> bool {
    &&& in_order(line_targets(lines))
    &&& forall|i: int, j: int|
        0 <= i < j < lines.len() ==> (#[trigger] lines[i]).target@ != (#[trigger] lines[j]).target@
    &&& forall|i: int| 0 <= i < lines.len() ==> (#[trigger] lines[i]).counts(actions)
    &&& forall|target: Seq<char>|
        line_targets(lines).contains(target) == #[trigger] has_target(actions, target)
}

fn target_names(actions: &Vec<PublishAction>) -> (r: Vec<String>)
    ensures
        r@.len() == actions@.len(),
        forall|i: int| 0 <= i < r@.len() ==> (#[trigger] r@[i])@ == actions@[i].target@,
{
    let mut r: Vec<String> = Vec::new();
    let mut i: usize = 0;
    while i < actions.len()
        invariant
            i <= actions.len(),
            r@.len() == i,
            forall|j: int| 0 <= j < i ==> (#[trigger] r@[j])@ == actions@[j].target@,
        decreases actions.len() - i,
    {
        r.push(actions[i].target.clone());
        i += 1;
    }
    r
}

/// Counts for each target, in the order of their names: the same data always gives the same rows.
pub fn tally_targets(actions: &Vec<PublishAction>) -> (r: Vec<TargetLine>)
    ensures
        tallied(r@, actions@),
{
    broadcast use vstd::seq_lib::group_to_multiset_ensures;

    let raw = target_names(actions);
    let ghost given = texts(raw@);
    let names = sort_texts(raw);
    let ghost sorted = texts(names@);
    let mut lines: Vec<TargetLine> = Vec::new();
    let mut i: usize = 0;
    assert(line_targets(lines@) =~= Seq::empty());
    while i < names.len()
        invariant
            i <= names.len(),
            sorted == texts(names@),
            in_order(sorted),
            in_order(line_targets(lines@)),
            forall|a: int, b: int|
                0 <= a < b < lines@.len() ==> (#[trigger] lines@[a]).target@ != (#[trigger] lines@[b]).target@,
            forall|a: int| 0 <= a < lines@.len() ==> (#[trigger] lines@[a]).counts(actions@),
            forall|t: Seq<char>|
                #[trigger] line_targets(lines@).contains(t) == sorted.take(i as int).contains(t),
            i > 0 ==> lines@.len() > 0 && lines@.last().target@ == sorted[i - 1],
            i == 0 ==> lines@.len() == 0,
        decreases names.len() - i,
    {
        let ghost was = lines@;
        let ghost before = sorted.take(i as int);
        proof {
            assert(sorted.take(i + 1) =~= before.push(sorted[i as int]));
            assert(sorted[i as int] == names@[i as int]@);
        }
        let repeated = i > 0 && same(names[i - 1].as_str(), names[i].as_str());
        if repeated {
            proof {
                assert(sorted[i - 1] == names@[i - 1]@);
                assert(before[i - 1] == sorted[i as int]);
                assert forall|t: Seq<char>|
                    #[trigger] line_targets(lines@).contains(t) == sorted.take(i + 1).contains(t) by {
                    contains_of_push(before, sorted[i as int], t);
                }
            }
        } else {
            let line = count_target(actions, names[i].as_str());
            let ghost name = line.target@;
            lines.push(line);
            proof {
                assert(line_targets(lines@) =~= line_targets(was).push(name));
                assert forall|a: int, b: int| 0 <= a < b < lines@.len() implies (#[trigger] lines@[a]).target@
                    != (#[trigger] lines@[b]).target@ by {
                    if b == was.len() {
                        assert(line_targets(was)[a] == was[a].target@);
                        new_name_is_new(was, sorted, i as int, a);
                    }
                }
                let all = line_targets(lines@);
                assert forall|a: int, b: int| 0 <= a <= b < all.len() implies text_le(
                    #[trigger] all[a],
                    #[trigger] all[b],
                ) by {
                    if b < was.len() {
                        assert(text_le(line_targets(was)[a], line_targets(was)[b]));
                    } else if a < was.len() {
                        assert(line_targets(was).contains(line_targets(was)[a]));
                        assert(before.contains(was[a].target@));
                        let k = choose|k: int| 0 <= k < before.len() && before[k] == was[a].target@;
                        assert(text_le(sorted[k], sorted[i as int]));
                    } else {
                        crate::text::text_le_reflexive(name);
                    }
                }
                assert forall|t: Seq<char>|
                    #[trigger] line_targets(lines@).contains(t) == sorted.take(i + 1).contains(t) by {
                    contains_of_push(before, sorted[i as int], t);
                    contains_of_push(line_targets(was), name, t);
                }
            }
        }
        i += 1;
    }
    proof {
        assert(sorted.take(sorted.len() as int) =~= sorted);
        assert forall|t: Seq<char>| line_targets(lines@).contains(t) == #[trigger] has_target(actions@, t) by {
            same_members(sorted, given, t);
            if given.contains(t) {
                let k = choose|k: int| 0 <= k < given.len() && given[k] == t;
                assert(actions@[k].target@ == t);
            }
            if has_target(actions@, t) {
                let k = choose|k: int| 0 <= k < actions@.len() && (#[trigger] actions@[k]).target@ == t;
                assert(given[k] == t);
            }
        }
    }
    lines
}

pub(crate) proof fn contains_of_push(v: Seq<Seq<char>>, x: Seq<char>, t: Seq<char>)
    ensures
        v.push(x).contains(t) == (v.contains(t) || x == t),
{
    if v.contains(t) {
        let k = choose|k: int| 0 <= k < v.len() && v[k] == t;
        assert(v.push(x)[k] == t);
    }
    if x == t {
        assert(v.push(x)[v.len() as int] == t);
    }
    if v.push(x).contains(t) && x != t {
        let k = choose|k: int| 0 <= k < v.push(x).len() && v.push(x)[k] == t;
        assert(v[k] == t);
    }
}

pub(crate) proof fn same_members(a: Seq<Seq<char>>, b: Seq<Seq<char>>, t: Seq<char>)
    requires
        a.to_multiset() == b.to_multiset(),
    ensures
        a.contains(t) == b.contains(t),
{
    broadcast use vstd::seq_lib::group_to_multiset_ensures;

    assert(a.contains(t) == (a.to_multiset().count(t) > 0));
    assert(b.contains(t) == (b.to_multiset().count(t) > 0));
}

proof fn new_name_is_new(was: Seq<TargetLine>, sorted: Seq<Seq<char>>, i: int, a: int)
    requires
        0 <= i < sorted.len(),
        0 <= a < was.len(),
        in_order(sorted),
        i > 0 ==> sorted[i - 1] != sorted[i],
        i == 0 ==> was.len() == 0,
        line_targets(was).contains(was[a].target@) == sorted.take(i).contains(was[a].target@),
    ensures
        was[a].target@ != sorted[i],
{
    assert(line_targets(was)[a] == was[a].target@);
    let t = was[a].target@;
    let k = choose|k: int| 0 <= k < i && sorted.take(i)[k] == t;
    assert(sorted[k] == t);
    if t == sorted[i] {
        assert(text_le(sorted[k], sorted[i - 1]));
        assert(text_le(sorted[i - 1], sorted[i]));
        crate::text::text_le_antisymmetric(sorted[i - 1], sorted[i]);
    }
}

/// One run in detail.
#[derive(Clone, Debug, PartialEq, Eq)]
pub struct RunView {
    /// Its number.
    pub run_id: i64,
    /// The change it reviewed, in its own system's terms.
    pub change: String,
    /// Where it ended up.
    pub status: String,
    /// Which engine ran it.
    pub engine: String,
    /// How closely it looked.
    pub depth: String,
    /// Its verdict, if it reached one.
    pub verdict: Option<String>,
    /// Why its output was salvaged rather than read cleanly.
    pub degraded: Option<String>,
    /// Tokens spent, as far as anybody knows.
    pub tokens: u64,
    /// Whether that is the whole of it.
    pub tokens_known: bool,
    /// What is known about its stages.
    pub stages: Stages,
    /// Whether the diff was reduced.
    pub truncated: bool,
    /// Every file left out, by name: a count cannot be checked, and a list can.
    pub omitted_files: Vec<String>,
    /// What it found.
    pub findings: Vec<AnchoredFinding>,
    /// How large the transcript is.
    pub transcript_bytes: u64,
    /// Publish state by target.
    pub targets: Vec<TargetLine>,
}

impl RunView {
    /// Whether the run's output can be taken as the whole of what the engine said.
    pub fn fully_reported(&self) -> (r: bool)
        ensures
            r == (!self.truncated && self.tokens_known && self.degraded is None),
    {
        !self.truncated && self.tokens_known && self.degraded.is_none()
    }
}

fn anchor_all(findings: &Vec<Finding>) -> (r: Vec<AnchoredFinding>)
    ensures
        r@.len() == findings@.len(),
        forall|i: int| 0 <= i < r@.len() ==> (#[trigger] r@[i]).shows(findings@[i]),
{
    let mut r: Vec<AnchoredFinding> = Vec::new();
    let mut i: usize = 0;
    while i < findings.len()
        invariant
            i <= findings.len(),
            r@.len() == i,
            forall|j: int| 0 <= j < i ==> (#[trigger] r@[j]).shows(findings@[j]),
        decreases findings.len() - i,
    {
        r.push(AnchoredFinding::of(&findings[i]));
        i += 1;
    }
    r
}

/// Put a run's detail together.
pub fn gather(
    run: &Run,
    change: &str,
    findings: &Vec<Finding>,
    actions: &Vec<PublishAction>,
    transcript_bytes: u64,
) -> (r: RunView)
    requires
        run.started_at matches Some(t) ==> t.in_calendar(),
        run.finished_at matches Some(t) ==> t.in_calendar(),
        run.usage.tokens_in + run.usage.tokens_out <= u64::MAX,
    ensures
        r.run_id == run.id,
        r.change@ == change@,
        r.status@ == run.status.word(),
        r.engine@ == run.engine.word(),
        r.depth@ == run.depth.word(),
        opt_text(r.verdict) == match run.verdict {
            Some(v) => Some(v.word()),
            None => None,
        },
        opt_text(r.degraded) == opt_text(run.degraded),
        r.tokens == run.usage.tokens_in + run.usage.tokens_out,
        r.tokens_known == run.usage.tokens_known,
        opt_text(r.stages.started_at) == moment_text(run.started_at),
        opt_text(r.stages.finished_at) == moment_text(run.finished_at),
        r.stages.elapsed_secs == match elapsed(run.started_at, run.finished_at) {
            Some(n) => Some(n as i64),
            None => None,
        },
        r.stages.per_stage_unavailable@
            == "stage transitions are not recorded, so only start and end are known"@,
        r.truncated == run.truncated,
        texts(r.omitted_files@) == texts(run.omitted_files@),
        r.findings@.len() == findings@.len(),
        forall|i: int| 0 <= i < r.findings@.len() ==> (#[trigger] r.findings@[i]).shows(findings@[i]),
        r.transcript_bytes == transcript_bytes,
        tallied(r.targets@, actions@),
{
    RunView {
        run_id: run.id,
        change: change.to_owned(),
        status: run.status.as_str().to_owned(),
        engine: run.engine.as_str().to_owned(),
        depth: run.depth.as_str().to_owned(),
        verdict: match run.verdict {
            Some(v) => Some(v.as_str().to_owned()),
            None => None,
        },
        degraded: run.degraded.clone(),
        tokens: run.usage.tokens_in + run.usage.tokens_out,
        tokens_known: run.usage.tokens_known,
        stages: stages_of(run.started_at, run.finished_at),
        truncated: run.truncated,
        omitted_files: copy_texts(&run.omitted_files),
        findings: anchor_all(findings),
        transcript_bytes,
        targets: tally_targets(actions),
    }
}

// --- what holds of every tally ---

/// A decision somebody made is no failure: an action that was rejected or only recorded offers no
/// retry.
pub proof fn a_settled_action_offers_no_retry(actions: Seq<PublishAction>, target: Seq<char>)
    requires
        forall|i: int|
            0 <= i < actions.len() ==> (#[trigger] actions[i]).status == PublishActionStatus::Rejected
                || actions[i].status == PublishActionStatus::SkippedDryRun,
    ensures
        actions_that(actions, target, is_failed()) == 0,
    decreases actions.len(),
{
    if actions.len() > 0 {
        assert(actions.last() == actions[actions.len() - 1]);
        assert forall|i: int| 0 <= i < actions.drop_last().len() implies (
        #[trigger] actions.drop_last()[i]).status == PublishActionStatus::Rejected
            || actions.drop_last()[i].status == PublishActionStatus::SkippedDryRun by {
            assert(actions.drop_last()[i] == actions[i]);
        }
        a_settled_action_offers_no_retry(actions.drop_last(), target);
    }
}

/// What is shown of a finding is that finding, and it can be shown beside its line where it names
/// one in a file.
pub proof fn a_finding_is_shown_as_it_is(shown: AnchoredFinding, finding: Finding)
    requires
        shown.shows(finding),
    ensures
        shown.id == finding.id,
        shown.severity@ == finding.severity.word(),
        shown.category@ == finding.category.word(),
        shown.title@ == finding.title@,
        opt_text(shown.file) == opt_text(finding.file),
        shown.line_start == finding.line_start,
        shown.line_end == finding.line_end,
        shown.anchorable == (finding.file is Some && finding.line_start is Some),
{
}

/// How long a run took: whole seconds between its start and its end, where both are known.
pub proof fn how_long_a_run_took(started: Option<Timestamp>, finished: Option<Timestamp>)
    ensures
        elapsed(started, finished) is Some == (started is Some && finished is Some),
        started matches Some(a) ==> finished matches Some(b) ==> b.nanos >= a.nanos ==> elapsed(started, finished)->0
            * 1_000_000_000 <= b.nanos - a.nanos < (elapsed(started, finished)->0 + 1) * 1_000_000_000,
{
    if let (Some(a), Some(b)) = (started, finished) {
        let n = b.nanos - a.nanos;
        if n >= 0 {
            assert((n / 1_000_000_000) * 1_000_000_000 <= n < (n / 1_000_000_000 + 1) * 1_000_000_000)
                by (nonlinear_arith)
                requires
                    n >= 0,
            ;
        }
    }
}

/// Each action counts once, at its own target and by its status: one that is sent, one that is yet
/// to go, one that waits for a person, or one that failed and can be tried again.
pub proof fn an_action_counts_once(
    line: TargetLine,
    next: TargetLine,
    actions: Seq<PublishAction>,
    a: PublishAction,
)
    requires
        line.counts(actions),
        next.counts(actions.push(a)),
        line.target@ == next.target@,
    ensures
        ({
            let here = a.target@ == line.target@;
            let one = |yes: bool|
                if here && yes {
                    1int
                } else {
                    0
                };
            &&& next.sent == line.sent + one(a.status == PublishActionStatus::Sent)
            &&& next.pending == line.pending + one(
                a.status == PublishActionStatus::Pending || a.status == PublishActionStatus::Approved,
            )
            &&& next.awaiting_approval == line.awaiting_approval + one(
                a.status == PublishActionStatus::AwaitingApproval,
            )
            &&& next.failed == line.failed + one(a.status == PublishActionStatus::Failed)
            &&& next.retryable == (next.failed > 0)
        }),
{
    assert(actions.push(a).drop_last() =~= actions);
}

/// Where there is no action, nothing is counted.
pub proof fn no_action_counts_nothing(line: TargetLine)
    requires
        line.counts(Seq::empty()),
    ensures
        line.sent == 0 && line.pending == 0 && line.awaiting_approval == 0 && line.failed == 0 && !line.retryable,
{
}

/// Each target that an action goes to has one line, and no other has.
pub proof fn each_target_has_one_line(lines: Seq<TargetLine>, actions: Seq<PublishAction>, k: int)
    requires
        tallied(lines, actions),
    ensures
        0 <= k < actions.len() ==> exists|i: int|
            0 <= i < lines.len() && (#[trigger] lines[i]).target@ == actions[k].target@,
        0 <= k < lines.len() ==> exists|i: int|
            0 <= i < actions.len() && (#[trigger] actions[i]).target@ == lines[k].target@,
        forall|i: int, j: int|
            0 <= i < j < lines.len() ==> (#[trigger] lines[i]).target@ != (#[trigger] lines[j]).target@,
{
    let targets = line_targets(lines);
    if 0 <= k < actions.len() {
        let target = actions[k].target@;
        assert(has_target(actions, target));
        let i = choose|i: int| 0 <= i < targets.len() && targets[i] == target;
        assert(lines[i].target@ == target);
    }
    if 0 <= k < lines.len() {
        assert(targets[k] == lines[k].target@);
        assert(targets.contains(lines[k].target@));
        assert(has_target(actions, lines[k].target@));
    }
}

/// The lines come in the order of their targets.
pub proof fn the_lines_come_in_order(lines: Seq<TargetLine>, actions: Seq<PublishAction>, i: int, j: int)
    requires
        tallied(lines, actions),
        0 <= i < j < lines.len(),
    ensures
        text_le(lines[i].target@, lines[j].target@),
{
    let targets = line_targets(lines);
    assert(text_le(targets[i], targets[j]));
}

} // verus!
