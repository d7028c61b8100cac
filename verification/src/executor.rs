//! The join between discovery and review: which runs go ahead, where they end up, and what
//! is queued for publishing.
//!
//! # Every ceiling applies here, and none of them is this module's rule
//!
//! The kill switch, the daily budget and the autonomy mode are decided where they belong.
//! Here they meet real work, and a run that is held back says why.

use vstd::prelude::*;

use crate::budgets::BudgetVerdict;
use crate::clock::Timestamp;
use crate::engines::{fault_in_words, EngineError};
use crate::gating::{gated, gated_disposition};
use crate::model::{
    AutonomyMode, Capability, Depth, Destination, EngineKind, PublishActionStatus, RepoConfig, RepoKind,
    RiskClass, Run, RunStatus, Severity, TriggerSource, Usage, Verdict,
};
use crate::pipeline::{ReviewReport, ReviewStatus};
use crate::prompt::{as_much_is_shown_as_fits, cut_to_fit, fitting};
use crate::repos::{a_missing_checkout_is_said, checkout_missing_detail, missing_checkout};
use crate::state_machine::RunEvent;
use crate::text::{
    a_part_is_joined, blank, byte_len, bytes_in, cat2, cat3, cat4, cat5, copy_texts, count, decimal,
    decimal_int, encode_utf8_of_sum, first_index, first_index_is, first_index_means, first_index_none,
    has_text, inside_stays, is_blank, join, join_path, joined, joined_path, num, opt_str, opt_text, same,
    signed, stands_inside, texts, within,
};

verus! {

/// How many changes are queued per repository per pass.
pub const ENQUEUE_BATCH: u32 = 50;

/// What a queueing pass did.
#[derive(Clone, Debug, PartialEq, Eq)]
pub struct EnqueueReport {
    /// Runs created, oldest change first.
    pub queued: Vec<i64>,
    /// Whether [`ENQUEUE_BATCH`] was reached, so more are waiting.
    pub more_waiting: bool,
}

/// Report a queueing pass that was handed at most [`ENQUEUE_BATCH`] changes.
pub fn enqueue_report(queued: Vec<i64>) -> (r: EnqueueReport)
    ensures
        r.queued == queued,
        r.more_waiting == (queued@.len() >= ENQUEUE_BATCH),
{
    let more_waiting = queued.len() >= ENQUEUE_BATCH as usize;
    EnqueueReport { queued, more_waiting }
}

/// The attempt that comes after those already made.
pub open spec fn following_attempt(attempts: Seq<u32>) -> int {
    most(attempts) + 1
}

/// The largest of a list of attempts; zero where there is none.
pub open spec fn most(attempts: Seq<u32>) -> int
    decreases attempts.len(),
{
    if attempts.len() == 0 {
        0
    } else {
        let before = most(attempts.drop_last());
        if attempts.last() > before {
            attempts.last() as int
        } else {
            before
        }
    }
}

/// The attempt number of a review that somebody asked for, given those already made of the
/// same change. A manual request is never folded into an existing run.
pub fn manual_attempt(external_id: &str, attempts: &Vec<u32>) -> (r: Result<u32, String>)
    ensures
        match r {
            Ok(n) => n == following_attempt(attempts@),
            Err(detail) => following_attempt(attempts@) > u32::MAX && detail@ == "change "@ + external_id@
                + " has exhausted its run-attempt counter"@,
        },
{
    let mut largest: u32 = 0;
    let mut i: usize = 0;
    assert(attempts@.take(0) =~= Seq::empty());
    while i < attempts.len()
        invariant
            i <= attempts.len(),
            largest == most(attempts@.take(i as int)),
        decreases attempts.len() - i,
    {
        assert(attempts@.take(i + 1).drop_last() =~= attempts@.take(i as int));
        if attempts[i] > largest {
            largest = attempts[i];
        }
        i += 1;
    }
    assert(attempts@.take(attempts@.len() as int) =~= attempts@);
    match largest.checked_add(1) {
        Some(n) => Ok(n),
        None => Err(cat3("change ", external_id, " has exhausted its run-attempt counter")),
    }
}

/// What happened to one run.
#[derive(Clone, Debug, PartialEq, Eq)]
pub struct RunOutcome {
    /// Which run.
    pub run_id: i64,
    /// Which repository.
    pub repo: String,
    /// The change, in its own system's terms.
    pub change: String,
    /// Where it ended up.
    pub status: String,
    /// The engine that actually ran.
    pub engine: String,
    /// What it concluded, when it concluded anything.
    pub verdict: Option<String>,
    /// How many findings were stored.
    pub findings: usize,
    /// How many publish actions were queued.
    pub actions: usize,
    /// Why it failed or was held, when it was.
    pub detail: Option<String>,
}

/// What one executor pass did.
#[derive(Clone, Debug, PartialEq, Eq)]
pub struct ExecutorReport {
    /// Runs that finished, in the order they were taken.
    pub finished: Vec<RunOutcome>,
    /// Runs left queued, and why.
    pub held: Vec<String>,
    /// Whether the kill switch is engaged.
    pub paused: bool,
}

impl ExecutorReport {
    /// The line printed when nothing ran, when there is one.
    pub open spec fn idle_text(self) -> Option<Seq<char>> {
        if self.paused {
            Some("Paused: the kill switch is engaged, so nothing is being reviewed."@)
        } else if self.held@.len() > 0 {
            Some(joined(texts(self.held@), "\n"@))
        } else {
            None
        }
    }

    /// The line printed when nothing ran.
    pub fn idle_line(&self) -> (r: Option<String>)
        ensures
            opt_text(r) == self.idle_text(),
    {
        if self.paused {
            return Some(
                "Paused: the kill switch is engaged, so nothing is being reviewed.".to_owned(),
            );
        }
        if self.held.is_empty() {
            None
        } else {
            Some(join(&self.held, "\n"))
        }
    }
}

// --- whether a run goes ahead ---

/// What is known of a run's repository before anything is spent.
#[derive(Clone, Debug, PartialEq, Eq)]
pub struct RepoStanding {
    /// Its name.
    pub name: String,
    /// Whether it is watched at all.
    pub enabled: bool,
    /// Whether its checkout is there.
    pub checkout_present: bool,
    /// Where the checkout should be.
    pub local_path: Option<String>,
}

/// Why a queued run does not go ahead, if it does not: its repository is gone, disabled or
/// without its checkout, or its budget is spent. Looked at before an engine is chosen, because
/// a model call is a dear way to learn that a directory is missing.
pub open spec fn hold(run: i64, repo: Option<RepoStanding>, verdict: BudgetVerdict) -> Option<Seq<char>> {
    let head = "run #"@ + decimal_int(run as int) + ": "@;
    match repo {
        None => Some(head + "its repository has been removed"@),
        Some(standing) => if !standing.enabled {
            Some(head + standing.name@ + " is disabled"@)
        } else if !standing.checkout_present {
            Some(head + missing_checkout(standing.name@, opt_text(standing.local_path)))
        } else {
            match verdict.why() {
                Some(reason) => Some(head + reason),
                None => None,
            }
        },
    }
}

/// Why a queued run does not go ahead, if it does not.
pub fn hold_reason(run: i64, repo: &Option<RepoStanding>, verdict: &BudgetVerdict) -> (r: Option<String>)
    ensures
        opt_text(r) == hold(run, *repo, *verdict),
{
    let head = cat3("run #", signed(run).as_str(), ": ");
    match repo {
        None => Some(cat2(head.as_str(), "its repository has been removed")),
        Some(standing) => {
            if !standing.enabled {
                return Some(cat3(head.as_str(), standing.name.as_str(), " is disabled"));
            }
            if !standing.checkout_present {
                return Some(
                    cat2(
                        head.as_str(),
                        checkout_missing_detail(standing.name.as_str(), &standing.local_path).as_str(),
                    ),
                );
            }
            match verdict.reason() {
                Some(reason) => Some(cat2(head.as_str(), reason)),
                None => None,
            }
        },
    }
}

/// The line for a run that the kill switch holds. It stays queued, which is what makes
/// resuming a matter of releasing the switch.
pub fn paused_line(run: i64) -> (r: String)
    ensures
        r@ == "run #"@ + decimal_int(run as int) + ": the kill switch is engaged, so it stays queued"@,
{
    cat3("run #", signed(run).as_str(), ": the kill switch is engaged, so it stays queued")
}

/// The line for a run that was cancelled before it started.
pub fn cancelled_line(run: i64) -> (r: String)
    ensures
        r@ == "run #"@ + decimal_int(run as int) + ": cancelled before it started"@,
{
    cat3("run #", signed(run).as_str(), ": cancelled before it started")
}

/// The line for a run that failed.
pub fn failed_line(run: i64, detail: &str) -> (r: String)
    ensures
        r@ == "run #"@ + decimal_int(run as int) + ": "@ + detail@,
{
    cat4("run #", signed(run).as_str(), ": ", detail)
}

/// The runs that one pass takes, of those queued, newest first as the store lists them: the
/// oldest, as many as there are slots, oldest first.
pub fn take_oldest(queued: &Vec<i64>, limit: usize) -> (r: Vec<i64>)
    ensures
        r@ == if queued@.len() <= limit {
            queued@.reverse()
        } else {
            queued@.reverse().take(limit as int)
        },
{
    let n: usize = if queued.len() <= limit {
        queued.len()
    } else {
        limit
    };
    let mut r: Vec<i64> = Vec::new();
    let mut i: usize = 0;
    while i < n
        invariant
            i <= n <= queued.len(),
            r@ == queued@.reverse().take(i as int),
        decreases n - i,
    {
        r.push(queued[queued.len() - 1 - i]);
        assert(queued@.reverse().take(i + 1) =~= queued@.reverse().take(i as int).push(
            queued@.reverse()[i as int],
        ));
        i += 1;
    }
    assert(queued@.reverse().take(queued@.len() as int) =~= queued@.reverse());
    r
}

// --- the stages of a run ---

/// What happens to a run under way.
#[derive(Clone, Copy, Debug, PartialEq, Eq, Structural)]
pub enum RunStep {
    /// A run is taken off the queue.
    Taken,
    /// Its scratch directory and its worktree are there.
    Prepared,
    /// The engine has answered.
    Reviewed,
    /// Its findings are stored.
    Stored,
    /// Its actions are queued, and the review has ended so; whether any action waits for a
    /// person.
    Queued {
        /// How the review ended.
        status: ReviewStatus,
        /// Whether an action waits for a person.
        awaiting: bool,
    },
    /// Something could not be done.
    Failed,
}

/// Where a review's end leaves its run. An engine that could not produce a usable review is a
/// failed run, not an empty one: the two look alike in a count of findings and mean opposite
/// things.
pub open spec fn settled(status: ReviewStatus, awaiting: bool) -> RunStatus {
    match status {
        ReviewStatus::Failed => RunStatus::Failed,
        ReviewStatus::Skipped => RunStatus::Skipped,
        ReviewStatus::Done => if awaiting {
            RunStatus::AwaitingApproval
        } else {
            RunStatus::Done
        },
    }
}

/// Where a step takes a run. Nothing moves a run out of order, and one that is finished stays.
pub open spec fn next_status(at: RunStatus, step: RunStep) -> Option<RunStatus> {
    match (at, step) {
        (RunStatus::Queued, RunStep::Taken) => Some(RunStatus::Preparing),
        (RunStatus::Preparing, RunStep::Prepared) => Some(RunStatus::Reviewing),
        (RunStatus::Preparing, RunStep::Failed) => Some(RunStatus::Failed),
        (RunStatus::Reviewing, RunStep::Reviewed) => Some(RunStatus::Synthesizing),
        (RunStatus::Reviewing, RunStep::Failed) => Some(RunStatus::Failed),
        (RunStatus::Synthesizing, RunStep::Stored) => Some(RunStatus::Publishing),
        (RunStatus::Publishing, RunStep::Queued { status, awaiting }) => Some(settled(status, awaiting)),
        _ => None,
    }
}

/// Where a review's end leaves its run.
pub fn terminal_status(status: ReviewStatus, awaiting: bool) -> (r: RunStatus)
    ensures
        r == settled(status, awaiting),
{
    match status {
        ReviewStatus::Failed => RunStatus::Failed,
        ReviewStatus::Skipped => RunStatus::Skipped,
        ReviewStatus::Done => {
            if awaiting {
                RunStatus::AwaitingApproval
            } else {
                RunStatus::Done
            }
        },
    }
}

/// Where a step takes a run; nothing where it cannot happen there.
pub fn advance(at: RunStatus, step: RunStep) -> (r: Option<RunStatus>)
    ensures
        r == next_status(at, step),
{
    match (at, step) {
        (RunStatus::Queued, RunStep::Taken) => Some(RunStatus::Preparing),
        (RunStatus::Preparing, RunStep::Prepared) => Some(RunStatus::Reviewing),
        (RunStatus::Preparing, RunStep::Failed) => Some(RunStatus::Failed),
        (RunStatus::Reviewing, RunStep::Reviewed) => Some(RunStatus::Synthesizing),
        (RunStatus::Reviewing, RunStep::Failed) => Some(RunStatus::Failed),
        (RunStatus::Synthesizing, RunStep::Stored) => Some(RunStatus::Publishing),
        (RunStatus::Publishing, RunStep::Queued { status, awaiting }) => Some(
            terminal_status(status, awaiting),
        ),
        _ => None,
    }
}

// --- what is queued for publishing ---

/// Where findings can be published.
#[derive(Clone, Copy, Debug, PartialEq, Eq, Structural)]
pub enum Target {
    /// An issue in Andare.
    Andare,
    /// An issue on GitHub.
    Github,
    /// A file on this machine.
    Report,
    /// A page in Trama.
    Trama,
}

impl Target {
    /// Its name in a repository's settings.
    pub open spec fn word(self) -> Seq<char> {
        match self {
            Self::Andare => "andare"@,
            Self::Github => "github"@,
            Self::Report => "report"@,
            Self::Trama => "trama"@,
        }
    }

    /// Where its effect lands.
    pub open spec fn lands(self) -> Destination {
        match self {
            Self::Report => Destination::Local,
            _ => Destination::External,
        }
    }

    /// Its name in a repository's settings.
    pub fn as_str(self) -> (r: &'static str)
        ensures
            r@ == self.word(),
    {
        match self {
            Self::Andare => "andare",
            Self::Github => "github",
            Self::Report => "report",
            Self::Trama => "trama",
        }
    }

    /// Where its effect lands: a local report never leaves the machine.
    pub fn destination(self) -> (r: Destination)
        ensures
            r == self.lands(),
    {
        match self {
            Self::Report => Destination::Local,
            _ => Destination::External,
        }
    }
}

/// A stored finding, as far as queueing it goes: whether it is to be published, and how risky
/// filing it would be, here and elsewhere.
#[derive(Clone, Debug, PartialEq, Eq)]
pub struct Filable {
    /// What makes it the same finding in another run.
    pub fingerprint: String,
    /// Whether it is to be published.
    pub publishable: bool,
    /// How risky it is to file it on this machine.
    pub local_risk: RiskClass,
    /// How risky it is to file it elsewhere.
    pub external_risk: RiskClass,
}

impl Filable {
    /// How risky it is to file it at a target.
    pub open spec fn risk_at(self, target: Target) -> RiskClass {
        match target.lands() {
            Destination::Local => self.local_risk,
            Destination::External => self.external_risk,
        }
    }
}

/// An action that is already in the store.
#[derive(Clone, Debug, PartialEq, Eq)]
pub struct FiledKey {
    /// Where it goes.
    pub target: Target,
    /// What makes it the same action.
    pub key: String,
}

/// An action to be stored.
#[derive(Clone, Debug, PartialEq, Eq)]
pub struct PlannedAction {
    /// The finding it carries, by its place; nothing for a page, which is the whole review.
    pub finding: Option<usize>,
    /// Where it goes.
    pub target: Target,
    /// What it does there.
    pub capability: Capability,
    /// How risky it is.
    pub risk: RiskClass,
    /// What makes it the same action when it is queued again.
    pub idempotency_key: String,
    /// The status it is stored with.
    pub status: PublishActionStatus,
}

/// What a planned action holds.
pub struct ActionView {
    /// The finding it carries.
    pub finding: Option<int>,
    /// Where it goes.
    pub target: Target,
    /// What it does there.
    pub capability: Capability,
    /// How risky it is.
    pub risk: RiskClass,
    /// What makes it the same action.
    pub key: Seq<char>,
    /// The status it is stored with.
    pub status: PublishActionStatus,
}

impl View for PlannedAction {
    type V = ActionView;

    open spec fn view(&self) -> ActionView {
        ActionView {
            finding: match self.finding {
                Some(i) => Some(i as int),
                None => None,
            },
            target: self.target,
            capability: self.capability,
            risk: self.risk,
            key: self.idempotency_key@,
            status: self.status,
        }
    }
}

/// What each planned action of a list holds.
pub open spec fn action_views(v: Seq<PlannedAction>) -> Seq<ActionView> {
    v.map_values(|a: PlannedAction| a@)
}

/// What queueing one run's actions goes by.
pub struct QueueInputs<'a> {
    /// The run.
    pub run_id: i64,
    /// The repository's name.
    pub repo_name: &'a str,
    /// The mode in force.
    pub mode: AutonomyMode,
    /// The repository's settings.
    pub config: &'a RepoConfig,
    /// The repository's `owner/name` on GitHub, where its remote is recognised as one.
    pub github_slug: Option<&'a str>,
    /// The stored findings.
    pub findings: &'a Vec<Filable>,
    /// How risky it is to write the review's page.
    pub page_risk: RiskClass,
    /// The targets at which such a write has succeeded before.
    pub written_to: &'a Vec<Target>,
}

/// Whether a repository publishes to a target.
pub open spec fn publishes_to(config: RepoConfig, target: Target) -> bool {
    texts(config.targets@).contains(target.word())
}

/// Whether a setting says something.
pub open spec fn is_set(value: Option<String>) -> bool {
    value is Some && !is_blank(value->0@)
}

/// Whether findings can be filed at a target: the repository asks for it and has what it
/// needs. A wrong guess at a missing setting would file them with a stranger.
pub open spec fn can_file(inputs: QueueInputs, target: Target) -> bool {
    publishes_to(*inputs.config, target) && match target {
        Target::Andare => is_set(inputs.config.andare_project),
        Target::Github => inputs.github_slug is Some,
        Target::Report => true,
        Target::Trama => is_set(inputs.config.trama_space),
    }
}

/// The targets that each finding is filed at, in order.
pub open spec fn issue_targets(inputs: QueueInputs) -> Seq<Target> {
    let andare: Seq<Target> = if can_file(inputs, Target::Andare) {
        seq![Target::Andare]
    } else {
        seq![]
    };
    let github: Seq<Target> = if can_file(inputs, Target::Github) {
        seq![Target::Github]
    } else {
        seq![]
    };
    let report: Seq<Target> = if can_file(inputs, Target::Report) {
        seq![Target::Report]
    } else {
        seq![]
    };
    andare + github + report
}

/// How many findings are to be published.
pub open spec fn publishable_count(findings: Seq<Filable>) -> nat
    decreases findings.len(),
{
    if findings.len() == 0 {
        0
    } else {
        publishable_count(findings.drop_last()) + if findings.last().publishable {
            1nat
        } else {
            0
        }
    }
}

/// What makes an issue the same when it is queued again: its target, its fingerprint and its
/// run. Each review that still sees a problem queues its own action, and the target decides
/// between filing it and commenting on what is filed.
pub open spec fn issue_key(target: Target, fingerprint: Seq<char>, run: i64) -> Seq<char> {
    target.word() + "-"@ + fingerprint + "-run"@ + decimal_int(run as int)
}

/// What makes a page the same: its run.
pub open spec fn page_key(run: i64) -> Seq<char> {
    "trama-run-"@ + decimal_int(run as int)
}

/// The status that an action of a class is stored with: the first write to an outside target
/// waits for a person, whatever the mode.
pub open spec fn stored_status(inputs: QueueInputs, risk: RiskClass, target: Target) -> PublishActionStatus {
    gated(inputs.mode, risk, inputs.written_to@.contains(target), target.lands()).first_status()->0
}

/// The issue that a finding makes at a target.
pub open spec fn issue_action(inputs: QueueInputs, finding: int, target: Target) -> ActionView {
    let f = inputs.findings@[finding];
    ActionView {
        finding: Some(finding),
        target,
        capability: Capability::CreateIssue,
        risk: f.risk_at(target),
        key: issue_key(target, f.fingerprint@, inputs.run_id),
        status: stored_status(inputs, f.risk_at(target), target),
    }
}

/// The page that a review makes.
pub open spec fn page_action(inputs: QueueInputs) -> ActionView {
    ActionView {
        finding: None,
        target: Target::Trama,
        capability: Capability::UpsertDoc,
        risk: inputs.page_risk,
        key: page_key(inputs.run_id),
        status: stored_status(inputs, inputs.page_risk, Target::Trama),
    }
}

/// The issues that the first `n` findings owe, in order: each that is to be published, at each
/// target.
pub open spec fn owed(inputs: QueueInputs, n: int) -> Seq<ActionView>
    decreases n,
{
    if n <= 0 {
        Seq::empty()
    } else {
        owed(inputs, n - 1) + if inputs.findings@[n - 1].publishable {
            issue_targets(inputs).map_values(|t: Target| issue_action(inputs, n - 1, t))
        } else {
            Seq::empty()
        }
    }
}

/// Whether an action is already in the store.
pub open spec fn is_filed(filed: Seq<FiledKey>, a: ActionView) -> bool {
    exists|i: int| 0 <= i < filed.len() && (#[trigger] filed[i]).target == a.target && filed[i].key@ == a.key
}

/// Whether an action is among those planned.
pub open spec fn is_planned(planned: Seq<ActionView>, a: ActionView) -> bool {
    exists|i: int| 0 <= i < planned.len() && (#[trigger] planned[i]).target == a.target && planned[i].key == a.key
}

/// Of the actions owed, those that are new: not in the store, and not planned twice.
pub open spec fn fresh(actions: Seq<ActionView>, filed: Seq<FiledKey>) -> Seq<ActionView>
    decreases actions.len(),
{
    if actions.len() == 0 {
        Seq::empty()
    } else {
        let before = fresh(actions.drop_last(), filed);
        let a = actions.last();
        if is_filed(filed, a) || is_planned(before, a) {
            before
        } else {
            before.push(a)
        }
    }
}

/// Every action that is planned for a run.
pub open spec fn planned(inputs: QueueInputs, filed: Seq<FiledKey>) -> Seq<ActionView> {
    if inputs.mode == AutonomyMode::Off {
        Seq::empty()
    } else {
        let issues = fresh(owed(inputs, inputs.findings@.len() as int), filed);
        if can_file(inputs, Target::Trama) && !is_filed(filed, page_action(inputs)) {
            issues.push(page_action(inputs))
        } else {
            issues
        }
    }
}

/// How many of the issues owed are not new.
pub open spec fn recurring(inputs: QueueInputs, filed: Seq<FiledKey>) -> int {
    let all = owed(inputs, inputs.findings@.len() as int);
    all.len() - fresh(all, filed).len()
}

/// Why findings were not published, where a setting is missing. The review ran and its
/// findings are stored; what cannot happen is filing them where nobody said.
pub open spec fn setting_notes(inputs: QueueInputs) -> Seq<Seq<char>> {
    let n = publishable_count(inputs.findings@);
    let head = "run #"@ + decimal_int(inputs.run_id as int) + ": "@;
    let filing = head + decimal(n) + " finding(s) were not "@;
    let repo = inputs.repo_name@;
    let config = *inputs.config;
    if n == 0 {
        Seq::empty()
    } else {
        let nowhere: Seq<Seq<char>> = if !publishes_to(config, Target::Andare) && !publishes_to(
            config,
            Target::Report,
        ) && !can_file(inputs, Target::Github) {
            seq![
                filing + "published — `"@ + repo
                    + "` has no publish targets enabled\n  try: add `report` to that repository's `targets` to write them to disk"@,
            ]
        } else {
            seq![]
        };
        let andare: Seq<Seq<char>> = if publishes_to(config, Target::Andare) && !can_file(
            inputs,
            Target::Andare,
        ) {
            seq![
                filing + "filed to Andare — `"@ + repo
                    + "` has no Andare project set\n  try: set the project key under “Where findings go” on that repository's screen"@,
            ]
        } else {
            seq![]
        };
        let github: Seq<Seq<char>> = if publishes_to(config, Target::Github) && !can_file(
            inputs,
            Target::Github,
        ) {
            seq![
                filing + "filed to GitHub — `"@ + repo
                    + "` has no recognisable GitHub remote\n  try: set the repository's remote URL, or remove `github` from its `targets`"@,
            ]
        } else {
            seq![]
        };
        let trama: Seq<Seq<char>> = if publishes_to(config, Target::Trama) && !can_file(
            inputs,
            Target::Trama,
        ) {
            seq![
                head + "no review page was written — `"@ + repo
                    + "` has no Trama space set\n  try: set `trama_space` in that repository's configuration, or remove `trama` from its `targets`"@,
            ]
        } else {
            seq![]
        };
        nowhere + andare + github + trama
    }
}

/// Everything that is said about what was not queued.
pub open spec fn held_notes(inputs: QueueInputs, filed: Seq<FiledKey>) -> Seq<Seq<char>> {
    if inputs.mode == AutonomyMode::Off {
        Seq::empty()
    } else {
        let notes = setting_notes(inputs);
        if notes.len() == 0 && recurring(inputs, filed) > 0 {
            seq![
                "run #"@ + decimal_int(inputs.run_id as int) + ": "@ + decimal(
                    recurring(inputs, filed) as nat,
                ) + " finding(s) are already filed, so nothing new was queued"@,
            ]
        } else {
            notes
        }
    }
}

/// What queueing a run's publish actions comes to.
#[derive(Clone, Debug, PartialEq, Eq)]
pub struct QueuedActions {
    /// The actions to store, in order.
    pub actions: Vec<PlannedAction>,
    /// Why work was not queued, when the review itself was fine. Targets fail independently,
    /// so there may be several reasons.
    pub held: Vec<String>,
}

fn set_value(value: &Option<String>) -> (r: bool)
    ensures
        r == is_set(*value),
{
    match value {
        Some(text) => !blank(text.as_str()),
        None => false,
    }
}

fn count_publishable(findings: &Vec<Filable>) -> (r: usize)
    ensures
        r == publishable_count(findings@),
        r <= findings@.len(),
{
    let mut n: usize = 0;
    let mut i: usize = 0;
    assert(findings@.take(0) =~= Seq::empty());
    while i < findings.len()
        invariant
            i <= findings.len(),
            n <= i,
            n == publishable_count(findings@.take(i as int)),
        decreases findings.len() - i,
    {
        assert(findings@.take(i + 1).drop_last() =~= findings@.take(i as int));
        if findings[i].publishable {
            n += 1;
        }
        i += 1;
    }
    assert(findings@.take(findings@.len() as int) =~= findings@);
    n
}

fn file_at(inputs: &QueueInputs, target: Target) -> (r: bool)
    ensures
        r == can_file(*inputs, target),
{
    has_text(&inputs.config.targets, target.as_str()) && match target {
        Target::Andare => set_value(&inputs.config.andare_project),
        Target::Github => inputs.github_slug.is_some(),
        Target::Report => true,
        Target::Trama => set_value(&inputs.config.trama_space),
    }
}

fn targets_for_issues(inputs: &QueueInputs) -> (r: Vec<Target>)
    ensures
        r@ == issue_targets(*inputs),
{
    let mut r: Vec<Target> = Vec::new();
    if file_at(inputs, Target::Andare) {
        r.push(Target::Andare);
    }
    if file_at(inputs, Target::Github) {
        r.push(Target::Github);
    }
    if file_at(inputs, Target::Report) {
        r.push(Target::Report);
    }
    assert(r@ =~= issue_targets(*inputs));
    r
}

fn notes_on_settings(inputs: &QueueInputs) -> (r: Vec<String>)
    ensures
        texts(r@) == setting_notes(*inputs),
{
    let mut r: Vec<String> = Vec::new();
    let n: usize = count_publishable(inputs.findings);
    if n == 0 {
        assert(texts(r@) =~= setting_notes(*inputs));
        return r;
    }
    let head = cat3("run #", signed(inputs.run_id).as_str(), ": ");
    let filing = cat3(head.as_str(), count(n).as_str(), " finding(s) were not ");
    let wants_andare = has_text(&inputs.config.targets, Target::Andare.as_str());
    let wants_report = has_text(&inputs.config.targets, Target::Report.as_str());
    let asks_github = has_text(&inputs.config.targets, Target::Github.as_str());
    let asks_trama = has_text(&inputs.config.targets, Target::Trama.as_str());
    let github = file_at(inputs, Target::Github);
    if !wants_andare && !wants_report && !github {
        r.push(
            cat4(
                filing.as_str(),
                "published — `",
                inputs.repo_name,
                "` has no publish targets enabled\n  try: add `report` to that repository's `targets` to write them to disk",
            ),
        );
    }
    if wants_andare && !file_at(inputs, Target::Andare) {
        r.push(
            cat4(
                filing.as_str(),
                "filed to Andare — `",
                inputs.repo_name,
                "` has no Andare project set\n  try: set the project key under “Where findings go” on that repository's screen",
            ),
        );
    }
    if asks_github && !github {
        r.push(
            cat4(
                filing.as_str(),
                "filed to GitHub — `",
                inputs.repo_name,
                "` has no recognisable GitHub remote\n  try: set the repository's remote URL, or remove `github` from its `targets`",
            ),
        );
    }
    if asks_trama && !file_at(inputs, Target::Trama) {
        r.push(
            cat4(
                head.as_str(),
                "no review page was written — `",
                inputs.repo_name,
                "` has no Trama space set\n  try: set `trama_space` in that repository's configuration, or remove `trama` from its `targets`",
            ),
        );
    }
    assert(texts(r@) =~= setting_notes(*inputs));
    r
}

fn already_filed(filed: &Vec<FiledKey>, target: Target, key: &str, Ghost(a): Ghost<ActionView>) -> (r: bool)
    requires
        a.target == target,
        a.key == key@,
    ensures
        r == is_filed(filed@, a),
{
    let mut i: usize = 0;
    while i < filed.len()
        invariant
            i <= filed.len(),
            a.target == target,
            a.key == key@,
            forall|j: int|
                0 <= j < i ==> !((#[trigger] filed@[j]).target == a.target && filed@[j].key@ == a.key),
        decreases filed.len() - i,
    {
        if filed[i].target == target && same(filed[i].key.as_str(), key) {
            return true;
        }
        i += 1;
    }
    false
}

fn already_planned(actions: &Vec<PlannedAction>, target: Target, key: &str, Ghost(a): Ghost<ActionView>) -> (r:
    bool)
    requires
        a.target == target,
        a.key == key@,
    ensures
        r == is_planned(action_views(actions@), a),
{
    let ghost all = action_views(actions@);
    let mut i: usize = 0;
    while i < actions.len()
        invariant
            i <= actions.len(),
            all == action_views(actions@),
            a.target == target,
            a.key == key@,
            forall|j: int| 0 <= j < i ==> !((#[trigger] all[j]).target == a.target && all[j].key == a.key),
        decreases actions.len() - i,
    {
        assert(all[i as int] == actions@[i as int]@);
        if actions[i].target == target && same(actions[i].idempotency_key.as_str(), key) {
            return true;
        }
        i += 1;
    }
    false
}

fn has_been_written_to(inputs: &QueueInputs, target: Target) -> (r: bool)
    ensures
        r == inputs.written_to@.contains(target),
{
    let mut i: usize = 0;
    while i < inputs.written_to.len()
        invariant
            i <= inputs.written_to.len(),
            forall|j: int| 0 <= j < i ==> inputs.written_to@[j] != target,
        decreases inputs.written_to.len() - i,
    {
        if inputs.written_to[i] == target {
            return true;
        }
        i += 1;
    }
    false
}

fn status_for(inputs: &QueueInputs, risk: RiskClass, target: Target) -> (r: PublishActionStatus)
    requires
        inputs.mode != AutonomyMode::Off,
    ensures
        r == stored_status(*inputs, risk, target),
{
    let before = has_been_written_to(inputs, target);
    match gated_disposition(inputs.mode, risk, before, target.destination()).initial_status() {
        Some(status) => status,
        None => PublishActionStatus::SkippedDryRun,
    }
}

/// Plan the issues of one finding.
fn plan_finding(
    inputs: &QueueInputs,
    filed: &Vec<FiledKey>,
    at: usize,
    targets: &Vec<Target>,
    actions: &mut Vec<PlannedAction>,
    Ghost(done): Ghost<Seq<ActionView>>,
)
    requires
        inputs.mode != AutonomyMode::Off,
        at < inputs.findings@.len(),
        targets@ == issue_targets(*inputs),
        action_views(old(actions)@) == fresh(done, filed@),
    ensures
        action_views(final(actions)@) == fresh(
            done + issue_targets(*inputs).map_values(|t: Target| issue_action(*inputs, at as int, t)),
            filed@,
        ),
{
    let ghost make = |t: Target| issue_action(*inputs, at as int, t);
    let ghost mine = targets@.map_values(make);
    let mut k: usize = 0;
    assert(done + mine.take(0) =~= done);
    while k < targets.len()
        invariant
            k <= targets.len(),
            inputs.mode != AutonomyMode::Off,
            at < inputs.findings@.len(),
            targets@ == issue_targets(*inputs),
            make == (|t: Target| issue_action(*inputs, at as int, t)),
            mine == targets@.map_values(make),
            action_views(actions@) == fresh(done + mine.take(k as int), filed@),
        decreases targets.len() - k,
    {
        let target = targets[k];
        let finding = &inputs.findings[at];
        let risk = match target.destination() {
            Destination::Local => finding.local_risk,
            Destination::External => finding.external_risk,
        };
        let key = cat5(
            target.as_str(),
            "-",
            finding.fingerprint.as_str(),
            "-run",
            signed(inputs.run_id).as_str(),
        );
        let ghost a = issue_action(*inputs, at as int, target);
        proof {
            let all = done + mine.take(k + 1);
            assert(all.drop_last() =~= done + mine.take(k as int));
            assert(all.last() == a);
        }
        let ghost before = actions@;
        if !already_filed(filed, target, key.as_str(), Ghost(a)) && !already_planned(
            actions,
            target,
            key.as_str(),
            Ghost(a),
        ) {
            actions.push(
                PlannedAction {
                    finding: Some(at),
                    target,
                    capability: Capability::CreateIssue,
                    risk,
                    idempotency_key: key,
                    status: status_for(inputs, risk, target),
                },
            );
            assert(action_views(actions@) =~= action_views(before).push(a));
        }
        k += 1;
    }
    assert(mine.take(mine.len() as int) =~= mine);
    assert(issue_targets(*inputs).map_values(|t: Target| issue_action(*inputs, at as int, t)) =~= mine);
}

/// Turn publishable findings into gated publish actions, given the actions already in the
/// store.
///
/// A mode that is off means no actions: the findings are stored for somebody to read.
pub fn queue_actions(inputs: &QueueInputs, filed: &Vec<FiledKey>) -> (r: QueuedActions)
    requires
        3 * inputs.findings@.len() <= usize::MAX,
    ensures
        action_views(r.actions@) == planned(*inputs, filed@),
        texts(r.held@) == held_notes(*inputs, filed@),
{
    let mut actions: Vec<PlannedAction> = Vec::new();
    if inputs.mode == AutonomyMode::Off {
        let held: Vec<String> = Vec::new();
        assert(action_views(actions@) =~= Seq::empty());
        assert(texts(held@) =~= Seq::empty());
        return QueuedActions { actions, held };
    }
    let mut held = notes_on_settings(inputs);
    let targets = targets_for_issues(inputs);
    let mut total: usize = 0;
    let mut i: usize = 0;
    assert(action_views(actions@) =~= fresh(owed(*inputs, 0), filed@));
    while i < inputs.findings.len()
        invariant
            i <= inputs.findings.len(),
            inputs.mode != AutonomyMode::Off,
            targets@ == issue_targets(*inputs),
            targets@.len() <= 3,
            action_views(actions@) == fresh(owed(*inputs, i as int), filed@),
            total == owed(*inputs, i as int).len(),
            total <= 3 * i,
            3 * inputs.findings@.len() <= usize::MAX,
        decreases inputs.findings.len() - i,
    {
        if inputs.findings[i].publishable {
            plan_finding(
                inputs,
                filed,
                i,
                &targets,
                &mut actions,
                Ghost(owed(*inputs, i as int)),
            );
            total = total + targets.len();
        } else {
            assert(owed(*inputs, i as int) + Seq::<ActionView>::empty() =~= owed(*inputs, i as int));
        }
        i += 1;
    }
    proof {
        fresh_is_no_more(owed(*inputs, inputs.findings@.len() as int), filed@);
    }
    let repeats: usize = total - actions.len();
    let ghost issues = action_views(actions@);
    if file_at(inputs, Target::Trama) {
        let key = cat2("trama-run-", signed(inputs.run_id).as_str());
        let ghost a = page_action(*inputs);
        if !already_filed(filed, Target::Trama, key.as_str(), Ghost(a)) {
            actions.push(
                PlannedAction {
                    finding: None,
                    target: Target::Trama,
                    capability: Capability::UpsertDoc,
                    risk: inputs.page_risk,
                    idempotency_key: key,
                    status: status_for(inputs, inputs.page_risk, Target::Trama),
                },
            );
            assert(action_views(actions@) =~= issues.push(a));
        }
    }
    // A run that queued nothing and said nothing would look like one that found nothing.
    assert(texts(held@).len() == held@.len());
    if held.is_empty() && repeats > 0 {
        held.push(
            cat5(
                "run #",
                signed(inputs.run_id).as_str(),
                ": ",
                count(repeats).as_str(),
                " finding(s) are already filed, so nothing new was queued",
            ),
        );
        assert(texts(held@) =~= held_notes(*inputs, filed@));
    }
    QueuedActions { actions, held }
}

proof fn fresh_is_no_more(actions: Seq<ActionView>, filed: Seq<FiledKey>)
    ensures
        fresh(actions, filed).len() <= actions.len(),
    decreases actions.len(),
{
    if actions.len() > 0 {
        fresh_is_no_more(actions.drop_last(), filed);
    }
}

// --- what a run comes to ---

/// The failure as one line: the code that groups it, and what the engine said, which is the
/// half that a person can act on.
pub open spec fn failure_text(report: ReviewReport) -> Option<Seq<char>> {
    match report.failure {
        Some(code) => match report.failure_detail {
            Some(detail) => Some(code@ + " — "@ + detail@),
            None => Some(code@),
        },
        None => None,
    }
}

/// The failure as one line.
pub fn failure_line(report: &ReviewReport) -> (r: Option<String>)
    ensures
        opt_text(r) == failure_text(*report),
{
    match &report.failure {
        Some(code) => match &report.failure_detail {
            Some(detail) => Some(cat3(code.as_str(), " — ", detail.as_str())),
            None => Some(code.clone()),
        },
        None => None,
    }
}

/// Whether any of the planned actions waits for a person.
pub open spec fn awaits(actions: Seq<PlannedAction>) -> bool {
    exists|i: int|
        0 <= i < actions.len() && (#[trigger] actions[i]).status == PublishActionStatus::AwaitingApproval
}

/// Whether any of the planned actions waits for a person.
pub fn any_awaiting(actions: &Vec<PlannedAction>) -> (r: bool)
    ensures
        r == awaits(actions@),
{
    let mut i: usize = 0;
    while i < actions.len()
        invariant
            i <= actions.len(),
            forall|j: int|
                0 <= j < i ==> (#[trigger] actions@[j]).status != PublishActionStatus::AwaitingApproval,
        decreases actions.len() - i,
    {
        if actions[i].status == PublishActionStatus::AwaitingApproval {
            return true;
        }
        i += 1;
    }
    false
}

/// The line that says what went wrong with a run, the most serious first: a failure, then an
/// answer that had to be salvaged, then what was held back from publishing.
pub open spec fn outcome_detail(report: ReviewReport, held: Seq<Seq<char>>) -> Option<Seq<char>> {
    if failure_text(report) is Some {
        failure_text(report)
    } else if report.degraded is Some {
        Some(report.degraded->0@)
    } else if held.len() > 0 {
        Some(joined(held, "\n"@))
    } else {
        None
    }
}

/// What one run came to.
pub fn run_outcome(run_id: i64, repo: &str, report: &ReviewReport, stored: usize, queued: &QueuedActions) -> (r:
    RunOutcome)
    ensures
        r.run_id == run_id,
        r.repo@ == repo@,
        r.change@ == report.change@,
        r.status@ == settled(report.status, awaits(queued.actions@)).word(),
        r.engine@ == report.engine@,
        opt_text(r.verdict) == opt_text(report.verdict),
        r.findings == stored,
        r.actions == queued.actions@.len(),
        opt_text(r.detail) == outcome_detail(*report, texts(queued.held@)),
{
    let detail = match failure_line(report) {
        Some(line) => Some(line),
        None => match &report.degraded {
            Some(why) => Some(why.clone()),
            None => {
                if queued.held.is_empty() {
                    None
                } else {
                    Some(join(&queued.held, "\n"))
                }
            },
        },
    };
    assert(texts(queued.held@).len() == queued.held@.len());
    let terminal = terminal_status(report.status, any_awaiting(&queued.actions));
    RunOutcome {
        run_id,
        repo: repo.to_owned(),
        change: report.change.clone(),
        status: terminal.as_str().to_owned(),
        engine: report.engine.clone(),
        verdict: report.verdict.clone(),
        findings: stored,
        actions: queued.actions.len(),
        detail,
    }
}

/// A finding on a review page.
#[derive(Clone, Debug, PartialEq, Eq)]
pub struct PageFinding {
    /// How bad.
    pub severity: String,
    /// One line.
    pub title: String,
    /// Where, when it names a file.
    pub location: Option<String>,
}

/// A stored finding, as far as a page lists it.
#[derive(Clone, Debug, PartialEq, Eq)]
pub struct PageEntry {
    /// Whether it is to be published.
    pub publishable: bool,
    /// How bad.
    pub severity: Severity,
    /// One line.
    pub title: String,
    /// The file it names.
    pub file: Option<String>,
    /// The first line it names.
    pub line_start: Option<u32>,
}

/// Where a finding is, as a page shows it.
pub open spec fn location(e: PageEntry) -> Option<Seq<char>> {
    match e.file {
        Some(file) => match e.line_start {
            Some(line) => Some(file@ + ":"@ + decimal(line as nat)),
            None => Some(file@),
        },
        None => None,
    }
}

/// The entries that are to be published, in order.
pub open spec fn listed(entries: Seq<PageEntry>) -> Seq<PageEntry>
    decreases entries.len(),
{
    if entries.len() == 0 {
        Seq::empty()
    } else if entries.last().publishable {
        listed(entries.drop_last()).push(entries.last())
    } else {
        listed(entries.drop_last())
    }
}

/// The findings a review page lists: those that reached a tracker. Listing others would send a
/// reader looking for tickets that were never filed.
pub fn page_findings(entries: &Vec<PageEntry>) -> (r: Vec<PageFinding>)
    ensures
        r@.len() == listed(entries@).len(),
        forall|i: int|
            0 <= i < r@.len() ==> (#[trigger] r@[i]).severity@ == listed(entries@)[i].severity.word()
                && r@[i].title@ == listed(entries@)[i].title@ && opt_text(r@[i].location) == location(
                listed(entries@)[i],
            ),
{
    let mut r: Vec<PageFinding> = Vec::new();
    let mut i: usize = 0;
    assert(entries@.take(0) =~= Seq::empty());
    while i < entries.len()
        invariant
            i <= entries.len(),
            r@.len() == listed(entries@.take(i as int)).len(),
            forall|k: int|
                0 <= k < r@.len() ==> (#[trigger] r@[k]).severity@ == listed(
                    entries@.take(i as int),
                )[k].severity.word() && r@[k].title@ == listed(entries@.take(i as int))[k].title@
                    && opt_text(r@[k].location) == location(listed(entries@.take(i as int))[k]),
        decreases entries.len() - i,
    {
        assert(entries@.take(i + 1).drop_last() =~= entries@.take(i as int));
        let e = &entries[i];
        if e.publishable {
            let place = match &e.file {
                Some(file) => match e.line_start {
                    Some(line) => Some(cat3(file.as_str(), ":", num(line as u64).as_str())),
                    None => Some(file.clone()),
                },
                None => None,
            };
            r.push(
                PageFinding {
                    severity: e.severity.as_str().to_owned(),
                    title: e.title.clone(),
                    location: place,
                },
            );
        }
        i += 1;
    }
    assert(entries@.take(entries@.len() as int) =~= entries@);
    r
}

// --- runs to store ---

/// Why a pass could not go on.
#[derive(Clone, Debug, PartialEq, Eq)]
pub enum ExecutorError {
    /// The database could not be reached.
    Store {
        /// Why.
        source: String,
    },
    /// The engine that a repository names could not be built.
    Engine {
        /// Why.
        source: EngineError,
    },
    /// A review that somebody asked for was held before it could start.
    ManualHeld {
        /// Why.
        detail: String,
    },
    /// Publishing cannot be set up safely for this repository.
    PublishConfig {
        /// What must be corrected.
        detail: String,
    },
}

impl ExecutorError {
    /// The error in words.
    pub fn describe(&self) -> (r: String)
        ensures
            r@ == match *self {
                Self::Store { source } => "could not reach the local database: "@ + source@
                    + "\n  try: revlocal db migrate"@,
                Self::Engine { source } => fault_in_words(source@),
                Self::ManualHeld { detail } => detail@,
                Self::PublishConfig { detail } => detail@,
            },
    {
        match self {
            Self::Store { source } => cat3(
                "could not reach the local database: ",
                source.as_str(),
                "\n  try: revlocal db migrate",
            ),
            Self::Engine { source } => source.describe(),
            Self::ManualHeld { detail } => detail.clone(),
            Self::PublishConfig { detail } => detail.clone(),
        }
    }
}

/// That a payload could not be written down, and which.
pub fn unencodable(what: &str, error: &str) -> (r: ExecutorError)
    ensures
        r is PublishConfig,
        r->PublishConfig_detail@ == "could not encode the "@ + what@ + " payload: "@ + error@,
{
    ExecutorError::PublishConfig { detail: cat4("could not encode the ", what, " payload: ", error) }
}

/// Whether a run is a fresh one: nothing has been done for it, spent on it or said of it.
pub open spec fn is_fresh_run(run: Run) -> bool {
    &&& run.id == 0
    &&& run.error is None
    &&& run.error_detail is None
    &&& run.degraded is None
    &&& run.usage == Usage::zero()
    &&& run.started_at is None
    &&& run.transcript_path is None
    &&& !run.truncated
    &&& run.omitted_files@.len() == 0
    &&& run.verdict is None
    &&& run.summary is None
}

fn fresh_run(
    change_id: i64,
    attempt: u32,
    status: RunStatus,
    engine: EngineKind,
    depth: Depth,
    trigger: TriggerSource,
    skip_reason: Option<String>,
    finished_at: Option<Timestamp>,
    at: Timestamp,
) -> (r: Run)
    ensures
        is_fresh_run(r),
        r.change_id == change_id,
        r.attempt == attempt,
        r.status == status,
        r.engine == engine,
        r.depth == depth,
        r.trigger == trigger,
        r.skip_reason == skip_reason,
        r.finished_at == finished_at,
        r.created_at == at,
{
    Run {
        id: 0,
        change_id,
        attempt,
        status,
        engine,
        depth,
        trigger,
        skip_reason,
        error: None,
        error_detail: None,
        degraded: None,
        usage: Usage::none(),
        started_at: None,
        finished_at,
        transcript_path: None,
        truncated: false,
        omitted_files: Vec::new(),
        verdict: None,
        summary: None,
        created_at: at,
    }
}

/// The run that is queued for a change that has none.
pub fn queued_run(change_id: i64, engine: EngineKind, trigger: TriggerSource, at: Timestamp) -> (r: Run)
    ensures
        is_fresh_run(r),
        r.change_id == change_id,
        r.attempt == 1,
        r.status == RunStatus::Queued,
        r.engine == engine,
        r.depth == Depth::Standard,
        r.trigger == trigger,
        r.skip_reason is None,
        r.finished_at is None,
        r.created_at == at,
{
    fresh_run(change_id, 1, RunStatus::Queued, engine, Depth::Standard, trigger, None, None, at)
}

/// The run that is queued for a change that somebody asked to have reviewed, given the attempts
/// made of it already.
pub fn enqueue_manual(
    change_id: i64,
    external_id: &str,
    attempts: &Vec<u32>,
    engine: EngineKind,
    at: Timestamp,
) -> (r: Result<Run, ExecutorError>)
    ensures
        match r {
            Ok(run) => {
                &&& is_fresh_run(run)
                &&& run.change_id == change_id
                &&& run.attempt == following_attempt(attempts@)
                &&& run.status == RunStatus::Queued
                &&& run.engine == engine
                &&& run.depth == Depth::Standard
                &&& run.trigger == TriggerSource::Manual
                &&& run.skip_reason is None
                &&& run.finished_at is None
                &&& run.created_at == at
            },
            Err(e) => following_attempt(attempts@) > u32::MAX && e is ManualHeld && e->ManualHeld_detail@
                == "change "@ + external_id@ + " has exhausted its run-attempt counter"@,
        },
{
    match manual_attempt(external_id, attempts) {
        Ok(attempt) => Ok(
            fresh_run(
                change_id,
                attempt,
                RunStatus::Queued,
                engine,
                Depth::Standard,
                TriggerSource::Manual,
                None,
                None,
                at,
            ),
        ),
        Err(detail) => Err(ExecutorError::ManualHeld { detail }),
    }
}

/// The run that stands for a change deliberately not reviewed.
pub fn skipped_run(change_id: i64, engine: EngineKind, trigger: TriggerSource, reason: &str, at: Timestamp) -> (r: Run)
    ensures
        is_fresh_run(r),
        r.change_id == change_id,
        r.attempt == 1,
        r.status == RunStatus::Skipped,
        r.engine == engine,
        r.depth == Depth::Summary,
        r.trigger == trigger,
        opt_text(r.skip_reason) == Some(reason@),
        r.finished_at == Some(at),
        r.created_at == at,
{
    fresh_run(
        change_id,
        1,
        RunStatus::Skipped,
        engine,
        Depth::Summary,
        trigger,
        Some(reason.to_owned()),
        Some(at),
        at,
    )
}

/// Whether a verdict is written so.
pub open spec fn verdict_written(word: Seq<char>) -> spec_fn(Verdict) -> bool {
    |v: Verdict| v.word() == word
}

/// The verdict of a name, of those there are.
pub open spec fn verdict_of(known: Seq<Verdict>, word: Seq<char>) -> Option<Verdict> {
    match first_index(known, verdict_written(word)) {
        Some(i) => Some(known[i]),
        None => None,
    }
}

/// The verdict of a name, of those there are.
pub fn verdict_named(known: &Vec<Verdict>, word: &str) -> (r: Option<Verdict>)
    ensures
        r == verdict_of(known@, word@),
{
    let ghost p = verdict_written(word@);
    let mut i: usize = 0;
    while i < known.len()
        invariant
            i <= known.len(),
            p == verdict_written(word@),
            forall|j: int| 0 <= j < i ==> !p(#[trigger] known@[j]),
        decreases known.len() - i,
    {
        let v: Verdict = known[i];
        if same(v.as_str(), word) {
            proof {
                first_index_is(known@, p, i as int);
            }
            return Some(v);
        }
        i += 1;
    }
    proof {
        first_index_none(known@, p);
    }
    None
}

/// Whether a record is that of a run's review. The review's own account decides: a review whose
/// engine could not run at all is never recorded as a clean one.
pub open spec fn records(
    record: Run,
    run: Run,
    report: ReviewReport,
    known: Seq<Verdict>,
    transcript: Option<Seq<char>>,
    at: Timestamp,
) -> bool {
    &&& record.id == run.id
    &&& record.change_id == run.change_id
    &&& record.attempt == run.attempt
    &&& record.status == run.status
    &&& record.engine == run.engine
    &&& record.depth == run.depth
    &&& record.trigger == run.trigger
    &&& record.created_at == run.created_at
    &&& opt_text(record.error) == opt_text(report.failure)
    &&& opt_text(record.error_detail) == opt_text(report.failure_detail)
    &&& opt_text(record.skip_reason) == opt_text(report.skip_reason)
    &&& record.usage == report.usage
    &&& record.verdict == match report.verdict {
        Some(word) => verdict_of(known, word@),
        None => None,
    }
    &&& opt_text(record.summary) == Some(report.summary@)
    &&& opt_text(record.transcript_path) == transcript
    &&& record.truncated == report.truncated
    &&& texts(record.omitted_files@) == texts(report.omitted_files@)
    &&& opt_text(record.degraded) == opt_text(report.degraded)
    &&& record.started_at == Some(at)
    &&& record.finished_at == Some(at)
}

/// The record of a run's review, to be stored before the run is moved to its end: one that says
/// done and carries no usage would make the ledger disagree with itself.
pub fn record_result(
    run: &Run,
    report: &ReviewReport,
    known: &Vec<Verdict>,
    transcript: Option<String>,
    at: Timestamp,
) -> (r: Run)
    ensures
        records(r, *run, *report, known@, opt_text(transcript), at),
{
    Run {
        id: run.id,
        change_id: run.change_id,
        attempt: run.attempt,
        status: run.status,
        engine: run.engine,
        depth: run.depth,
        trigger: run.trigger,
        skip_reason: report.skip_reason.clone(),
        error: report.failure.clone(),
        error_detail: report.failure_detail.clone(),
        degraded: report.degraded.clone(),
        usage: report.usage,
        started_at: Some(at),
        finished_at: Some(at),
        transcript_path: transcript,
        truncated: report.truncated,
        omitted_files: copy_texts(&report.omitted_files),
        verdict: match &report.verdict {
            Some(word) => verdict_named(known, word.as_str()),
            None => None,
        },
        summary: Some(report.summary.clone()),
        created_at: run.created_at,
    }
}

// --- a run under way ---

/// A run under way.
#[derive(Debug)]
pub struct Execution {
    /// The run.
    pub run_id: i64,
    /// Where it has got to.
    pub status: RunStatus,
}

impl Execution {
    /// Take a run off the queue, or say why it stays there.
    pub fn begin(run_id: i64, repo: &Option<RepoStanding>, verdict: &BudgetVerdict) -> (r: Result<
        (Execution, RunEvent),
        String,
    >)
        ensures
            match r {
                Ok(begun) => {
                    &&& hold(run_id, *repo, *verdict) is None
                    &&& begun.0.run_id == run_id
                    &&& begun.0.status == RunStatus::Preparing
                    &&& begun.1 == (RunEvent::StageChanged {
                        run: run_id,
                        from: RunStatus::Queued,
                        to: RunStatus::Preparing,
                    })
                },
                Err(line) => hold(run_id, *repo, *verdict) == Some(line@),
            },
    {
        match hold_reason(run_id, repo, verdict) {
            Some(line) => Err(line),
            None => Ok(
                (
                    Execution { run_id, status: RunStatus::Preparing },
                    RunEvent::StageChanged {
                        run: run_id,
                        from: RunStatus::Queued,
                        to: RunStatus::Preparing,
                    },
                ),
            ),
        }
    }

    /// Whether a step can happen where the run is.
    pub open spec fn allows(self, step: RunStep) -> bool {
        next_status(self.status, step) is Some
    }

    /// Go on by a step: the move to store, and then to announce.
    pub fn go(&mut self, step: RunStep) -> (r: RunEvent)
        requires
            old(self).allows(step),
        ensures
            final(self).run_id == old(self).run_id,
            Some(final(self).status) == next_status(old(self).status, step),
            r == (RunEvent::StageChanged {
                run: old(self).run_id,
                from: old(self).status,
                to: final(self).status,
            }),
    {
        let from = self.status;
        match advance(from, step) {
            Some(to) => {
                self.status = to;
            },
            None => {},
        }
        RunEvent::StageChanged { run: self.run_id, from, to: self.status }
    }

    /// Give up on the run: the move to announce, and the line that is told. A run that stopped with
    /// no record would look like one that was reviewed and found clean.
    pub fn fail(&mut self, detail: &str) -> (r: (RunEvent, String))
        requires
            old(self).status == RunStatus::Preparing || old(self).status == RunStatus::Reviewing,
        ensures
            final(self).run_id == old(self).run_id,
            final(self).status == RunStatus::Failed,
            r.0 == (RunEvent::StageChanged {
                run: old(self).run_id,
                from: old(self).status,
                to: RunStatus::Failed,
            }),
            r.1@ == "run #"@ + decimal_int(old(self).run_id as int) + ": "@ + detail@,
    {
        let event = self.go(RunStep::Failed);
        (event, failed_line(self.run_id, detail))
    }
}

/// That no scratch directory could be made.
pub fn no_scratch(data_dir: &str, error: &str) -> (r: String)
    ensures
        r@ == "could not create a scratch directory under "@ + data_dir@ + ": "@ + error@,
{
    cat4("could not create a scratch directory under ", data_dir, ": ", error)
}

/// Why a repository's changes cannot be laid out for review, by its kind. Said rather than read as
/// git: the diff would be empty and the review would look clean.
pub fn cannot_materialize(kind: RepoKind) -> (r: Option<&'static str>)
    ensures
        opt_str(r) == if kind == RepoKind::Svn {
            Some(
                "SVN repositories are not executed by this pass yet; `revlocal review` reviews one revision at a time"@,
            )
        } else {
            None
        },
{
    match kind {
        RepoKind::Svn => Some(
            "SVN repositories are not executed by this pass yet; `revlocal review` reviews one revision at a time",
        ),
        _ => None,
    }
}

/// Where a run's transcript is kept.
pub fn transcript_path(data_dir: &str, run_id: i64) -> (r: String)
    ensures
        r@ == joined_path(joined_path(data_dir@, "transcripts"@), decimal_int(run_id as int) + ".log"@),
{
    join_path(
        join_path(data_dir, "transcripts").as_str(),
        cat2(signed(run_id).as_str(), ".log").as_str(),
    )
}

/// A change's name, short enough for a title: its first twelve bytes, where they are whole
/// characters.
pub open spec fn short_name(change: Seq<char>) -> Seq<char> {
    if byte_len(fitting(change, 12)) == 12 {
        fitting(change, 12)
    } else {
        change
    }
}

/// A change's name, short enough for a title.
pub fn short_id(change: &str) -> (r: String)
    ensures
        r@ == short_name(change@),
{
    let short = cut_to_fit(change, 12);
    if bytes_in(short.as_str()) == 12 {
        short
    } else {
        change.to_owned()
    }
}

impl ExecutorReport {
    /// A pass that has done nothing yet. While the kill switch is engaged that is all of it: queued
    /// runs stay queued, which is what makes it reversible.
    pub fn new(paused: bool) -> (r: ExecutorReport)
        ensures
            r.finished@.len() == 0,
            r.held@.len() == 0,
            r.paused == paused,
    {
        ExecutorReport { finished: Vec::new(), held: Vec::new(), paused }
    }

    /// Take note of a run that was cancelled before it started.
    pub fn cancelled(&mut self, run_id: i64)
        ensures
            final(self).finished == old(self).finished,
            final(self).paused == old(self).paused,
            texts(final(self).held@) == texts(old(self).held@).push(
                "run #"@ + decimal_int(run_id as int) + ": cancelled before it started"@,
            ),
    {
        let ghost was = self.held@;
        let line = cancelled_line(run_id);
        self.held.push(line);
        assert(texts(self.held@) =~= texts(was).push(line@));
    }

    /// Take note of what a run came to, or why it did not go ahead.
    pub fn took(&mut self, result: Result<RunOutcome, String>)
        ensures
            final(self).paused == old(self).paused,
            match result {
                Ok(outcome) => {
                    &&& final(self).finished@ == old(self).finished@.push(outcome)
                    &&& final(self).held == old(self).held
                },
                Err(line) => {
                    &&& final(self).finished == old(self).finished
                    &&& texts(final(self).held@) == texts(old(self).held@).push(line@)
                },
            },
    {
        match result {
            Ok(outcome) => self.finished.push(outcome),
            Err(line) => {
                let ghost was = self.held@;
                self.held.push(line);
                assert(texts(self.held@) =~= texts(was).push(line@));
            },
        }
    }
}

// --- what holds of every run ---

/// A run whose engine failed is never recorded as done.
pub proof fn a_failed_review_is_a_failed_run(awaiting: bool)
    ensures
        settled(ReviewStatus::Failed, awaiting) == RunStatus::Failed,
        settled(ReviewStatus::Skipped, awaiting) == RunStatus::Skipped,
{
}

/// A run ends as done only after every stage before it: the only way there is out of
/// publishing.
pub proof fn done_comes_after_publishing(at: RunStatus, step: RunStep)
    requires
        next_status(at, step) == Some(RunStatus::Done) || next_status(at, step) == Some(
            RunStatus::AwaitingApproval,
        ),
    ensures
        at == RunStatus::Publishing,
        step matches RunStep::Queued { status, .. } && status == ReviewStatus::Done,
{
}

/// Until a run has failed, the steps of a review can be taken in their order and in no other: each
/// is allowed where the one before it leads, and only there.
pub proof fn a_run_goes_through_its_stages_in_order(step: RunStep, at: RunStatus)
    ensures
        next_status(RunStatus::Preparing, RunStep::Prepared) == Some(RunStatus::Reviewing),
        next_status(RunStatus::Reviewing, RunStep::Reviewed) == Some(RunStatus::Synthesizing),
        next_status(RunStatus::Synthesizing, RunStep::Stored) == Some(RunStatus::Publishing),
        next_status(at, RunStep::Reviewed) is Some ==> at == RunStatus::Reviewing,
        next_status(at, RunStep::Stored) is Some ==> at == RunStatus::Synthesizing,
        step is Queued && next_status(at, step) is Some ==> at == RunStatus::Publishing,
{
}

/// What is recorded of a failed review is a failure: its code is on the record whatever else is.
pub proof fn a_failure_is_on_the_record(
    record: Run,
    run: Run,
    report: ReviewReport,
    known: Seq<Verdict>,
    transcript: Option<Seq<char>>,
    at: Timestamp,
)
    requires
        records(record, run, report, known, transcript, at),
        report.failure is Some,
    ensures
        opt_text(record.error) == Some(report.failure->0@),
{
}

/// A finished run stays as it is.
pub proof fn a_finished_run_stays(at: RunStatus, step: RunStep)
    requires
        at == RunStatus::Done || at == RunStatus::Failed || at == RunStatus::Skipped || at
            == RunStatus::Cancelled || at == RunStatus::AwaitingApproval,
    ensures
        next_status(at, step) is None,
{
}

/// No action is planned twice: of two with the same target, the keys differ.
pub proof fn no_action_is_planned_twice(actions: Seq<ActionView>, filed: Seq<FiledKey>, i: int, j: int)
    requires
        0 <= i < j < fresh(actions, filed).len(),
        fresh(actions, filed)[i].target == fresh(actions, filed)[j].target,
    ensures
        fresh(actions, filed)[i].key != fresh(actions, filed)[j].key,
    decreases actions.len(),
{
    let before = fresh(actions.drop_last(), filed);
    let a = actions.last();
    if is_filed(filed, a) || is_planned(before, a) {
        no_action_is_planned_twice(actions.drop_last(), filed, i, j);
    } else if j < before.len() {
        no_action_is_planned_twice(actions.drop_last(), filed, i, j);
    } else {
        assert(before.push(a)[i] == before[i]);
        assert(!(before[i].target == a.target && before[i].key == a.key));
    }
}

/// Nothing that is in the store already is planned again.
pub proof fn nothing_filed_is_planned_again(actions: Seq<ActionView>, filed: Seq<FiledKey>, i: int)
    requires
        0 <= i < fresh(actions, filed).len(),
    ensures
        !is_filed(filed, fresh(actions, filed)[i]),
    decreases actions.len(),
{
    let before = fresh(actions.drop_last(), filed);
    let a = actions.last();
    if is_filed(filed, a) || is_planned(before, a) || i < before.len() {
        nothing_filed_is_planned_again(actions.drop_last(), filed, i);
    }
}

/// Nothing is dropped in silence: where there is something to publish and nothing is queued,
/// something is said.
pub proof fn a_run_that_queues_nothing_says_so(inputs: QueueInputs, filed: Seq<FiledKey>)
    requires
        inputs.mode != AutonomyMode::Off,
        publishable_count(inputs.findings@) > 0,
        planned(inputs, filed).len() == 0,
    ensures
        held_notes(inputs, filed).len() > 0,
{
    let n = inputs.findings@.len() as int;
    if setting_notes(inputs).len() == 0 {
        // Some target takes issues, so something was owed, and all of it was filed before.
        assert(issue_targets(inputs).len() > 0);
        assert(inputs.findings@.take(n) =~= inputs.findings@);
        something_is_owed(inputs, n);
        assert(fresh(owed(inputs, n), filed).len() == 0);
    }
}

proof fn something_is_owed(inputs: QueueInputs, n: int)
    requires
        0 <= n <= inputs.findings@.len(),
        issue_targets(inputs).len() > 0,
        publishable_count(inputs.findings@.take(n)) > 0,
    ensures
        owed(inputs, n).len() > 0,
    decreases n,
{
    let all = inputs.findings@;
    if n > 0 {
        assert(all.take(n).drop_last() =~= all.take(n - 1));
        assert(all.take(n).last() == all[n - 1]);
        if !all[n - 1].publishable {
            something_is_owed(inputs, n - 1);
        }
    } else {
        assert(all.take(0) =~= Seq::empty());
    }
}

/// Every planned action is an issue that one finding owes at one target, or the page: the finding
/// is to be published, the target is one that findings are filed at, and the key is that of the
/// target, the fingerprint and the run.
pub proof fn every_planned_action_is_owed(inputs: QueueInputs, filed: Seq<FiledKey>, i: int)
    requires
        0 <= i < planned(inputs, filed).len(),
    ensures
        match planned(inputs, filed)[i].finding {
            Some(at) => {
                let target = planned(inputs, filed)[i].target;
                &&& 0 <= at < inputs.findings@.len()
                &&& inputs.findings@[at].publishable
                &&& issue_targets(inputs).contains(target)
                &&& planned(inputs, filed)[i] == issue_action(inputs, at, target)
                &&& planned(inputs, filed)[i].key == issue_key(
                    target,
                    inputs.findings@[at].fingerprint@,
                    inputs.run_id,
                )
            },
            None => can_file(inputs, Target::Trama) && planned(inputs, filed)[i] == page_action(inputs),
        },
{
    let n = inputs.findings@.len() as int;
    let issues = fresh(owed(inputs, n), filed);
    if i < issues.len() {
        let k = fresh_is_among(owed(inputs, n), filed, i);
        owed_is_owed(inputs, n, k);
    }
}

proof fn fresh_is_among(actions: Seq<ActionView>, filed: Seq<FiledKey>, i: int) -> (k: int)
    requires
        0 <= i < fresh(actions, filed).len(),
    ensures
        0 <= k < actions.len(),
        actions[k] == fresh(actions, filed)[i],
    decreases actions.len(),
{
    let before = fresh(actions.drop_last(), filed);
    if i < before.len() {
        fresh_is_among(actions.drop_last(), filed, i)
    } else {
        actions.len() - 1
    }
}

proof fn owed_is_owed(inputs: QueueInputs, n: int, k: int)
    requires
        0 <= n <= inputs.findings@.len(),
        0 <= k < owed(inputs, n).len(),
    ensures
        owed(inputs, n)[k].finding matches Some(at) && 0 <= at < n && inputs.findings@[at].publishable
            && issue_targets(inputs).contains(owed(inputs, n)[k].target) && owed(inputs, n)[k]
            == issue_action(inputs, at, owed(inputs, n)[k].target),
    decreases n,
{
    let before = owed(inputs, n - 1);
    if k < before.len() {
        owed_is_owed(inputs, n - 1, k);
    } else {
        let make = |t: Target| issue_action(inputs, n - 1, t);
        let mine = issue_targets(inputs).map_values(make);
        assert(owed(inputs, n)[k] == mine[k - before.len()]);
        assert(issue_targets(inputs)[k - before.len()] == owed(inputs, n)[k].target);
    }
}

/// No action of a run is planned twice: of two for the same target, the page included, the keys
/// differ.
pub proof fn no_action_of_a_run_is_planned_twice(inputs: QueueInputs, filed: Seq<FiledKey>, i: int, j: int)
    requires
        0 <= i < j < planned(inputs, filed).len(),
        planned(inputs, filed)[i].target == planned(inputs, filed)[j].target,
    ensures
        planned(inputs, filed)[i].key != planned(inputs, filed)[j].key,
{
    let all = owed(inputs, inputs.findings@.len() as int);
    let issues = fresh(all, filed);
    if j < issues.len() {
        no_action_is_planned_twice(all, filed, i, j);
    } else {
        every_planned_action_is_owed(inputs, filed, i);
        let k = fresh_is_among(all, filed, i);
        owed_is_owed(inputs, inputs.findings@.len() as int, k);
        assert(!issue_targets(inputs).contains(Target::Trama));
    }
}

/// Nothing of a run that is in the store already is planned again, the page included.
pub proof fn nothing_filed_of_a_run_is_planned_again(inputs: QueueInputs, filed: Seq<FiledKey>, i: int)
    requires
        0 <= i < planned(inputs, filed).len(),
    ensures
        !is_filed(filed, planned(inputs, filed)[i]),
{
    let all = owed(inputs, inputs.findings@.len() as int);
    if i < fresh(all, filed).len() {
        nothing_filed_is_planned_again(all, filed, i);
    }
}

/// Whatever was planned for a run is not planned again once it is in the store: a repeated call
/// for the same run, over a store that has the planned actions and those it had before, plans
/// nothing.
pub proof fn a_repeated_call_plans_nothing(inputs: QueueInputs, filed: Seq<FiledKey>, later: Seq<FiledKey>)
    requires
        forall|i: int| 0 <= i < planned(inputs, filed).len() ==> is_filed(later, #[trigger] planned(inputs, filed)[i]),
        forall|a: ActionView| is_filed(filed, a) ==> #[trigger] is_filed(later, a),
    ensures
        planned(inputs, later).len() == 0,
{
    if inputs.mode != AutonomyMode::Off {
        let all = owed(inputs, inputs.findings@.len() as int);
        let issues = fresh(all, filed);
        assert forall|i: int| 0 <= i < issues.len() implies is_filed(later, #[trigger] issues[i]) by {
            assert(planned(inputs, filed)[i] == issues[i]);
        }
        what_is_filed_is_not_fresh(all, filed, later);
        if can_file(inputs, Target::Trama) && !is_filed(filed, page_action(inputs)) {
            assert(planned(inputs, filed)[issues.len() as int] == page_action(inputs));
        }
    }
}

proof fn what_is_filed_is_not_fresh(actions: Seq<ActionView>, filed: Seq<FiledKey>, later: Seq<FiledKey>)
    requires
        forall|i: int| 0 <= i < fresh(actions, filed).len() ==> is_filed(later, #[trigger] fresh(actions, filed)[i]),
        forall|a: ActionView| is_filed(filed, a) ==> #[trigger] is_filed(later, a),
    ensures
        fresh(actions, later).len() == 0,
    decreases actions.len(),
{
    if actions.len() > 0 {
        let before = fresh(actions.drop_last(), filed);
        let a = actions.last();
        let whole = fresh(actions, filed);
        assert forall|i: int| 0 <= i < before.len() implies is_filed(later, #[trigger] before[i]) by {
            assert(whole[i] == before[i]);
        }
        what_is_filed_is_not_fresh(actions.drop_last(), filed, later);
        if is_filed(filed, a) {
            assert(is_filed(later, a));
        } else if is_planned(before, a) {
            let j = choose|j: int|
                0 <= j < before.len() && (#[trigger] before[j]).target == a.target && before[j].key == a.key;
            assert(is_filed(later, before[j]));
            let f = choose|f: int|
                0 <= f < later.len() && (#[trigger] later[f]).target == before[j].target && later[f].key@
                    == before[j].key;
            assert(later[f].target == a.target && later[f].key@ == a.key);
        } else {
            assert(whole[before.len() as int] == a);
        }
    }
}

/// A mode that is off queues nothing and says nothing.
pub proof fn a_mode_that_is_off_queues_nothing(inputs: QueueInputs, filed: Seq<FiledKey>)
    requires
        inputs.mode == AutonomyMode::Off,
    ensures
        planned(inputs, filed).len() == 0,
        held_notes(inputs, filed).len() == 0,
{
}

/// The first write to an outside system is approved by a human, whatever the mode: no action
/// that is planned for a target at which none has succeeded is stored as one to be sent, and
/// under the widest mode it is stored as waiting for approval.
pub proof fn the_first_write_is_approved(inputs: QueueInputs, filed: Seq<FiledKey>, i: int)
    requires
        0 <= i < planned(inputs, filed).len(),
        planned(inputs, filed)[i].target.lands() == Destination::External,
        !inputs.written_to@.contains(planned(inputs, filed)[i].target),
    ensures
        planned(inputs, filed)[i].status != PublishActionStatus::Pending,
        inputs.mode == AutonomyMode::Auto ==> planned(inputs, filed)[i].status
            == PublishActionStatus::AwaitingApproval,
{
    every_planned_action_is_owed(inputs, filed, i);
}

/// Under a dry run everything is recorded and nothing is sent.
pub proof fn a_dry_run_only_records(inputs: QueueInputs, filed: Seq<FiledKey>, i: int)
    requires
        inputs.mode == AutonomyMode::DryRun,
        0 <= i < planned(inputs, filed).len(),
    ensures
        planned(inputs, filed)[i].status == PublishActionStatus::SkippedDryRun,
{
    every_planned_action_is_owed(inputs, filed, i);
}

// --- what is queued, told from the findings and the settings ---

/// Whether a repository's settings let findings be filed at a target.
proof fn what_can_be_filed(inputs: QueueInputs, target: Target)
    ensures
        can_file(inputs, Target::Andare) == (texts(inputs.config.targets@).contains("andare"@)
            && inputs.config.andare_project is Some && !is_blank(inputs.config.andare_project->0@)),
        can_file(inputs, Target::Github) == (texts(inputs.config.targets@).contains("github"@)
            && inputs.github_slug is Some),
        can_file(inputs, Target::Report) == texts(inputs.config.targets@).contains("report"@),
        can_file(inputs, Target::Trama) == (texts(inputs.config.targets@).contains("trama"@)
            && inputs.config.trama_space is Some && !is_blank(inputs.config.trama_space->0@)),
        issue_targets(inputs).contains(target) == (target != Target::Trama && can_file(inputs, target)),
{
    let all = issue_targets(inputs);
    let andare: Seq<Target> = if can_file(inputs, Target::Andare) {
        seq![Target::Andare]
    } else {
        seq![]
    };
    let github: Seq<Target> = if can_file(inputs, Target::Github) {
        seq![Target::Github]
    } else {
        seq![]
    };
    let report: Seq<Target> = if can_file(inputs, Target::Report) {
        seq![Target::Report]
    } else {
        seq![]
    };
    assert(all == andare + github + report);
    if can_file(inputs, Target::Andare) {
        assert(all[0] == Target::Andare);
    }
    if can_file(inputs, Target::Github) {
        assert(all[andare.len() as int] == Target::Github);
    }
    if can_file(inputs, Target::Report) {
        assert(all[(andare.len() + github.len()) as int] == Target::Report);
    }
    if all.contains(target) {
        let k = choose|k: int| 0 <= k < all.len() && all[k] == target;
        if k < andare.len() {
        } else if k < andare.len() + github.len() {
        } else {
        }
    }
}

/// An issue is as risky as where it lands: filing a finding on this machine has its local risk,
/// and filing it anywhere else its external one. A page has its own.
pub proof fn a_risk_goes_by_where_it_lands(inputs: QueueInputs, filed: Seq<FiledKey>, i: int)
    requires
        0 <= i < planned(inputs, filed).len(),
    ensures
        ({
            let a = planned(inputs, filed)[i];
            match a.finding {
                Some(at) => {
                    &&& 0 <= at < inputs.findings@.len()
                    &&& a.capability == Capability::CreateIssue
                    &&& a.target == Target::Report ==> a.risk == inputs.findings@[at].local_risk
                    &&& a.target == Target::Andare || a.target == Target::Github ==> a.risk
                        == inputs.findings@[at].external_risk
                    &&& a.target != Target::Trama
                },
                None => a.target == Target::Trama && a.capability == Capability::UpsertDoc && a.risk
                    == inputs.page_risk,
            }
        }),
{
    every_planned_action_is_owed(inputs, filed, i);
    if planned(inputs, filed)[i].finding is Some {
        what_can_be_filed(inputs, planned(inputs, filed)[i].target);
    }
}

/// What an action is stored as: under a dry run it is only recorded. Otherwise it waits for a
/// person where it is a first write to an outside target, or where it is risky and the mode asks
/// before what is risky; and else it goes.
pub proof fn what_is_risky_waits(inputs: QueueInputs, filed: Seq<FiledKey>, i: int)
    requires
        0 <= i < planned(inputs, filed).len(),
    ensures
        ({
            let a = planned(inputs, filed)[i];
            let first = a.target != Target::Report && !inputs.written_to@.contains(a.target);
            a.status == if inputs.mode == AutonomyMode::DryRun {
                PublishActionStatus::SkippedDryRun
            } else if first || (inputs.mode == AutonomyMode::AutoLowAskHigh && a.risk == RiskClass::High) {
                PublishActionStatus::AwaitingApproval
            } else {
                PublishActionStatus::Pending
            }
        }),
        inputs.mode != AutonomyMode::Off,
{
    every_planned_action_is_owed(inputs, filed, i);
}

/// No issue that is risky elsewhere is sent elsewhere without a person, where the mode asks before
/// what is risky.
pub proof fn nothing_risky_leaves_unasked(inputs: QueueInputs, filed: Seq<FiledKey>, i: int)
    requires
        inputs.mode == AutonomyMode::AutoLowAskHigh,
        0 <= i < planned(inputs, filed).len(),
        planned(inputs, filed)[i].finding matches Some(at) && inputs.findings@[at].external_risk
            == RiskClass::High,
        planned(inputs, filed)[i].target != Target::Report,
    ensures
        planned(inputs, filed)[i].status == PublishActionStatus::AwaitingApproval,
{
    a_risk_goes_by_where_it_lands(inputs, filed, i);
    what_is_risky_waits(inputs, filed, i);
}

/// What makes an action the same: its target's name, its fingerprint and its run, in words; a page
/// is one per run.
pub proof fn the_key_tells_target_finding_and_run(inputs: QueueInputs, filed: Seq<FiledKey>, i: int)
    requires
        0 <= i < planned(inputs, filed).len(),
    ensures
        ({
            let a = planned(inputs, filed)[i];
            let run = decimal_int(inputs.run_id as int);
            match a.finding {
                Some(at) => {
                    let print = inputs.findings@[at].fingerprint@;
                    &&& a.target == Target::Andare ==> a.key == "andare"@ + "-"@ + print + "-run"@ + run
                    &&& a.target == Target::Github ==> a.key == "github"@ + "-"@ + print + "-run"@ + run
                    &&& a.target == Target::Report ==> a.key == "report"@ + "-"@ + print + "-run"@ + run
                },
                None => a.key == "trama-run-"@ + run,
            }
        }),
{
    every_planned_action_is_owed(inputs, filed, i);
}

/// Nothing is planned for a target that the settings do not name, or that lacks what it needs.
pub proof fn nothing_goes_where_nobody_said(inputs: QueueInputs, filed: Seq<FiledKey>, i: int)
    requires
        0 <= i < planned(inputs, filed).len(),
    ensures
        match planned(inputs, filed)[i].target {
            Target::Andare => texts(inputs.config.targets@).contains("andare"@) && inputs.config.andare_project is Some
                && !is_blank(inputs.config.andare_project->0@),
            Target::Github => texts(inputs.config.targets@).contains("github"@) && inputs.github_slug is Some,
            Target::Report => texts(inputs.config.targets@).contains("report"@),
            Target::Trama => texts(inputs.config.targets@).contains("trama"@) && inputs.config.trama_space is Some
                && !is_blank(inputs.config.trama_space->0@),
        },
        planned(inputs, filed)[i].finding matches Some(at) ==> inputs.findings@[at].publishable,
{
    every_planned_action_is_owed(inputs, filed, i);
    what_can_be_filed(inputs, planned(inputs, filed)[i].target);
}

proof fn owed_holds(inputs: QueueInputs, n: int, at: int, target: Target) -> (k: int)
    requires
        0 <= at < n <= inputs.findings@.len(),
        inputs.findings@[at].publishable,
        issue_targets(inputs).contains(target),
    ensures
        0 <= k < owed(inputs, n).len(),
        owed(inputs, n)[k] == issue_action(inputs, at, target),
    decreases n,
{
    let before = owed(inputs, n - 1);
    if at == n - 1 {
        let make = |t: Target| issue_action(inputs, n - 1, t);
        let mine = issue_targets(inputs).map_values(make);
        let m = choose|m: int| 0 <= m < issue_targets(inputs).len() && issue_targets(inputs)[m] == target;
        assert(mine[m] == issue_action(inputs, at, target));
        assert(owed(inputs, n) =~= before + mine);
        assert(owed(inputs, n)[before.len() + m] == mine[m]);
        before.len() + m
    } else {
        let k = owed_holds(inputs, n - 1, at, target);
        assert(owed(inputs, n)[k] == before[k]);
        k
    }
}

proof fn fresh_or_filed(actions: Seq<ActionView>, filed: Seq<FiledKey>, k: int)
    requires
        0 <= k < actions.len(),
    ensures
        is_filed(filed, actions[k]) || is_planned(fresh(actions, filed), actions[k]),
    decreases actions.len(),
{
    let before = fresh(actions.drop_last(), filed);
    let whole = fresh(actions, filed);
    let a = actions[k];
    if k == actions.len() - 1 {
        if !is_filed(filed, a) && !is_planned(before, a) {
            assert(whole[before.len() as int] == a);
        }
    } else {
        fresh_or_filed(actions.drop_last(), filed, k);
        if is_planned(before, a) {
            let j = choose|j: int|
                0 <= j < before.len() && (#[trigger] before[j]).target == a.target && before[j].key == a.key;
            assert(whole[j] == before[j]);
        }
    }
}

/// Every finding that is to be published is filed at every target that takes issues: an action with
/// its key is planned, or is in the store already. And so is the page, where pages are written.
pub proof fn every_finding_reaches_every_target(
    inputs: QueueInputs,
    filed: Seq<FiledKey>,
    at: int,
    target: Target,
)
    requires
        inputs.mode != AutonomyMode::Off,
        0 <= at < inputs.findings@.len(),
        inputs.findings@[at].publishable,
        match target {
            Target::Andare => texts(inputs.config.targets@).contains("andare"@) && inputs.config.andare_project is Some
                && !is_blank(inputs.config.andare_project->0@),
            Target::Github => texts(inputs.config.targets@).contains("github"@) && inputs.github_slug is Some,
            Target::Report => texts(inputs.config.targets@).contains("report"@),
            Target::Trama => false,
        },
    ensures
        ({
            let key = target.word() + "-"@ + inputs.findings@[at].fingerprint@ + "-run"@ + decimal_int(
                inputs.run_id as int,
            );
            ||| exists|i: int|
                0 <= i < planned(inputs, filed).len() && (#[trigger] planned(inputs, filed)[i]).target == target
                    && planned(inputs, filed)[i].key == key
            ||| exists|i: int| 0 <= i < filed.len() && (#[trigger] filed[i]).target == target && filed[i].key@ == key
        }),
{
    what_can_be_filed(inputs, target);
    let n = inputs.findings@.len() as int;
    let all = owed(inputs, n);
    let k = owed_holds(inputs, n, at, target);
    fresh_or_filed(all, filed, k);
    let a = all[k];
    let issues = fresh(all, filed);
    if is_planned(issues, a) {
        let j = choose|j: int|
            0 <= j < issues.len() && (#[trigger] issues[j]).target == a.target && issues[j].key == a.key;
        assert(planned(inputs, filed)[j] == issues[j]);
    }
}

/// The page of a review is planned where pages are written, unless it is in the store already.
pub proof fn the_page_is_planned(inputs: QueueInputs, filed: Seq<FiledKey>)
    requires
        inputs.mode != AutonomyMode::Off,
        texts(inputs.config.targets@).contains("trama"@),
        inputs.config.trama_space is Some,
        !is_blank(inputs.config.trama_space->0@),
        forall|i: int|
            0 <= i < filed.len() && (#[trigger] filed[i]).target == Target::Trama ==> filed[i].key@ != "trama-run-"@
                + decimal_int(inputs.run_id as int),
    ensures
        planned(inputs, filed).len() > 0,
        planned(inputs, filed).last().target == Target::Trama,
        planned(inputs, filed).last().finding is None,
{
    what_can_be_filed(inputs, Target::Trama);
    assert(!is_filed(filed, page_action(inputs)));
}

/// A target that findings cannot reach is said, with the repository: that nothing is switched on,
/// or that the setting it needs is missing.
pub proof fn a_missing_setting_is_said(inputs: QueueInputs, filed: Seq<FiledKey>)
    requires
        inputs.mode != AutonomyMode::Off,
        publishable_count(inputs.findings@) > 0,
    ensures
        ({
            let targets = texts(inputs.config.targets@);
            let notes = held_notes(inputs, filed);
            let said = |what: Seq<char>|
                exists|i: int|
                    0 <= i < notes.len() && within(#[trigger] notes[i], what) && within(
                        notes[i],
                        "`"@ + inputs.repo_name@ + "`"@,
                    );
            &&& targets.contains("andare"@) && (inputs.config.andare_project is None || is_blank(
                inputs.config.andare_project->0@,
            )) ==> said("filed to Andare"@)
            &&& targets.contains("github"@) && inputs.github_slug is None ==> said("filed to GitHub"@)
            &&& targets.contains("trama"@) && (inputs.config.trama_space is None || is_blank(
                inputs.config.trama_space->0@,
            )) ==> said("no review page was written"@)
            &&& !targets.contains("andare"@) && !targets.contains("github"@) && !targets.contains("report"@)
                ==> said("no publish targets enabled"@)
        }),
{
    let targets = texts(inputs.config.targets@);
    let notes = held_notes(inputs, filed);
    let n = publishable_count(inputs.findings@);
    let head = "run #"@ + decimal_int(inputs.run_id as int) + ": "@;
    let filing = head + decimal(n) + " finding(s) were not "@;
    let repo = inputs.repo_name@;
    let settings = setting_notes(inputs);
    what_can_be_filed(inputs, Target::Andare);
    let nowhere = !targets.contains("andare"@) && !targets.contains("report"@) && !can_file(inputs, Target::Github);
    let a: int = if nowhere {
        1
    } else {
        0
    };
    let no_andare = targets.contains("andare"@) && !can_file(inputs, Target::Andare);
    let b: int = if no_andare {
        a + 1
    } else {
        a
    };
    let no_github = targets.contains("github"@) && !can_file(inputs, Target::Github);
    let c: int = if no_github {
        b + 1
    } else {
        b
    };
    let no_trama = targets.contains("trama"@) && !can_file(inputs, Target::Trama);
    reveal_strlit("`");
    if nowhere {
        reveal_strlit("published — `");
        reveal_strlit("published — ");
        reveal_strlit("no publish targets enabled");
        reveal_strlit(
            "` has no publish targets enabled\n  try: add `report` to that repository's `targets` to write them to disk",
        );
        let first = "published — `"@;
        let last =
            "` has no publish targets enabled\n  try: add `report` to that repository's `targets` to write them to disk"@;
        let whole = filing + first + repo + last;
        assert(settings[0] == whole);
        assert(notes[0] == whole);
        assert(whole =~= (filing + "published — "@) + ("`"@ + repo + "`"@) + last.skip(1));
        stands_inside(filing + "published — "@, "`"@ + repo + "`"@, last.skip(1));
        assert(last =~= last.take(6) + "no publish targets enabled"@ + last.skip(32));
        assert(whole =~= (filing + first + repo + last.take(6)) + "no publish targets enabled"@ + last.skip(32));
        stands_inside(filing + first + repo + last.take(6), "no publish targets enabled"@, last.skip(32));
    }
    if no_andare {
        reveal_strlit("filed to Andare — `");
        reveal_strlit("filed to Andare");
        reveal_strlit(
            "` has no Andare project set\n  try: set the project key under “Where findings go” on that repository's screen",
        );
        let first = "filed to Andare — `"@;
        let last =
            "` has no Andare project set\n  try: set the project key under “Where findings go” on that repository's screen"@;
        let whole = filing + first + repo + last;
        assert(settings[a] == whole);
        assert(notes[a] == whole);
        names_what_and_where(filing, "filed to Andare"@, first, repo, last);
    }
    if no_github {
        reveal_strlit("filed to GitHub — `");
        reveal_strlit("filed to GitHub");
        reveal_strlit(
            "` has no recognisable GitHub remote\n  try: set the repository's remote URL, or remove `github` from its `targets`",
        );
        let first = "filed to GitHub — `"@;
        let last =
            "` has no recognisable GitHub remote\n  try: set the repository's remote URL, or remove `github` from its `targets`"@;
        let whole = filing + first + repo + last;
        assert(settings[b] == whole);
        assert(notes[b] == whole);
        names_what_and_where(filing, "filed to GitHub"@, first, repo, last);
    }
    if no_trama {
        reveal_strlit("no review page was written — `");
        reveal_strlit("no review page was written");
        reveal_strlit(
            "` has no Trama space set\n  try: set `trama_space` in that repository's configuration, or remove `trama` from its `targets`",
        );
        let first = "no review page was written — `"@;
        let last =
            "` has no Trama space set\n  try: set `trama_space` in that repository's configuration, or remove `trama` from its `targets`"@;
        let whole = head + first + repo + last;
        assert(settings[c] == whole);
        assert(notes[c] == whole);
        names_what_and_where(head, "no review page was written"@, first, repo, last);
    }
}

proof fn names_what_and_where(
    head: Seq<char>,
    what: Seq<char>,
    first: Seq<char>,
    repo: Seq<char>,
    last: Seq<char>,
)
    requires
        what.is_prefix_of(first),
        first.len() > what.len(),
        first.last() == '`',
        last.len() > 0,
        last[0] == '`',
    ensures
        within(head + first + repo + last, what),
        within(head + first + repo + last, "`"@ + repo + "`"@),
{
    reveal_strlit("`");
    let whole = head + first + repo + last;
    let rest = first.skip(what.len() as int) + repo + last;
    assert(what =~= first.subrange(0, what.len() as int));
    assert(first =~= what + first.skip(what.len() as int));
    assert(whole =~= head + what + rest);
    stands_inside(head, what, rest);
    assert(whole =~= (head + first.drop_last()) + ("`"@ + repo + "`"@) + last.skip(1));
    stands_inside(head + first.drop_last(), "`"@ + repo + "`"@, last.skip(1));
}

/// A further attempt comes after every one there was, and right after the last of them.
pub proof fn a_further_attempt_comes_after_all(attempts: Seq<u32>, i: int)
    ensures
        attempts.len() == 0 ==> following_attempt(attempts) == 1,
        0 <= i < attempts.len() ==> following_attempt(attempts) > attempts[i],
        following_attempt(attempts) == 1 || exists|k: int|
            0 <= k < attempts.len() && following_attempt(attempts) == (#[trigger] attempts[k]) + 1,
    decreases attempts.len(),
{
    if attempts.len() > 0 {
        let before = attempts.drop_last();
        a_further_attempt_comes_after_all(before, i);
        if attempts.last() > most(before) {
            assert(following_attempt(attempts) == attempts[attempts.len() - 1] + 1);
        } else if following_attempt(before) != 1 {
            let k = choose|k: int| 0 <= k < before.len() && following_attempt(before) == (#[trigger] before[k]) + 1;
            assert(following_attempt(attempts) == attempts[k] + 1);
        }
        if 0 <= i < before.len() {
            assert(before[i] == attempts[i]);
        }
    }
}

/// Why nothing ran is told: that everything is paused, or else what held each run; and nothing is
/// where nothing was held.
pub proof fn why_nothing_ran_is_told(report: ExecutorReport, i: int)
    ensures
        report.paused ==> report.idle_text() == Some(
            "Paused: the kill switch is engaged, so nothing is being reviewed."@,
        ),
        !report.paused && 0 <= i < report.held@.len() ==> report.idle_text() is Some && within(
            report.idle_text()->0,
            report.held@[i]@,
        ),
        !report.paused && report.held@.len() == 0 ==> report.idle_text() is None,
{
    if !report.paused && 0 <= i < report.held@.len() {
        a_part_is_joined(texts(report.held@), "\n"@, i);
    }
}

/// A run goes ahead where its repository is there, is enabled and has its checkout, and its budget is
/// not spent; and nowhere else. What holds one names the run, and the repository where there is one.
pub proof fn when_a_run_goes_ahead(run: i64, repo: Option<RepoStanding>, verdict: BudgetVerdict)
    ensures
        hold(run, repo, verdict) is None <==> repo is Some && repo->0.enabled && repo->0.checkout_present
            && verdict is WithinBudget,
        hold(run, repo, verdict) matches Some(why) ==> ("run #"@ + decimal_int(run as int) + ": "@).is_prefix_of(why),
        repo matches Some(standing) ==> !standing.enabled || !standing.checkout_present ==> within(
            hold(run, repo, verdict)->0,
            standing.name@,
        ),
        repo matches Some(standing) ==> standing.enabled && standing.checkout_present ==> (
        verdict matches BudgetVerdict::Exhausted { reason, .. } ==> hold(run, repo, verdict) == Some(
            "run #"@ + decimal_int(run as int) + ": "@ + reason@,
        )),
{
    let head = "run #"@ + decimal_int(run as int) + ": "@;
    let none = Seq::<char>::empty();
    if let Some(why) = hold(run, repo, verdict) {
        assert(why.subrange(0, head.len() as int) =~= head);
    }
    if let Some(standing) = repo {
        let name = standing.name@;
        if !standing.enabled {
            stands_inside(head, name, " is disabled"@);
        } else if !standing.checkout_present {
            let path = opt_text(standing.local_path);
            a_missing_checkout_is_said(name, if path is Some {
                path->0
            } else {
                none
            });
            let gone = missing_checkout(name, path);
            inside_stays(head, gone, none, name);
            assert(head + gone + none =~= head + gone);
        }
    }
}

/// How a run ends: as its review did, and waiting where something of it waits.
pub proof fn how_a_run_ends(status: ReviewStatus, awaiting: bool)
    ensures
        settled(status, awaiting) == RunStatus::Failed <==> status is Failed,
        settled(status, awaiting) == RunStatus::Skipped <==> status is Skipped,
        settled(status, awaiting) == RunStatus::AwaitingApproval <==> status is Done && awaiting,
        settled(status, awaiting) == RunStatus::Done <==> status is Done && !awaiting,
        next_status(RunStatus::Publishing, RunStep::Queued { status, awaiting }) == Some(settled(status, awaiting)),
{
}

/// What is told of a run is the worst of what happened to it: that it failed and how, that its answer
/// had to be salvaged, or what was held back.
pub proof fn the_worst_is_told(report: ReviewReport, held: Seq<Seq<char>>, i: int)
    ensures
        report.failure matches Some(code) ==> outcome_detail(report, held) is Some && code@.is_prefix_of(
            outcome_detail(report, held)->0,
        ),
        report.failure is Some && report.failure_detail is Some ==> within(
            outcome_detail(report, held)->0,
            report.failure_detail->0@,
        ),
        report.failure is None ==> (report.degraded matches Some(why) ==> outcome_detail(report, held) == Some(why@)),
        report.failure is None && report.degraded is None && 0 <= i < held.len() ==> outcome_detail(report, held) is Some
            && within(outcome_detail(report, held)->0, held[i]),
        report.failure is None && report.degraded is None && held.len() == 0 ==> outcome_detail(report, held) is None,
{
    let none = Seq::<char>::empty();
    if let Some(code) = report.failure {
        let all = outcome_detail(report, held)->0;
        assert(all.subrange(0, code@.len() as int) =~= code@);
        if let Some(detail) = report.failure_detail {
            stands_inside(code@ + " — "@, detail@, none);
            assert(code@ + " — "@ + detail@ + none =~= all);
        }
    } else if report.degraded is None && 0 <= i < held.len() {
        a_part_is_joined(held, "\n"@, i);
    }
}

/// A page lists what is to be published, in order, and nothing else; where each is is its file, with
/// the line where there is one.
pub proof fn a_page_lists_what_is_published(entries: Seq<PageEntry>, one: PageEntry)
    ensures
        listed(Seq::empty()).len() == 0,
        one.publishable ==> listed(entries.push(one)) == listed(entries).push(one),
        !one.publishable ==> listed(entries.push(one)) == listed(entries),
        location(one) is Some == one.file is Some,
        one.file is Some && one.line_start is None ==> location(one) == Some(one.file->0@),
        one.file is Some && one.line_start is Some ==> location(one) == Some(
            one.file->0@ + ":"@ + decimal(one.line_start->0 as nat),
        ),
{
    assert(entries.push(one).drop_last() =~= entries);
}

/// A change's short name is the first twelve characters of one that is written plainly and has as many,
/// and all of one that has not.
pub proof fn how_a_change_is_called_for_short(change: Seq<char>)
    ensures
        byte_len(change) <= 12 ==> short_name(change) == change,
        short_name(change).is_prefix_of(change),
        short_name(change) == change || byte_len(short_name(change)) == 12,
        change.len() >= 12 && byte_len(change.take(12)) == 12 ==> short_name(change) == change.take(12),
{
    as_much_is_shown_as_fits(change, 12);
    assert(change.subrange(0, change.len() as int) =~= change);
    if change.len() >= 12 && byte_len(change.take(12)) == 12 {
        let part = fitting(change, 12);
        let n = part.len() as int;
        assert(part =~= change.take(n));
        if n < 12 {
            shorter_is_less(change.take(12), n + 1);
            assert(change.take(12).take(n + 1) =~= change.take(n + 1));
        } else if n > 12 {
            shorter_is_less(part, 12);
            longer_is_more(part, 12);
            assert(part.take(12) =~= change.take(12));
        }
    }
}

proof fn shorter_is_less(s: Seq<char>, n: int)
    requires
        0 <= n <= s.len(),
    ensures
        byte_len(s.take(n)) <= byte_len(s),
{
    encode_utf8_of_sum(s.take(n), s.skip(n));
    assert(s.take(n) + s.skip(n) =~= s);
}

proof fn longer_is_more(s: Seq<char>, n: int)
    requires
        0 <= n < s.len(),
    ensures
        byte_len(s.take(n)) < byte_len(s),
{
    let rest = s.skip(n);
    encode_utf8_of_sum(s.take(n), rest);
    assert(s.take(n) + rest =~= s);
    vstd::utf8::char_is_scalar(rest[0]);
    assert(byte_len(rest) > 0);
}

/// What a run came to is recorded: what it was stays, and what its review said is taken over.
pub proof fn what_a_run_came_to_is_recorded(
    record: Run,
    run: Run,
    report: ReviewReport,
    known: Seq<Verdict>,
    transcript: Option<Seq<char>>,
    at: Timestamp,
)
    requires
        records(record, run, report, known, transcript, at),
    ensures
        record.id == run.id && record.change_id == run.change_id && record.attempt == run.attempt,
        record.status == run.status && record.engine == run.engine && record.depth == run.depth,
        record.trigger == run.trigger && record.created_at == run.created_at,
        opt_text(record.error) == opt_text(report.failure),
        opt_text(record.error_detail) == opt_text(report.failure_detail),
        opt_text(record.skip_reason) == opt_text(report.skip_reason),
        opt_text(record.degraded) == opt_text(report.degraded),
        opt_text(record.summary) == Some(report.summary@),
        opt_text(record.transcript_path) == transcript,
        record.usage == report.usage,
        record.truncated == report.truncated,
        texts(record.omitted_files@) == texts(report.omitted_files@),
        record.started_at == Some(at) && record.finished_at == Some(at),
        report.verdict is None ==> record.verdict is None,
        record.verdict matches Some(v) ==> report.verdict is Some && v.word() == report.verdict->0@ && known.contains(v),
        report.verdict matches Some(word) ==> record.verdict is None ==> forall|k: int|
            0 <= k < known.len() ==> (#[trigger] known[k]).word() != word@,
{
    if let Some(word) = report.verdict {
        let p = verdict_written(word@);
        first_index_means(known, p);
        if record.verdict is None {
            assert forall|k: int| 0 <= k < known.len() implies (#[trigger] known[k]).word() != word@ by {
                assert(!p(known[k]));
            }
        }
    }
}

/// Nothing was done for a fresh run, nothing spent on it and nothing said of it.
pub proof fn a_fresh_run_is_blank(run: Run)
    requires
        is_fresh_run(run),
    ensures
        run.usage.tokens_in == 0 && run.usage.tokens_out == 0 && run.usage.cost_bits is None,
        run.error is None && run.error_detail is None && run.degraded is None,
        run.started_at is None && run.transcript_path is None,
        run.verdict is None && run.summary is None,
        !run.truncated && run.omitted_files@.len() == 0,
{
}

/// A run waits for somebody where one of its actions does, and only there.
pub proof fn when_a_run_waits(actions: Seq<PlannedAction>, i: int)
    ensures
        0 <= i < actions.len() && actions[i].status == PublishActionStatus::AwaitingApproval ==> awaits(actions),
        (forall|k: int|
            0 <= k < actions.len() ==> (#[trigger] actions[k]).status != PublishActionStatus::AwaitingApproval)
            ==> !awaits(actions),
{
}

/// What can happen to a run under way: it is taken from the queue, prepared, reviewed, stored and
/// published, one after the other, and it can fail while it is prepared or reviewed.
pub proof fn what_can_happen_to_a_run(run: Execution, status: ReviewStatus, awaiting: bool)
    ensures
        run.allows(RunStep::Taken) <==> run.status is Queued,
        run.allows(RunStep::Prepared) <==> run.status is Preparing,
        run.allows(RunStep::Reviewed) <==> run.status is Reviewing,
        run.allows(RunStep::Stored) <==> run.status is Synthesizing,
        run.allows(RunStep::Queued { status, awaiting }) <==> run.status is Publishing,
        run.allows(RunStep::Failed) <==> run.status is Preparing || run.status is Reviewing,
{
}

/// A target is told by its name.
pub proof fn a_target_is_told_by_its_name(target: Target)
    ensures
        target.word() == "andare"@ <==> target is Andare,
        target.word() == "github"@ <==> target is Github,
        target.word() == "report"@ <==> target is Report,
        target.word() == "trama"@ <==> target is Trama,
        target.lands() == Destination::Local <==> target is Report,
{
    reveal_strlit("andare");
    reveal_strlit("github");
    reveal_strlit("report");
    reveal_strlit("trama");
    assert("andare"@[0] == 'a' && "github"@[0] == 'g' && "report"@[0] == 'r' && "trama"@[0] == 't');
}

} // verus!
