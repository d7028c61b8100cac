//! The things a review is about: repositories, changes, runs, findings and the
//! actions that come of them.

use vstd::prelude::*;

use crate::clock::Timestamp;

verus! {

/// How much may be done unattended, from nothing to everything.
#[derive(Clone, Copy, Debug, PartialEq, Eq, Structural)]
pub enum AutonomyMode {
    /// No reviews run.
    Off,
    /// Reviews run and nothing is sent.
    DryRun,
    /// Low-risk actions are sent, the rest wait for a person.
    AutoLowAskHigh,
    /// Everything is sent.
    Auto,
}

impl AutonomyMode {
    /// How this is written.
    pub open spec fn word(self) -> Seq<char> {
        match self {
            Self::Off => "off"@,
            Self::DryRun => "dry_run"@,
            Self::AutoLowAskHigh => "auto_low_ask_high"@,
            Self::Auto => "auto"@,
        }
    }

    /// How this is written.
    pub fn as_str(self) -> (r: &'static str)
        ensures
            r@ == self.word(),
    {
        match self {
            Self::Off => "off",
            Self::DryRun => "dry_run",
            Self::AutoLowAskHigh => "auto_low_ask_high",
            Self::Auto => "auto",
        }
    }
}

/// How risky an action is.
#[derive(Clone, Copy, Debug, PartialEq, Eq, Structural)]
pub enum RiskClass {
    /// Nothing needs asking.
    Low,
    /// A person should see it first.
    High,
}

impl RiskClass {
    /// How this is written.
    pub open spec fn word(self) -> Seq<char> {
        match self {
            Self::Low => "low"@,
            Self::High => "high"@,
        }
    }

    /// How this is written.
    pub fn as_str(self) -> (r: &'static str)
        ensures
            r@ == self.word(),
    {
        match self {
            Self::Low => "low",
            Self::High => "high",
        }
    }
}

/// How bad a finding is, from the least to the worst.
#[derive(Clone, Copy, Debug, PartialEq, Eq, PartialOrd, Ord, Structural)]
pub enum Severity {
    /// Worth knowing.
    Info,
    /// A small matter.
    Low,
    /// A matter to look at.
    Medium,
    /// A matter to fix.
    High,
    /// A matter to fix now.
    Critical,
}

impl Severity {
    /// How this is written.
    pub open spec fn word(self) -> Seq<char> {
        match self {
            Self::Info => "info"@,
            Self::Low => "low"@,
            Self::Medium => "medium"@,
            Self::High => "high"@,
            Self::Critical => "critical"@,
        }
    }

    /// How this is written.
    pub fn as_str(self) -> (r: &'static str)
        ensures
            r@ == self.word(),
    {
        match self {
            Self::Info => "info",
            Self::Low => "low",
            Self::Medium => "medium",
            Self::High => "high",
            Self::Critical => "critical",
        }
    }
}

/// How closely a change is read, from the lightest to the closest.
#[derive(Clone, Copy, Debug, PartialEq, Eq, PartialOrd, Ord, Structural)]
pub enum Depth {
    /// What it is about.
    Summary,
    /// An ordinary review.
    Standard,
    /// A review that also tries to refute its own findings.
    Deep,
}

impl Depth {
    /// How this is written.
    pub open spec fn word(self) -> Seq<char> {
        match self {
            Self::Summary => "summary"@,
            Self::Standard => "standard"@,
            Self::Deep => "deep"@,
        }
    }

    /// How this is written.
    pub fn as_str(self) -> (r: &'static str)
        ensures
            r@ == self.word(),
    {
        match self {
            Self::Summary => "summary",
            Self::Standard => "standard",
            Self::Deep => "deep",
        }
    }
}

/// What kind of problem a finding is.
#[derive(Clone, Copy, Debug, PartialEq, Eq, Structural)]
pub enum Category {
    /// A wrong result or a crash.
    Correctness,
    /// Untrusted input where it is trusted.
    Security,
    /// Drift from the repository's own conventions.
    Convention,
    /// Behaviour that no test would catch regressing.
    Tests,
    /// Work that is slower than it need be.
    Perf,
    /// Anything else.
    Other,
}

impl Category {
    /// How this is written.
    pub open spec fn word(self) -> Seq<char> {
        match self {
            Self::Correctness => "correctness"@,
            Self::Security => "security"@,
            Self::Convention => "convention"@,
            Self::Tests => "tests"@,
            Self::Perf => "perf"@,
            Self::Other => "other"@,
        }
    }

    /// How this is written.
    pub fn as_str(self) -> (r: &'static str)
        ensures
            r@ == self.word(),
    {
        match self {
            Self::Correctness => "correctness",
            Self::Security => "security",
            Self::Convention => "convention",
            Self::Tests => "tests",
            Self::Perf => "perf",
            Self::Other => "other",
        }
    }
}

/// Where a finding stands.
#[derive(Clone, Copy, Debug, PartialEq, Eq, Structural)]
pub enum FindingState {
    /// Reported, and to be published.
    Open,
    /// Published.
    Published,
    /// A person asked not to hear of it.
    Suppressed,
    /// The same finding is already known.
    Superseded,
}

impl FindingState {
    /// How this is written.
    pub open spec fn word(self) -> Seq<char> {
        match self {
            Self::Open => "open"@,
            Self::Published => "published"@,
            Self::Suppressed => "suppressed"@,
            Self::Superseded => "superseded"@,
        }
    }

    /// How this is written.
    pub fn as_str(self) -> (r: &'static str)
        ensures
            r@ == self.word(),
    {
        match self {
            Self::Open => "open",
            Self::Published => "published",
            Self::Suppressed => "suppressed",
            Self::Superseded => "superseded",
        }
    }
}

/// Where a run has got to.
#[derive(Clone, Copy, Debug, PartialEq, Eq, Structural)]
pub enum RunStatus {
    /// Waiting to start.
    Queued,
    /// Being set up.
    Preparing,
    /// With the engine.
    Reviewing,
    /// Findings are being stored.
    Synthesizing,
    /// Actions are being queued.
    Publishing,
    /// Waiting for a person.
    AwaitingApproval,
    /// Finished.
    Done,
    /// Could not finish.
    Failed,
    /// Deliberately not reviewed.
    Skipped,
    /// Stopped by a person.
    Cancelled,
}

impl RunStatus {
    /// How this is written.
    pub open spec fn word(self) -> Seq<char> {
        match self {
            Self::Queued => "queued"@,
            Self::Preparing => "preparing"@,
            Self::Reviewing => "reviewing"@,
            Self::Synthesizing => "synthesizing"@,
            Self::Publishing => "publishing"@,
            Self::AwaitingApproval => "awaiting_approval"@,
            Self::Done => "done"@,
            Self::Failed => "failed"@,
            Self::Skipped => "skipped"@,
            Self::Cancelled => "cancelled"@,
        }
    }

    /// How this is written.
    pub fn as_str(self) -> (r: &'static str)
        ensures
            r@ == self.word(),
    {
        match self {
            Self::Queued => "queued",
            Self::Preparing => "preparing",
            Self::Reviewing => "reviewing",
            Self::Synthesizing => "synthesizing",
            Self::Publishing => "publishing",
            Self::AwaitingApproval => "awaiting_approval",
            Self::Done => "done",
            Self::Failed => "failed",
            Self::Skipped => "skipped",
            Self::Cancelled => "cancelled",
        }
    }
}

/// Where a publish action stands.
#[derive(Clone, Copy, Debug, PartialEq, Eq, Structural)]
pub enum PublishActionStatus {
    /// To be sent.
    Pending,
    /// Waiting for a person.
    AwaitingApproval,
    /// A person said yes.
    Approved,
    /// Delivered.
    Sent,
    /// Could not be delivered.
    Failed,
    /// Not to be sent.
    Rejected,
    /// Recorded, and never sent.
    SkippedDryRun,
}

impl PublishActionStatus {
    /// How this is written.
    pub open spec fn word(self) -> Seq<char> {
        match self {
            Self::Pending => "pending"@,
            Self::AwaitingApproval => "awaiting_approval"@,
            Self::Approved => "approved"@,
            Self::Sent => "sent"@,
            Self::Failed => "failed"@,
            Self::Rejected => "rejected"@,
            Self::SkippedDryRun => "skipped_dry_run"@,
        }
    }

    /// How this is written.
    pub fn as_str(self) -> (r: &'static str)
        ensures
            r@ == self.word(),
    {
        match self {
            Self::Pending => "pending",
            Self::AwaitingApproval => "awaiting_approval",
            Self::Approved => "approved",
            Self::Sent => "sent",
            Self::Failed => "failed",
            Self::Rejected => "rejected",
            Self::SkippedDryRun => "skipped_dry_run",
        }
    }
}

/// What started a run.
#[derive(Clone, Copy, Debug, PartialEq, Eq, Structural)]
pub enum TriggerSource {
    /// The poller.
    Poll,
    /// A hook in the repository.
    Hook,
    /// A delivery from the forge.
    Webhook,
    /// A person.
    Manual,
    /// A sweep over history.
    Backfill,
}

impl TriggerSource {
    /// How this is written.
    pub open spec fn word(self) -> Seq<char> {
        match self {
            Self::Poll => "poll"@,
            Self::Hook => "hook"@,
            Self::Webhook => "webhook"@,
            Self::Manual => "manual"@,
            Self::Backfill => "backfill"@,
        }
    }

    /// How this is written.
    pub fn as_str(self) -> (r: &'static str)
        ensures
            r@ == self.word(),
    {
        match self {
            Self::Poll => "poll",
            Self::Hook => "hook",
            Self::Webhook => "webhook",
            Self::Manual => "manual",
            Self::Backfill => "backfill",
        }
    }
}

/// What kind of repository it is.
#[derive(Clone, Copy, Debug, PartialEq, Eq, Structural)]
pub enum RepoKind {
    /// A git checkout.
    Git,
    /// A repository on GitHub.
    GitHub,
    /// A Subversion working copy.
    Svn,
}

impl RepoKind {
    /// How this is written.
    pub open spec fn word(self) -> Seq<char> {
        match self {
            Self::Git => "git"@,
            Self::GitHub => "github"@,
            Self::Svn => "svn"@,
        }
    }

    /// How this is written.
    pub fn as_str(self) -> (r: &'static str)
        ensures
            r@ == self.word(),
    {
        match self {
            Self::Git => "git",
            Self::GitHub => "github",
            Self::Svn => "svn",
        }
    }
}

/// Which engine reviews, by the name that it is configured under.
#[derive(Clone, Copy, Debug, PartialEq, Eq)]
pub struct EngineKind {
    /// Its name.
    pub name: &'static str,
}

impl EngineKind {
    /// How this is written.
    pub open spec fn word(self) -> Seq<char> {
        self.name@
    }

    /// Whether this is the engine that spends nothing and invents its findings.
    pub open spec fn mocks(self) -> bool {
        self.name@ == "mock"@
    }

    /// How this is written.
    pub fn as_str(self) -> (r: &'static str)
        ensures
            r@ == self.word(),
    {
        self.name
    }

    /// The engine that spends nothing and invents its findings.
    pub fn mock() -> (r: EngineKind)
        ensures
            r.word() == "mock"@,
            r.mocks(),
    {
        EngineKind { name: "mock" }
    }
}

/// The stance a review takes.
#[derive(Clone, Copy, Debug, PartialEq, Eq)]
pub struct Verdict {
    /// How it is written.
    pub name: &'static str,
    /// Whether something is to be changed first.
    pub blocking: bool,
}

impl Verdict {
    /// How this is written.
    pub open spec fn word(self) -> Seq<char> {
        self.name@
    }

    /// How this is written.
    pub fn as_str(self) -> (r: &'static str)
        ensures
            r@ == self.word(),
    {
        self.name
    }
}

/// What an action does at its target.
#[derive(Clone, Copy, Debug, PartialEq, Eq, Structural)]
pub enum Capability {
    /// Post a review.
    PostReview,
    /// File an issue.
    CreateIssue,
    /// Write a page.
    UpsertDoc,
}

impl Capability {
    /// How this is written.
    pub open spec fn word(self) -> Seq<char> {
        match self {
            Self::PostReview => "post_review"@,
            Self::CreateIssue => "create_issue"@,
            Self::UpsertDoc => "upsert_doc"@,
        }
    }

    /// How this is written.
    pub fn as_str(self) -> (r: &'static str)
        ensures
            r@ == self.word(),
    {
        match self {
            Self::PostReview => "post_review",
            Self::CreateIssue => "create_issue",
            Self::UpsertDoc => "upsert_doc",
        }
    }
}

/// What happens when an allowance runs out.
#[derive(Clone, Copy, Debug, PartialEq, Eq, Structural)]
pub enum OnExhausted {
    /// Stop reviewing.
    Pause,
    /// Hold the work.
    Queue,
    /// Record the change as skipped.
    Skip,
}

impl OnExhausted {
    /// How this is written.
    pub open spec fn word(self) -> Seq<char> {
        match self {
            Self::Pause => "pause"@,
            Self::Queue => "queue"@,
            Self::Skip => "skip"@,
        }
    }

    /// How this is written.
    pub fn as_str(self) -> (r: &'static str)
        ensures
            r@ == self.word(),
    {
        match self {
            Self::Pause => "pause",
            Self::Queue => "queue",
            Self::Skip => "skip",
        }
    }
}

/// What kind of change it is.
#[derive(Clone, Copy, Debug, PartialEq, Eq, Structural)]
pub enum ChangeKind {
    /// A commit.
    Commit,
    /// A pull request.
    Pr,
    /// A Subversion revision.
    SvnRev,
    /// A Subversion branch read as one change.
    SvnPseudoPr,
}

impl ChangeKind {
    /// How this is written.
    pub open spec fn word(self) -> Seq<char> {
        match self {
            Self::Commit => "commit"@,
            Self::Pr => "pr"@,
            Self::SvnRev => "svn_rev"@,
            Self::SvnPseudoPr => "svn_pseudo_pr"@,
        }
    }

    /// How this is written.
    pub fn as_str(self) -> (r: &'static str)
        ensures
            r@ == self.word(),
    {
        match self {
            Self::Commit => "commit",
            Self::Pr => "pr",
            Self::SvnRev => "svn_rev",
            Self::SvnPseudoPr => "svn_pseudo_pr",
        }
    }
}

/// Where an action's effect lands.
#[derive(Clone, Copy, Debug, PartialEq, Eq, Structural)]
pub enum Destination {
    /// On this machine.
    Local,
    /// On somebody else's.
    External,
}

impl Severity {
    /// The place in the order, worst highest.
    pub open spec fn level(self) -> int {
        match self {
            Self::Info => 0,
            Self::Low => 1,
            Self::Medium => 2,
            Self::High => 3,
            Self::Critical => 4,
        }
    }

    /// The place in the order, worst highest.
    pub fn rank(self) -> (r: u8)
        ensures
            r as int == self.level(),
    {
        match self {
            Self::Info => 0,
            Self::Low => 1,
            Self::Medium => 2,
            Self::High => 3,
            Self::Critical => 4,
        }
    }
}

impl Depth {
    /// The place in the order, deepest highest.
    pub open spec fn level(self) -> int {
        match self {
            Self::Summary => 0,
            Self::Standard => 1,
            Self::Deep => 2,
        }
    }

    /// The place in the order, deepest highest.
    pub fn rank(self) -> (r: u8)
        ensures
            r as int == self.level(),
    {
        match self {
            Self::Summary => 0,
            Self::Standard => 1,
            Self::Deep => 2,
        }
    }
}

impl AutonomyMode {
    /// The place in the order, freest highest.
    pub open spec fn freedom(self) -> int {
        match self {
            Self::Off => 0,
            Self::DryRun => 1,
            Self::AutoLowAskHigh => 2,
            Self::Auto => 3,
        }
    }

    /// The mode in force: the narrower of the global one and the repository's own, so
    /// that the global mode is a ceiling.
    pub open spec fn in_force(global: AutonomyMode, repo: AutonomyMode) -> AutonomyMode {
        if repo.freedom() <= global.freedom() {
            repo
        } else {
            global
        }
    }

    /// The place in the order, freest highest.
    pub fn rank(self) -> (r: u8)
        ensures
            r as int == self.freedom(),
    {
        match self {
            Self::Off => 0,
            Self::DryRun => 1,
            Self::AutoLowAskHigh => 2,
            Self::Auto => 3,
        }
    }

    /// The mode in force: the narrower of the two.
    pub fn effective(global: AutonomyMode, repo: AutonomyMode) -> (r: AutonomyMode)
        ensures
            r == AutonomyMode::in_force(global, repo),
            r.freedom() <= global.freedom(),
            r.freedom() <= repo.freedom(),
    {
        if repo.rank() <= global.rank() {
            repo
        } else {
            global
        }
    }
}

/// What a change amounts to.
#[derive(Clone, Copy, Debug, PartialEq, Eq, Structural)]
pub struct DiffStat {
    /// Files touched.
    pub files: u32,
    /// Lines added.
    pub insertions: u64,
    /// Lines removed.
    pub deletions: u64,
}

/// One file of a change.
#[derive(Clone, Debug, PartialEq, Eq)]
pub struct FileDiff {
    /// Where it is now.
    pub path: String,
    /// Where it was, when it moved.
    pub previous_path: Option<String>,
    /// What happened to it, in a word.
    pub status: String,
    /// Lines added.
    pub insertions: u64,
    /// Lines removed.
    pub deletions: u64,
    /// Whether its content is not text.
    pub binary: bool,
}

/// What one repository is set to.
#[derive(Clone, Debug, PartialEq, Eq)]
pub struct RepoConfig {
    /// More files than this and a change is summarised.
    pub deep_file_limit: u32,
    /// Paths that deserve a deep review.
    pub sensitive_globs: Vec<String>,
    /// Labels that ask for one.
    pub deep_labels: Vec<String>,
    /// The most bytes one file's diff may take.
    pub max_file_diff_bytes: usize,
    /// The most bytes a whole diff may take.
    pub max_total_diff_bytes: usize,
    /// The most bytes that convention files may take together.
    pub max_convention_bytes: usize,
    /// Convention files beyond the usual ones.
    pub convention_files: Vec<String>,
    /// What a review looks for.
    pub scope: Vec<Category>,
    /// Branch patterns under watch.
    pub branches: Vec<String>,
    /// Whether Subversion branches are watched beside the trunk.
    pub watch_branches: bool,
    /// Whether deliveries from the forge are taken.
    pub webhook_enabled: bool,
    /// Where the secret that signs them is kept.
    pub webhook_secret_ref: Option<String>,
    /// Where findings are published.
    pub targets: Vec<String>,
    /// The Andare project that issues go to.
    pub andare_project: Option<String>,
    /// The Trama space that review pages go to.
    pub trama_space: Option<String>,
    /// Whether a review page is published rather than left a draft.
    pub trama_publish: bool,
}

/// A repository under watch.
#[derive(Clone, Debug, PartialEq, Eq)]
pub struct Repo {
    /// Its number.
    pub id: i64,
    /// Its name.
    pub name: String,
    /// What kind it is.
    pub kind: RepoKind,
    /// Where its checkout is, when there is one.
    pub local_path: Option<String>,
    /// Where it came from, when that is known.
    pub remote_url: Option<String>,
    /// The branch it is on.
    pub default_branch: Option<String>,
    /// Which engine reviews it.
    pub engine: EngineKind,
    /// How much may be done for it unattended.
    pub autonomy: AutonomyMode,
    /// Whether it is watched at all.
    pub enabled: bool,
    /// Its settings, as a document.
    pub config_json: String,
}

/// Tokens spent and their price.
#[derive(Clone, Copy, Debug, PartialEq, Eq, Structural)]
pub struct Usage {
    /// Tokens read.
    pub tokens_in: u64,
    /// Tokens written.
    pub tokens_out: u64,
    /// Whether those counts are the whole of it.
    pub tokens_known: bool,
    /// The bits of the price in dollars, as a double; nothing when it was not measured.
    pub cost_bits: Option<u64>,
}

impl Usage {
    /// Nothing spent.
    pub open spec fn zero() -> Usage {
        Usage { tokens_in: 0, tokens_out: 0, tokens_known: true, cost_bits: None }
    }

    /// Nothing spent.
    pub fn none() -> (r: Usage)
        ensures
            r == Usage::zero(),
    {
        Usage { tokens_in: 0, tokens_out: 0, tokens_known: true, cost_bits: None }
    }
}

/// What a publish action would send, and where it stands.
#[derive(Clone, Debug, PartialEq, Eq)]
pub struct PublishAction {
    /// Its number.
    pub id: i64,
    /// The run it came of.
    pub run_id: i64,
    /// The finding it carries, when it carries one.
    pub finding_id: Option<i64>,
    /// Where it goes.
    pub target: String,
    /// What it does there.
    pub capability: Capability,
    /// How risky it is.
    pub risk: RiskClass,
    /// What is sent, verbatim.
    pub payload_json: String,
    /// Where it stands.
    pub status: PublishActionStatus,
    /// When it was queued.
    pub created_at: Timestamp,
}

/// The class of an action and why it has it.
#[derive(Clone, Debug, PartialEq, Eq)]
pub struct RiskAssessment {
    /// The class.
    pub class: RiskClass,
    /// Every reason, in one line.
    pub explanation: String,
}

/// A finding, as it is stored.
#[derive(Clone, Debug, PartialEq, Eq)]
pub struct Finding {
    /// Its number; zero until it is stored.
    pub id: i64,
    /// The run that reported it.
    pub run_id: i64,
    /// What makes it the same finding in another run.
    pub fingerprint: String,
    /// How bad it is.
    pub severity: Severity,
    /// What kind of problem.
    pub category: Category,
    /// The bits of the engine's confidence, as a double.
    pub confidence_bits: u64,
    /// The file it names, when it names one.
    pub file: Option<String>,
    /// The first line it names.
    pub line_start: Option<u32>,
    /// The last line it names.
    pub line_end: Option<u32>,
    /// The claim.
    pub title: String,
    /// What is behind it.
    pub body: String,
    /// How it goes wrong.
    pub failure_scenario: Option<String>,
    /// What would mend it.
    pub suggested_fix: Option<String>,
    /// Where it stands.
    pub state: FindingState,
    /// When it was reported.
    pub created_at: Timestamp,
}

/// One review of one change.
#[derive(Clone, Debug, PartialEq, Eq)]
pub struct Run {
    /// Its number; zero until it is stored.
    pub id: i64,
    /// The change it reviews.
    pub change_id: i64,
    /// Which attempt at that change it is.
    pub attempt: u32,
    /// Where it has got to.
    pub status: RunStatus,
    /// Which engine reviews.
    pub engine: EngineKind,
    /// How closely it reads.
    pub depth: Depth,
    /// What started it.
    pub trigger: TriggerSource,
    /// Why it was skipped.
    pub skip_reason: Option<String>,
    /// A code for why it failed.
    pub error: Option<String>,
    /// What was said about it.
    pub error_detail: Option<String>,
    /// Why its output had to be salvaged.
    pub degraded: Option<String>,
    /// What it spent.
    pub usage: Usage,
    /// When it started.
    pub started_at: Option<Timestamp>,
    /// When it finished.
    pub finished_at: Option<Timestamp>,
    /// Where its transcript is.
    pub transcript_path: Option<String>,
    /// Whether the diff was reduced.
    pub truncated: bool,
    /// Files that were left out.
    pub omitted_files: Vec<String>,
    /// The stance it takes.
    pub verdict: Option<Verdict>,
    /// The engine's summary.
    pub summary: Option<String>,
    /// When it was queued.
    pub created_at: Timestamp,
}

/// A change to a repository, as it was detected.
#[derive(Clone, Debug, PartialEq, Eq)]
pub struct Change {
    /// Its number; zero until it is stored.
    pub id: i64,
    /// Which repository.
    pub repo_id: i64,
    /// What kind it is.
    pub kind: ChangeKind,
    /// What its own system calls it.
    pub external_id: String,
    /// Its message or title.
    pub title: Option<String>,
    /// Who wrote it.
    pub author_name: Option<String>,
    /// Their address.
    pub author_email: Option<String>,
    /// When it was written.
    pub authored_at: Option<Timestamp>,
    /// The branch it is on.
    pub branch: Option<String>,
    /// What it starts from.
    pub base_ref: Option<String>,
    /// What it comes to.
    pub head_ref: Option<String>,
    /// Where it can be seen.
    pub url: Option<String>,
    /// What it amounts to.
    pub diff_stat: DiffStat,
    /// When it was detected.
    pub detected_at: Timestamp,
}

/// A change as a version control system tells of it.
#[derive(Clone, Debug, PartialEq, Eq)]
pub struct DetectedChange {
    /// What kind it is.
    pub kind: ChangeKind,
    /// What its own system calls it.
    pub external_id: String,
    /// Its message or title.
    pub title: Option<String>,
    /// Who wrote it.
    pub author_name: Option<String>,
    /// Their address.
    pub author_email: Option<String>,
    /// When it was written.
    pub authored_at: Option<Timestamp>,
    /// The branch it is on.
    pub branch: Option<String>,
    /// What it starts from.
    pub base_ref: Option<String>,
    /// What it comes to.
    pub head_ref: Option<String>,
    /// Where it can be seen.
    pub url: Option<String>,
    /// What it amounts to.
    pub diff_stat: DiffStat,
    /// Where the cursor stands after it.
    pub cursor_value: String,
}

impl DetectedChange {
    /// Whether a stored change is this one.
    pub open spec fn is_stored_as(self, change: Change, repo_id: i64, at: Timestamp) -> bool {
        &&& change.id == 0
        &&& change.repo_id == repo_id
        &&& change.kind == self.kind
        &&& change.external_id == self.external_id
        &&& change.title == self.title
        &&& change.author_name == self.author_name
        &&& change.author_email == self.author_email
        &&& change.authored_at == self.authored_at
        &&& change.branch == self.branch
        &&& change.base_ref == self.base_ref
        &&& change.head_ref == self.head_ref
        &&& change.url == self.url
        &&& change.diff_stat == self.diff_stat
        &&& change.detected_at == at
    }

    /// The change to store.
    pub fn to_change(&self, repo_id: i64, at: Timestamp) -> (r: Change)
        ensures
            self.is_stored_as(r, repo_id, at),
    {
        Change {
            id: 0,
            repo_id,
            kind: self.kind,
            external_id: self.external_id.clone(),
            title: self.title.clone(),
            author_name: self.author_name.clone(),
            author_email: self.author_email.clone(),
            authored_at: self.authored_at,
            branch: self.branch.clone(),
            base_ref: self.base_ref.clone(),
            head_ref: self.head_ref.clone(),
            url: self.url.clone(),
            diff_stat: self.diff_stat,
            detected_at: at,
        }
    }
}

/// The words tell the modes apart, and are what they are read by.
pub proof fn words_tell_modes_apart(a: AutonomyMode, b: AutonomyMode)
    ensures
        a.word() == b.word() ==> a == b,
        a.word() == "off"@ <==> a is Off,
        a.word() == "dry_run"@ <==> a is DryRun,
        a.word() == "auto_low_ask_high"@ <==> a is AutoLowAskHigh,
        a.word() == "auto"@ <==> a is Auto,
{
    reveal_strlit("off");
    reveal_strlit("dry_run");
    reveal_strlit("auto_low_ask_high");
    reveal_strlit("auto");
    assert("off"@.len() == 3);
    assert("dry_run"@.len() == 7);
    assert("auto_low_ask_high"@.len() == 17);
    assert("auto"@.len() == 4);
}

/// The words tell the risks apart, and are what they are read by.
pub proof fn words_tell_risks_apart(a: RiskClass, b: RiskClass)
    ensures
        a.word() == b.word() ==> a == b,
        a.word() == "low"@ <==> a is Low,
        a.word() == "high"@ <==> a is High,
{
    reveal_strlit("low");
    reveal_strlit("high");
    assert("low"@.len() == 3);
    assert("high"@.len() == 4);
}

/// The words tell the severities apart, and are what they are read by.
pub proof fn words_tell_severities_apart(a: Severity, b: Severity)
    ensures
        a.word() == b.word() ==> a == b,
        a.word() == "info"@ <==> a is Info,
        a.word() == "low"@ <==> a is Low,
        a.word() == "medium"@ <==> a is Medium,
        a.word() == "high"@ <==> a is High,
        a.word() == "critical"@ <==> a is Critical,
{
    reveal_strlit("info");
    reveal_strlit("low");
    reveal_strlit("medium");
    reveal_strlit("high");
    reveal_strlit("critical");
    assert("info"@.len() == 4);
    assert("low"@.len() == 3);
    assert("medium"@.len() == 6);
    assert("high"@.len() == 4);
    assert("critical"@.len() == 8);
    assert("info"@[0] == 'i');
    assert("high"@[0] == 'h');
}

/// The words tell the depths apart, and are what they are read by.
pub proof fn words_tell_depths_apart(a: Depth, b: Depth)
    ensures
        a.word() == b.word() ==> a == b,
        a.word() == "summary"@ <==> a is Summary,
        a.word() == "standard"@ <==> a is Standard,
        a.word() == "deep"@ <==> a is Deep,
{
    reveal_strlit("summary");
    reveal_strlit("standard");
    reveal_strlit("deep");
    assert("summary"@.len() == 7);
    assert("standard"@.len() == 8);
    assert("deep"@.len() == 4);
}

/// The words tell the categories apart, and are what they are read by.
pub proof fn words_tell_categories_apart(a: Category, b: Category)
    ensures
        a.word() == b.word() ==> a == b,
        a.word() == "correctness"@ <==> a is Correctness,
        a.word() == "security"@ <==> a is Security,
        a.word() == "convention"@ <==> a is Convention,
        a.word() == "tests"@ <==> a is Tests,
        a.word() == "perf"@ <==> a is Perf,
        a.word() == "other"@ <==> a is Other,
{
    reveal_strlit("correctness");
    reveal_strlit("security");
    reveal_strlit("convention");
    reveal_strlit("tests");
    reveal_strlit("perf");
    reveal_strlit("other");
    assert("correctness"@.len() == 11);
    assert("security"@.len() == 8);
    assert("convention"@.len() == 10);
    assert("tests"@.len() == 5);
    assert("perf"@.len() == 4);
    assert("other"@.len() == 5);
    assert("tests"@[0] == 't');
    assert("other"@[0] == 'o');
}

/// The words tell the states of findings apart, and are what they are read by.
pub proof fn words_tell_finding_states_apart(a: FindingState, b: FindingState)
    ensures
        a.word() == b.word() ==> a == b,
        a.word() == "open"@ <==> a is Open,
        a.word() == "published"@ <==> a is Published,
        a.word() == "suppressed"@ <==> a is Suppressed,
        a.word() == "superseded"@ <==> a is Superseded,
{
    reveal_strlit("open");
    reveal_strlit("published");
    reveal_strlit("suppressed");
    reveal_strlit("superseded");
    assert("open"@.len() == 4);
    assert("published"@.len() == 9);
    assert("suppressed"@.len() == 10);
    assert("superseded"@.len() == 10);
    assert("suppressed"@[3] == 'p');
    assert("superseded"@[3] == 'e');
}

/// The words tell the stages of runs apart, and are what they are read by.
pub proof fn words_tell_run_stages_apart(a: RunStatus, b: RunStatus)
    ensures
        a.word() == b.word() ==> a == b,
        a.word() == "queued"@ <==> a is Queued,
        a.word() == "preparing"@ <==> a is Preparing,
        a.word() == "reviewing"@ <==> a is Reviewing,
        a.word() == "synthesizing"@ <==> a is Synthesizing,
        a.word() == "publishing"@ <==> a is Publishing,
        a.word() == "awaiting_approval"@ <==> a is AwaitingApproval,
        a.word() == "done"@ <==> a is Done,
        a.word() == "failed"@ <==> a is Failed,
        a.word() == "skipped"@ <==> a is Skipped,
        a.word() == "cancelled"@ <==> a is Cancelled,
{
    reveal_strlit("queued");
    reveal_strlit("preparing");
    reveal_strlit("reviewing");
    reveal_strlit("synthesizing");
    reveal_strlit("publishing");
    reveal_strlit("awaiting_approval");
    reveal_strlit("done");
    reveal_strlit("failed");
    reveal_strlit("skipped");
    reveal_strlit("cancelled");
    assert("queued"@.len() == 6);
    assert("preparing"@.len() == 9);
    assert("reviewing"@.len() == 9);
    assert("synthesizing"@.len() == 12);
    assert("publishing"@.len() == 10);
    assert("awaiting_approval"@.len() == 17);
    assert("done"@.len() == 4);
    assert("failed"@.len() == 6);
    assert("skipped"@.len() == 7);
    assert("cancelled"@.len() == 9);
    assert("queued"@[0] == 'q');
    assert("failed"@[0] == 'f');
    assert("preparing"@[0] == 'p');
    assert("reviewing"@[0] == 'r');
    assert("cancelled"@[0] == 'c');
}

/// The words tell the states of actions apart, and are what they are read by.
pub proof fn words_tell_action_states_apart(a: PublishActionStatus, b: PublishActionStatus)
    ensures
        a.word() == b.word() ==> a == b,
        a.word() == "pending"@ <==> a is Pending,
        a.word() == "awaiting_approval"@ <==> a is AwaitingApproval,
        a.word() == "approved"@ <==> a is Approved,
        a.word() == "sent"@ <==> a is Sent,
        a.word() == "failed"@ <==> a is Failed,
        a.word() == "rejected"@ <==> a is Rejected,
        a.word() == "skipped_dry_run"@ <==> a is SkippedDryRun,
{
    reveal_strlit("pending");
    reveal_strlit("awaiting_approval");
    reveal_strlit("approved");
    reveal_strlit("sent");
    reveal_strlit("failed");
    reveal_strlit("rejected");
    reveal_strlit("skipped_dry_run");
    assert("pending"@.len() == 7);
    assert("awaiting_approval"@.len() == 17);
    assert("approved"@.len() == 8);
    assert("sent"@.len() == 4);
    assert("failed"@.len() == 6);
    assert("rejected"@.len() == 8);
    assert("skipped_dry_run"@.len() == 15);
    assert("approved"@[0] == 'a');
    assert("rejected"@[0] == 'r');
}

/// The words tell the triggers apart, and are what they are read by.
pub proof fn words_tell_triggers_apart(a: TriggerSource, b: TriggerSource)
    ensures
        a.word() == b.word() ==> a == b,
        a.word() == "poll"@ <==> a is Poll,
        a.word() == "hook"@ <==> a is Hook,
        a.word() == "webhook"@ <==> a is Webhook,
        a.word() == "manual"@ <==> a is Manual,
        a.word() == "backfill"@ <==> a is Backfill,
{
    reveal_strlit("poll");
    reveal_strlit("hook");
    reveal_strlit("webhook");
    reveal_strlit("manual");
    reveal_strlit("backfill");
    assert("poll"@.len() == 4);
    assert("hook"@.len() == 4);
    assert("webhook"@.len() == 7);
    assert("manual"@.len() == 6);
    assert("backfill"@.len() == 8);
    assert("poll"@[0] == 'p');
    assert("hook"@[0] == 'h');
}

/// The words tell the kinds of repositories apart, and are what they are read by.
pub proof fn words_tell_repository_kinds_apart(a: RepoKind, b: RepoKind)
    ensures
        a.word() == b.word() ==> a == b,
        a.word() == "git"@ <==> a is Git,
        a.word() == "github"@ <==> a is GitHub,
        a.word() == "svn"@ <==> a is Svn,
{
    reveal_strlit("git");
    reveal_strlit("github");
    reveal_strlit("svn");
    assert("git"@.len() == 3);
    assert("github"@.len() == 6);
    assert("svn"@.len() == 3);
    assert("git"@[0] == 'g');
    assert("svn"@[0] == 's');
}

/// The words tell the capabilities apart, and are what they are read by.
pub proof fn words_tell_capabilities_apart(a: Capability, b: Capability)
    ensures
        a.word() == b.word() ==> a == b,
        a.word() == "post_review"@ <==> a is PostReview,
        a.word() == "create_issue"@ <==> a is CreateIssue,
        a.word() == "upsert_doc"@ <==> a is UpsertDoc,
{
    reveal_strlit("post_review");
    reveal_strlit("create_issue");
    reveal_strlit("upsert_doc");
    assert("post_review"@.len() == 11);
    assert("create_issue"@.len() == 12);
    assert("upsert_doc"@.len() == 10);
}

/// The words tell the answers to an exhausted budget apart, and are what they are read by.
pub proof fn words_tell_exhaustion_answers_apart(a: OnExhausted, b: OnExhausted)
    ensures
        a.word() == b.word() ==> a == b,
        a.word() == "pause"@ <==> a is Pause,
        a.word() == "queue"@ <==> a is Queue,
        a.word() == "skip"@ <==> a is Skip,
{
    reveal_strlit("pause");
    reveal_strlit("queue");
    reveal_strlit("skip");
    assert("pause"@.len() == 5);
    assert("queue"@.len() == 5);
    assert("skip"@.len() == 4);
    assert("pause"@[0] == 'p');
    assert("queue"@[0] == 'q');
}

/// The words tell the kinds of changes apart, and are what they are read by.
pub proof fn words_tell_change_kinds_apart(a: ChangeKind, b: ChangeKind)
    ensures
        a.word() == b.word() ==> a == b,
        a.word() == "commit"@ <==> a is Commit,
        a.word() == "pr"@ <==> a is Pr,
        a.word() == "svn_rev"@ <==> a is SvnRev,
        a.word() == "svn_pseudo_pr"@ <==> a is SvnPseudoPr,
{
    reveal_strlit("commit");
    reveal_strlit("pr");
    reveal_strlit("svn_rev");
    reveal_strlit("svn_pseudo_pr");
    assert("commit"@.len() == 6);
    assert("pr"@.len() == 2);
    assert("svn_rev"@.len() == 7);
    assert("svn_pseudo_pr"@.len() == 13);
}

/// How severities, depths and modes come one after another.
pub proof fn how_levels_come_one_after_another()
    ensures
        Severity::Info.level() < Severity::Low.level() < Severity::Medium.level() < Severity::High.level()
            < Severity::Critical.level(),
        Depth::Summary.level() < Depth::Standard.level() < Depth::Deep.level(),
        AutonomyMode::Off.freedom() < AutonomyMode::DryRun.freedom() < AutonomyMode::AutoLowAskHigh.freedom()
            < AutonomyMode::Auto.freedom(),
{
}

/// The mode in force is the narrower of the two, whichever is asked first.
pub proof fn the_narrower_mode_is_in_force(global: AutonomyMode, repo: AutonomyMode)
    ensures
        AutonomyMode::in_force(global, repo) == global || AutonomyMode::in_force(global, repo) == repo,
        AutonomyMode::in_force(global, repo).freedom() <= global.freedom(),
        AutonomyMode::in_force(global, repo).freedom() <= repo.freedom(),
        AutonomyMode::in_force(global, repo) == AutonomyMode::in_force(repo, global),
{
}

/// A change is stored as it was told of, for its repository and the moment it was seen at.
pub proof fn a_change_is_stored_as_it_was_told(told: DetectedChange, change: Change, repo_id: i64, at: Timestamp)
    requires
        told.is_stored_as(change, repo_id, at),
    ensures
        change.repo_id == repo_id,
        change.kind == told.kind,
        change.external_id == told.external_id,
        change.title == told.title,
        change.author_name == told.author_name,
        change.author_email == told.author_email,
        change.authored_at == told.authored_at,
        change.branch == told.branch,
        change.base_ref == told.base_ref,
        change.head_ref == told.head_ref,
        change.url == told.url,
        change.diff_stat == told.diff_stat,
        change.detected_at == at,
{
}

} // verus!
