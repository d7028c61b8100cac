//! The unattended loop: what one pass does, in what order, and what it says of it.
//!
//! # A pass reports what it did, including nothing
//!
//! A pass that reviewed nothing because everything was over budget and a pass that reviewed
//! nothing because the repositories are quiet are different facts. [`TickReport::line`] is one
//! sentence of plain English, and it always says which.
//!
//! # Order matters
//!
//! Recovery first: a run left mid-stage by a crash holds a slot that reviewing would otherwise
//! never get. Then discovery, queueing, reviewing and publishing: each step's output is the
//! next step's input, so that a single pass can take a commit all the way from pushed to filed.

use std::collections::BTreeMap;

use vstd::prelude::*;

use crate::approvals::{deadline, expires_at, expiry_detail, ExpiryDetail, REASON_EXPIRED};
use crate::budgets::{BudgetVerdict, DEFAULT_MAX_CONCURRENT_RUNS};
use crate::clock::{
    rfc3339_moment, whole, whole_units, Timestamp, NANOS_PER_DAY, NANOS_PER_HOUR, NANOS_PER_MILLI,
};
use crate::executor::{EnqueueReport, RepoStanding, RunOutcome};
use crate::model::{PublishAction, Repo, RepoKind, TriggerSource};
use crate::repos::{checkout_missing_detail, missing_checkout};
use crate::scheduler::{Idle, Scheduler, WorldState};
use crate::text::{
    cat2, cat3, cat4, chars_of, contains, copy_texts, count, decimal, decimal_int, join, joined, num, opt_str,
    opt_text, push_contains, signed, stands_at, stands_inside, text_of, texts, within,
};
use crate::triggers::{due_at, still_open, RepoTriggers, TriggerBus, TriggerEvent, DEFAULT_COALESCE_WINDOW_MS};

verus! {

/// How often the loop runs when nothing says otherwise.
pub const DEFAULT_INTERVAL_SECS: u64 = 60;

/// The setting that holds when retention last swept.
pub const SETTING_LAST_SWEEP: &'static str = "retention.last_sweep";

/// The setting that holds whether the background loop is switched on.
pub const SETTING_AUTOPILOT: &'static str = "autopilot";

/// How many changes one discovery asks for.
pub const DISCOVERY_BATCH: usize = 50;

/// Why a pass could not run at all. Anything that only stops one repository is a note on the
/// report instead: one broken repository does not stop the others.
#[derive(Clone, Debug, PartialEq, Eq)]
pub enum AutopilotError {
    /// The database could not be read.
    Store {
        /// Why.
        source: String,
    },
    /// The review pass itself failed.
    Execute {
        /// What went wrong.
        detail: String,
    },
}

impl AutopilotError {
    /// The error in words.
    pub fn describe(&self) -> (r: String)
        ensures
            r@ == match *self {
                Self::Store { source } => "could not read the local database: "@ + source@
                    + "\n  try: revlocal db migrate"@,
                Self::Execute { detail } => detail@,
            },
    {
        match self {
            Self::Store { source } => cat3(
                "could not read the local database: ",
                source.as_str(),
                "\n  try: revlocal db migrate",
            ),
            Self::Execute { detail } => detail.clone(),
        }
    }
}

/// What one repository's discovery pass did.
#[derive(Clone, Debug, PartialEq, Eq)]
pub struct RepoPass {
    /// Which repository.
    pub repo: String,
    /// Changes discovered.
    pub discovered: usize,
    /// Changes recorded for review.
    pub recorded: usize,
    /// Changes recorded and deliberately skipped, with the reason.
    pub skipped: Vec<String>,
    /// Where the cursor now stands, when it moved.
    pub cursor: Option<String>,
    /// What went wrong, if anything.
    pub error: Option<String>,
    /// Something worth saying that is not a fault: a repository with no commits yet is never
    /// reviewed, and nobody needs to do anything about it.
    pub note: Option<String>,
}

/// What one pass did, in the order it did it.
#[derive(Clone, Debug, PartialEq, Eq)]
pub struct TickReport {
    /// When it started, as RFC 3339 writes it.
    pub at: String,
    /// Enabled repositories considered.
    pub repos: usize,
    /// Discovery, per repository. Empty when nothing was due.
    pub passes: Vec<RepoPass>,
    /// Runs abandoned mid-stage by an earlier crash and queued again.
    pub recovered: usize,
    /// Runs newly queued.
    pub queued: usize,
    /// Reviews that finished.
    pub reviewed: Vec<RunOutcome>,
    /// Publish actions delivered.
    pub published: usize,
    /// Publish actions that failed to deliver.
    pub publish_failed: usize,
    /// Publish actions sitting in the approvals inbox, right now.
    pub awaiting_approval: usize,
    /// Finished runs removed by retention.
    pub pruned: u64,
    /// Approvals that ran out of time waiting for a person.
    pub expired: usize,
    /// Runs still queued afterwards.
    pub still_queued: u32,
    /// The kill switch is engaged.
    pub paused: bool,
    /// Why the loop did nothing at all, when something stopped it. A quiet pass has no reason
    /// and needs none.
    pub stopped: Option<String>,
    /// Anything that did not happen, and why.
    pub notes: Vec<String>,
}

/// How many changes were recorded.
pub open spec fn recorded_in(passes: Seq<RepoPass>) -> nat
    decreases passes.len(),
{
    if passes.len() == 0 {
        0
    } else {
        recorded_in(passes.drop_last()) + passes.last().recorded as nat
    }
}

/// How many changes were skipped.
pub open spec fn skipped_in(passes: Seq<RepoPass>) -> nat
    decreases passes.len(),
{
    if passes.len() == 0 {
        0
    } else {
        skipped_in(passes.drop_last()) + passes.last().skipped@.len()
    }
}

proof fn prefixes_count_less(passes: Seq<RepoPass>, n: int)
    requires
        0 <= n <= passes.len(),
    ensures
        recorded_in(passes.take(n)) <= recorded_in(passes),
        skipped_in(passes.take(n)) <= skipped_in(passes),
    decreases passes.len(),
{
    if n < passes.len() {
        prefixes_count_less(passes.drop_last(), n);
        assert(passes.drop_last().take(n) =~= passes.take(n));
    } else {
        assert(passes.take(n) =~= passes);
    }
}

/// A count that is worth saying, in words: nothing for none.
pub open spec fn told(before: Seq<char>, n: nat, after: Seq<char>) -> Seq<Seq<char>> {
    if n == 0 {
        Seq::empty()
    } else {
        seq![before + decimal(n) + after]
    }
}

fn tell(parts: &mut Vec<String>, before: &str, n: u64, after: &str)
    ensures
        texts(final(parts)@) == texts(old(parts)@) + told(before@, n as nat, after@),
{
    let ghost was = parts@;
    if n > 0 {
        parts.push(cat3(before, num(n).as_str(), after));
    }
    assert(texts(parts@) =~= texts(was) + told(before@, n as nat, after@));
}

/// A sentence: the text with its first letter made a capital, and a full stop.
pub open spec fn sentence(s: Seq<char>) -> Seq<char> {
    capitalised(s).push('.')
}

/// A text with its first letter, if it is an ASCII one, made a capital.
pub open spec fn capitalised(s: Seq<char>) -> Seq<char> {
    if s.len() > 0 && 97 <= (s[0] as u32) <= 122 {
        s.update(0, (((s[0] as u32) - 32) as u8) as char)
    } else {
        s
    }
}

fn as_sentence(s: &str) -> (r: String)
    ensures
        r@ == sentence(s@),
{
    let mut v = chars_of(s);
    if v.len() > 0 {
        let n: u32 = v[0] as u32;
        if 97 <= n && n <= 122 {
            let capital: u8 = (n - 32) as u8;
            v.set(0, capital as char);
        }
    }
    v.push('.');
    assert(v@.subrange(0, v@.len() as int) =~= v@);
    text_of(&v, 0, v.len())
}

impl TickReport {
    /// What happened, each in a few words.
    pub open spec fn happened(self) -> Seq<Seq<char>> {
        told("found "@, recorded_in(self.passes@), " new change(s)"@) + told(
            "skipped "@,
            skipped_in(self.passes@),
            ""@,
        ) + told("restarted "@, self.recovered as nat, " stuck run(s)"@) + told(
            "queued "@,
            self.queued as nat,
            ""@,
        ) + told("reviewed "@, self.reviewed@.len(), ""@) + told("filed "@, self.published as nat, ""@)
            + told(""@, self.publish_failed as nat, " failed to file"@) + told(
            "cleared "@,
            self.pruned as nat,
            " old run(s)"@,
        ) + told(""@, self.expired as nat, " approval(s) expired unanswered"@) + told(
            ""@,
            self.awaiting_approval as nat,
            " waiting for you"@,
        ) + told(""@, self.still_queued as nat, " still queued"@)
    }

    /// One sentence of plain English.
    pub open spec fn in_words(self) -> Seq<char> {
        if self.stopped is Some {
            self.stopped->0@
        } else if self.repos == 0 {
            "No repositories are enabled yet."@
        } else if self.happened().len() == 0 {
            "Nothing new across "@ + decimal(self.repos as nat) + " repositories."@
        } else {
            sentence(joined(self.happened(), ", "@))
        }
    }

    /// One sentence of plain English, for the status line: a list of things that happened
    /// rather than a template with zeroes in it, which people learn to stop reading.
    pub fn line(&self) -> (r: String)
        requires
            recorded_in(self.passes@) <= usize::MAX,
            skipped_in(self.passes@) <= usize::MAX,
        ensures
            r@ == self.in_words(),
    {
        if let Some(stopped) = &self.stopped {
            return stopped.clone();
        }
        if self.repos == 0 {
            return "No repositories are enabled yet.".to_owned();
        }
        let mut recorded: usize = 0;
        let mut skipped: usize = 0;
        let mut i: usize = 0;
        assert(self.passes@.take(0) =~= Seq::empty());
        while i < self.passes.len()
            invariant
                i <= self.passes.len(),
                recorded == recorded_in(self.passes@.take(i as int)),
                skipped == skipped_in(self.passes@.take(i as int)),
                recorded_in(self.passes@) <= usize::MAX,
                skipped_in(self.passes@) <= usize::MAX,
            decreases self.passes.len() - i,
        {
            proof {
                assert(self.passes@.take(i + 1).drop_last() =~= self.passes@.take(i as int));
                prefixes_count_less(self.passes@, i + 1);
            }
            recorded = recorded + self.passes[i].recorded;
            skipped = skipped + self.passes[i].skipped.len();
            i += 1;
        }
        assert(self.passes@.take(self.passes@.len() as int) =~= self.passes@);

        let mut parts: Vec<String> = Vec::new();
        assert(texts(parts@) =~= Seq::empty());
        tell(&mut parts, "found ", recorded as u64, " new change(s)");
        tell(&mut parts, "skipped ", skipped as u64, "");
        tell(&mut parts, "restarted ", self.recovered as u64, " stuck run(s)");
        tell(&mut parts, "queued ", self.queued as u64, "");
        tell(&mut parts, "reviewed ", self.reviewed.len() as u64, "");
        tell(&mut parts, "filed ", self.published as u64, "");
        tell(&mut parts, "", self.publish_failed as u64, " failed to file");
        tell(&mut parts, "cleared ", self.pruned, " old run(s)");
        // Told apart from the inbox: something that expired unattended is news, and would
        // otherwise disappear at the moment it stopped waiting.
        tell(&mut parts, "", self.expired as u64, " approval(s) expired unanswered");
        tell(&mut parts, "", self.awaiting_approval as u64, " waiting for you");
        tell(&mut parts, "", self.still_queued as u64, " still queued");
        assert(texts(parts@) =~= self.happened());
        assert(parts@.len() == texts(parts@).len());
        if parts.is_empty() {
            return cat3("Nothing new across ", count(self.repos).as_str(), " repositories.");
        }
        as_sentence(join(&parts, ", ").as_str())
    }

    /// Whether this pass is worth telling somebody about: a quiet one every minute would drown
    /// the one that matters.
    pub fn is_newsworthy(&self) -> (r: bool)
        ensures
            r == (self.recovered > 0 || self.queued > 0 || self.reviewed@.len() > 0 || self.published > 0
                || self.publish_failed > 0 || self.notes@.len() > 0),
    {
        self.recovered > 0 || self.queued > 0 || !self.reviewed.is_empty() || self.published > 0
            || self.publish_failed > 0 || !self.notes.is_empty()
    }
}

impl Default for TickReport {
    fn default() -> (r: TickReport)
        ensures
            r.at@ == ""@,
            r.repos == 0,
            r.passes@.len() == 0,
            r.recovered == 0,
            r.queued == 0,
            r.reviewed@.len() == 0,
            r.published == 0,
            r.publish_failed == 0,
            r.awaiting_approval == 0,
            r.pruned == 0,
            r.expired == 0,
            r.still_queued == 0,
            !r.paused,
            r.stopped is None,
            r.notes@.len() == 0,
    {
        TickReport {
            at: "".to_owned(),
            repos: 0,
            passes: Vec::new(),
            recovered: 0,
            queued: 0,
            reviewed: Vec::new(),
            published: 0,
            publish_failed: 0,
            awaiting_approval: 0,
            pruned: 0,
            expired: 0,
            still_queued: 0,
            paused: false,
            stopped: None,
            notes: Vec::new(),
        }
    }
}

// --- one pass, step by step ---

/// What a pass does next.
#[derive(Clone, Copy, Debug, PartialEq, Eq, Structural)]
pub enum Task {
    /// Record the remotes that nobody recorded.
    RecordRemotes,
    /// Fail and queue again the runs that a crash left mid-stage.
    Recover,
    /// Ask the remotes for changes, where that is due.
    Discover,
    /// Queue the changes that were recorded.
    Enqueue,
    /// Review what is queued.
    Review,
    /// Deliver what waits to be delivered.
    Dispatch,
    /// Reject the approvals that nobody answered in time.
    Expire,
    /// Remove what retention no longer keeps.
    Sweep,
    /// Count what is left waiting.
    Count,
    /// Nothing more.
    Over,
}

/// What comes after a task. Which repositories can be reached makes no difference: an action
/// left by an earlier pass is owed delivery even when this one can review nothing.
pub open spec fn following(task: Task, paused: bool) -> Task {
    match task {
        Task::RecordRemotes => if paused {
            Task::Over
        } else {
            Task::Recover
        },
        Task::Recover => Task::Discover,
        Task::Discover => Task::Enqueue,
        Task::Enqueue => Task::Review,
        Task::Review => Task::Dispatch,
        Task::Dispatch => Task::Expire,
        Task::Expire => Task::Sweep,
        Task::Sweep => Task::Count,
        Task::Count => Task::Over,
        Task::Over => Task::Over,
    }
}

/// A repository, and what is known of it.
#[derive(Clone, Debug, PartialEq, Eq)]
pub struct Watched {
    /// Its number.
    pub repo_id: i64,
    /// What is known of it.
    pub standing: RepoStanding,
}

/// The repositories that are watched and can be reached, in order.
pub open spec fn reachable(repos: Seq<Watched>) -> Seq<i64>
    decreases repos.len(),
{
    if repos.len() == 0 {
        Seq::empty()
    } else {
        let before = reachable(repos.drop_last());
        let last = repos.last();
        if last.standing.enabled && last.standing.checkout_present {
            before.push(last.repo_id)
        } else {
            before
        }
    }
}

/// The name of a repository and where its checkout should be.
pub type Absent = (Seq<char>, Option<Seq<char>>);

/// The repositories that are watched and whose checkout is gone, in order.
pub open spec fn missing(repos: Seq<Watched>) -> Seq<Absent>
    decreases repos.len(),
{
    if repos.len() == 0 {
        Seq::empty()
    } else {
        let before = missing(repos.drop_last());
        let last = repos.last();
        if last.standing.enabled && !last.standing.checkout_present {
            before.push((last.standing.name@, opt_text(last.standing.local_path)))
        } else {
            before
        }
    }
}

/// Names and places, as texts.
pub open spec fn absent(v: Seq<(String, Option<String>)>) -> Seq<Absent> {
    v.map_values(|p: (String, Option<String>)| (p.0@, opt_text(p.1)))
}

/// What is said of the runs given up on.
pub open spec fn given_up_notes(given_up: Seq<(i64, String)>) -> Seq<Seq<char>> {
    given_up.map_values(
        |p: (i64, String)| "run #"@ + decimal_int(p.0 as int) + " was given up on — "@ + p.1@,
    )
}

/// How one repository's queueing went.
#[derive(Debug, PartialEq, Eq)]
pub struct Queueing {
    /// Its name.
    pub repo: String,
    /// What was queued, or why nothing could be.
    pub result: Result<EnqueueReport, String>,
}

/// How many runs were queued.
pub open spec fn queued_in(done: Seq<Queueing>) -> nat
    decreases done.len(),
{
    if done.len() == 0 {
        0
    } else {
        queued_in(done.drop_last()) + match done.last().result {
            Ok(report) => report.queued@.len(),
            Err(_) => 0,
        }
    }
}

/// What is said of the queueing of one repository.
pub open spec fn queueing_note(done: Queueing) -> Seq<Seq<char>> {
    match done.result {
        Ok(report) => if report.more_waiting {
            seq![
                done.repo@
                    + ": more changes are waiting than one pass queues; the next tick takes the rest"@,
            ]
        } else {
            Seq::empty()
        },
        Err(error) => seq![done.repo@ + ": "@ + error@],
    }
}

/// What is said of the queueing.
pub open spec fn queueing_notes(done: Seq<Queueing>) -> Seq<Seq<char>>
    decreases done.len(),
{
    if done.len() == 0 {
        Seq::empty()
    } else {
        queueing_notes(done.drop_last()) + queueing_note(done.last())
    }
}

proof fn prefixes_queue_less(done: Seq<Queueing>, n: int)
    requires
        0 <= n <= done.len(),
    ensures
        queued_in(done.take(n)) <= queued_in(done),
    decreases done.len(),
{
    if n < done.len() {
        prefixes_queue_less(done.drop_last(), n);
        assert(done.drop_last().take(n) =~= done.take(n));
    } else {
        assert(done.take(n) =~= done);
    }
}

/// Whether one of the lines names a repository.
pub open spec fn named_in(lines: Seq<Seq<char>>, name: Seq<char>) -> bool {
    exists|i: int| 0 <= i < lines.len() && within(#[trigger] lines[i], name)
}

/// What is said of repositories whose checkout is gone: one line each, but for those that a
/// held run has named already.
pub open spec fn missing_notes(gone: Seq<Absent>, held: Seq<Seq<char>>) -> Seq<Seq<char>>
    decreases gone.len(),
{
    if gone.len() == 0 {
        Seq::empty()
    } else {
        let before = missing_notes(gone.drop_last(), held);
        let last = gone.last();
        if named_in(held, last.0) {
            before
        } else {
            before.push(missing_checkout(last.0, last.1))
        }
    }
}

/// What delivery came to.
#[derive(Clone, Copy, Debug, PartialEq, Eq, Structural)]
pub struct Dispatch {
    /// Actions delivered.
    pub sent: usize,
    /// Actions that failed for good.
    pub failed: usize,
    /// Actions that failed and are tried again.
    pub retryable: usize,
    /// Actions that name a target nobody configured.
    pub unroutable: usize,
}

/// The lines of a list, each on a line of its own and set in by two.
pub open spec fn indented(lines: Seq<Seq<char>>) -> Seq<char>
    decreases lines.len(),
{
    if lines.len() == 0 {
        Seq::empty()
    } else {
        indented(lines.drop_last()) + ("\n  "@ + lines.last())
    }
}

/// What is said of actions that nobody can route: how many, why each destination that could
/// not be built could not be, and what to do when the settings have nothing to say about it.
pub open spec fn unroutable_note(unroutable: nat, reasons: Seq<Seq<char>>, all_built: bool) -> Seq<char> {
    decimal(unroutable) + " action(s) name a target that is not configured, so nothing was sent"@
        + indented(reasons) + if all_built {
        "\n  try: add the suite bearer in Settings"@
    } else {
        Seq::empty()
    }
}

fn describe_unroutable(unroutable: usize, reasons: &Vec<String>, all_built: bool) -> (r: String)
    ensures
        r@ == unroutable_note(unroutable as nat, texts(reasons@), all_built),
{
    let mut note = cat2(
        count(unroutable).as_str(),
        " action(s) name a target that is not configured, so nothing was sent",
    );
    let ghost head = note@;
    let mut i: usize = 0;
    assert(texts(reasons@).take(0) =~= Seq::empty());
    assert(note@ =~= head + indented(texts(reasons@).take(0)));
    while i < reasons.len()
        invariant
            i <= reasons.len(),
            note@ == head + indented(texts(reasons@).take(i as int)),
        decreases reasons.len() - i,
    {
        assert(texts(reasons@).take(i + 1).drop_last() =~= texts(reasons@).take(i as int));
        note.append("\n  ");
        note.append(reasons[i].as_str());
        assert(note@ =~= head + indented(texts(reasons@).take(i + 1)));
        i += 1;
    }
    assert(texts(reasons@).take(reasons@.len() as int) =~= texts(reasons@));
    if all_built {
        note.append("\n  try: add the suite bearer in Settings");
    }
    assert(note@ =~= unroutable_note(unroutable as nat, texts(reasons@), all_built));
    note
}

/// A pass under way.
#[derive(Debug)]
pub struct Tick {
    /// What comes next.
    pub task: Task,
    /// What has been done so far.
    pub report: TickReport,
    /// The repositories that are watched and can be reached.
    pub reachable: Vec<i64>,
    /// The repositories that are watched and whose checkout is gone, with where it should be.
    pub missing: Vec<(String, Option<String>)>,
}

impl Tick {
    /// Whether the pass has come from `before` by its next task, and nothing of what it works
    /// on has changed.
    pub open spec fn follows(self, before: Tick) -> bool {
        &&& self.task == following(before.task, before.report.paused)
        &&& self.reachable == before.reachable
        &&& self.missing == before.missing
    }

    /// Begin a pass. A checkout that is not there cannot be discovered, queued or reviewed, and
    /// every attempt costs an engine's budget to learn it.
    pub fn begin(at: Timestamp, paused: bool, repos: &Vec<Watched>) -> (r: Tick)
        requires
            at.in_calendar(),
        ensures
            r.task == Task::RecordRemotes,
            r.reachable@ == reachable(repos@),
            absent(r.missing@) == missing(repos@),
            r.report.at@ == at.rfc3339(),
            r.report.paused == paused,
            r.report.repos == r.reachable@.len() + r.missing@.len(),
            r.report.passes@.len() == 0,
            r.report.recovered == 0,
            r.report.queued == 0,
            r.report.reviewed@.len() == 0,
            r.report.published == 0,
            r.report.publish_failed == 0,
            r.report.awaiting_approval == 0,
            r.report.pruned == 0,
            r.report.expired == 0,
            r.report.still_queued == 0,
            r.report.stopped is None,
            r.report.notes@.len() == 0,
    {
        let mut there: Vec<i64> = Vec::new();
        let mut gone: Vec<(String, Option<String>)> = Vec::new();
        let mut i: usize = 0;
        assert(repos@.take(0) =~= Seq::empty());
        assert(absent(gone@) =~= Seq::empty());
        while i < repos.len()
            invariant
                i <= repos.len(),
                there@ == reachable(repos@.take(i as int)),
                absent(gone@) == missing(repos@.take(i as int)),
                there@.len() + gone@.len() <= i,
            decreases repos.len() - i,
        {
            assert(repos@.take(i + 1).drop_last() =~= repos@.take(i as int));
            let standing = &repos[i].standing;
            if standing.enabled {
                if standing.checkout_present {
                    there.push(repos[i].repo_id);
                } else {
                    let ghost was = gone@;
                    gone.push((standing.name.clone(), standing.local_path.clone()));
                    assert(absent(gone@) =~= absent(was).push(
                        (standing.name@, opt_text(standing.local_path)),
                    ));
                }
            }
            i += 1;
        }
        assert(repos@.take(repos@.len() as int) =~= repos@);
        let mut report = TickReport::default();
        report.at = at.to_rfc3339();
        report.paused = paused;
        report.repos = there.len() + gone.len();
        Tick { task: Task::RecordRemotes, report, reachable: there, missing: gone }
    }

    fn note(&mut self, line: String)
        ensures
            final(self).task == old(self).task,
            final(self).reachable == old(self).reachable,
            final(self).missing == old(self).missing,
            final(self).report == (TickReport { notes: final(self).report.notes, ..old(self).report }),
            texts(final(self).report.notes@) == texts(old(self).report.notes@).push(line@),
    {
        let ghost was = self.report.notes@;
        self.report.notes.push(line);
        assert(texts(self.report.notes@) =~= texts(was).push(line@));
    }

    /// Take note of a remote that was found and could not be recorded.
    pub fn remote_not_recorded(&mut self, repo: &str, error: &str)
        ensures
            final(self).task == old(self).task,
            final(self).reachable == old(self).reachable,
            final(self).missing == old(self).missing,
            final(self).report == (TickReport { notes: final(self).report.notes, ..old(self).report }),
            texts(final(self).report.notes@) == texts(old(self).report.notes@).push(
                repo@ + ": could not record its remote — "@ + error@,
            ),
    {
        self.note(cat3(repo, ": could not record its remote — ", error));
    }

    /// Go on from recording remotes. While the kill switch is engaged the pass ends here, with
    /// the scheduler's own words for it.
    pub fn remotes_recorded(&mut self)
        requires
            old(self).task == Task::RecordRemotes,
        ensures
            final(self).follows(*old(self)),
            final(self).report == (TickReport { stopped: final(self).report.stopped, ..old(self).report }),
            opt_text(final(self).report.stopped) == if old(self).report.paused {
                Some(Idle::Killed.line())
            } else {
                opt_text(old(self).report.stopped)
            },
    {
        if self.report.paused {
            self.report.stopped = Some(Idle::Killed.summary_line());
            self.task = Task::Over;
        } else {
            self.task = Task::Recover;
        }
    }

    /// Go on from recovery: how many runs were queued again, and which were given up on.
    pub fn recovered(&mut self, re_enqueued: usize, given_up: &Vec<(i64, String)>)
        requires
            old(self).task == Task::Recover,
        ensures
            final(self).follows(*old(self)),
            final(self).report == (TickReport {
                recovered: re_enqueued,
                notes: final(self).report.notes,
                ..old(self).report
            }),
            texts(final(self).report.notes@) == texts(old(self).report.notes@) + given_up_notes(
                given_up@,
            ),
    {
        self.report.recovered = re_enqueued;
        let ghost was = *self;
        let mut i: usize = 0;
        assert(texts(self.report.notes@) =~= texts(was.report.notes@) + given_up_notes(given_up@.take(0)));
        while i < given_up.len()
            invariant
                i <= given_up.len(),
                self.task == was.task,
                self.reachable == was.reachable,
                self.missing == was.missing,
                self.report == (TickReport { notes: self.report.notes, ..was.report }),
                texts(self.report.notes@) == texts(was.report.notes@) + given_up_notes(
                    given_up@.take(i as int),
                ),
            decreases given_up.len() - i,
        {
            let ghost before = self.report.notes@;
            let entry = &given_up[i];
            self.note(
                cat4("run #", signed(entry.0).as_str(), " was given up on — ", entry.1.as_str()),
            );
            assert(texts(self.report.notes@) =~= texts(was.report.notes@) + given_up_notes(
                given_up@.take(i + 1),
            ));
            i += 1;
        }
        assert(given_up@.take(given_up@.len() as int) =~= given_up@);
        self.task = Task::Discover;
    }

    /// Go on from discovery. What went wrong with one repository stands in its pass, and is not
    /// copied into the notes: two lists that say the same come to disagree.
    pub fn discovered(&mut self, passes: Vec<RepoPass>)
        requires
            old(self).task == Task::Discover,
        ensures
            final(self).follows(*old(self)),
            final(self).report == (TickReport { passes, ..old(self).report }),
    {
        self.report.passes = passes;
        self.task = Task::Enqueue;
    }

    /// Go on from queueing.
    pub fn enqueued(&mut self, done: &Vec<Queueing>)
        requires
            old(self).task == Task::Enqueue,
            old(self).report.queued + queued_in(done@) <= usize::MAX,
        ensures
            final(self).follows(*old(self)),
            final(self).report == (TickReport {
                queued: (old(self).report.queued + queued_in(done@)) as usize,
                notes: final(self).report.notes,
                ..old(self).report
            }),
            texts(final(self).report.notes@) == texts(old(self).report.notes@) + queueing_notes(done@),
    {
        let ghost was = *self;
        let mut i: usize = 0;
        assert(done@.take(0) =~= Seq::empty());
        assert(texts(self.report.notes@) =~= texts(was.report.notes@) + queueing_notes(done@.take(0)));
        while i < done.len()
            invariant
                i <= done.len(),
                was.report.queued + queued_in(done@) <= usize::MAX,
                self.task == was.task,
                self.reachable == was.reachable,
                self.missing == was.missing,
                self.report == (TickReport {
                    queued: (was.report.queued + queued_in(done@.take(i as int))) as usize,
                    notes: self.report.notes,
                    ..was.report
                }),
                was.report.queued + queued_in(done@.take(i as int)) <= usize::MAX,
                texts(self.report.notes@) == texts(was.report.notes@) + queueing_notes(
                    done@.take(i as int),
                ),
            decreases done.len() - i,
        {
            proof {
                assert(done@.take(i + 1).drop_last() =~= done@.take(i as int));
                prefixes_queue_less(done@, i + 1);
            }
            match &done[i].result {
                Ok(report) => {
                    self.report.queued = self.report.queued + report.queued.len();
                    if report.more_waiting {
                        self.note(
                            cat2(
                                done[i].repo.as_str(),
                                ": more changes are waiting than one pass queues; the next tick takes the rest",
                            ),
                        );
                    }
                },
                Err(error) => {
                    self.note(cat3(done[i].repo.as_str(), ": ", error.as_str()));
                },
            }
            assert(texts(self.report.notes@) =~= texts(was.report.notes@) + queueing_notes(
                done@.take(i + 1),
            ));
            i += 1;
        }
        assert(done@.take(done@.len() as int) =~= done@);
        self.task = Task::Review;
    }

    /// Go on from reviewing: what finished and what was held. A repository that a held run names
    /// needs nothing further; one without queued runs would otherwise go unsaid.
    pub fn reviewed(&mut self, finished: Vec<RunOutcome>, held: &Vec<String>)
        requires
            old(self).task == Task::Review,
        ensures
            final(self).follows(*old(self)),
            final(self).report == (TickReport {
                reviewed: finished,
                notes: final(self).report.notes,
                ..old(self).report
            }),
            texts(final(self).report.notes@) == texts(old(self).report.notes@) + missing_notes(
                absent(old(self).missing@),
                texts(held@),
            ) + texts(held@),
    {
        self.report.reviewed = finished;
        let ghost was = *self;
        let ghost gone = absent(self.missing@);
        let mut i: usize = 0;
        assert(gone.take(0) =~= Seq::empty());
        assert(texts(self.report.notes@) =~= texts(was.report.notes@) + missing_notes(
            gone.take(0),
            texts(held@),
        ));
        while i < self.missing.len()
            invariant
                i <= self.missing.len(),
                self.task == was.task,
                self.reachable == was.reachable,
                self.missing == was.missing,
                gone == absent(was.missing@),
                self.report == (TickReport { notes: self.report.notes, ..was.report }),
                texts(self.report.notes@) == texts(was.report.notes@) + missing_notes(
                    gone.take(i as int),
                    texts(held@),
                ),
            decreases self.missing.len() - i,
        {
            assert(gone.take(i + 1).drop_last() =~= gone.take(i as int));
            if !names(held, self.missing[i].0.as_str()) {
                let line = checkout_missing_detail(self.missing[i].0.as_str(), &self.missing[i].1);
                self.note(line);
            }
            assert(texts(self.report.notes@) =~= texts(was.report.notes@) + missing_notes(
                gone.take(i + 1),
                texts(held@),
            ));
            i += 1;
        }
        assert(gone.take(gone.len() as int) =~= gone);
        let mut more = copy_texts(held);
        let ghost before = self.report.notes@;
        let ghost extra = more@;
        self.report.notes.append(&mut more);
        assert(texts(self.report.notes@) =~= texts(before) + texts(extra));
        self.task = Task::Dispatch;
    }

    /// Go on from delivery: what it came to, or why it could not be made; with why each
    /// destination that could not be built could not be, and whether there was none such.
    pub fn dispatched(&mut self, result: &Result<Dispatch, String>, reasons: &Vec<String>, all_built: bool)
        requires
            old(self).task == Task::Dispatch,
            result matches Ok(d) ==> d.failed + d.retryable <= usize::MAX,
        ensures
            final(self).follows(*old(self)),
            match *result {
                Ok(d) => {
                    &&& final(self).report == (TickReport {
                        published: d.sent,
                        publish_failed: (d.failed + d.retryable) as usize,
                        notes: final(self).report.notes,
                        ..old(self).report
                    })
                    &&& texts(final(self).report.notes@) == if d.unroutable == 0 {
                        texts(old(self).report.notes@)
                    } else {
                        texts(old(self).report.notes@).push(
                            unroutable_note(d.unroutable as nat, texts(reasons@), all_built),
                        )
                    }
                },
                Err(error) => {
                    &&& final(self).report == (TickReport {
                        notes: final(self).report.notes,
                        ..old(self).report
                    })
                    &&& texts(final(self).report.notes@) == texts(old(self).report.notes@).push(
                        "could not deliver: "@ + error@,
                    )
                },
            },
    {
        match result {
            Ok(d) => {
                self.report.published = d.sent;
                self.report.publish_failed = d.failed + d.retryable;
                if d.unroutable > 0 {
                    self.note(describe_unroutable(d.unroutable, reasons, all_built));
                }
            },
            Err(error) => {
                self.note(cat2("could not deliver: ", error.as_str()));
            },
        }
        self.task = Task::Expire;
    }

    /// Go on from expiring approvals.
    pub fn expired(&mut self, result: &Result<usize, String>)
        requires
            old(self).task == Task::Expire,
        ensures
            final(self).follows(*old(self)),
            match *result {
                Ok(n) => final(self).report == (TickReport { expired: n, ..old(self).report }),
                Err(error) => {
                    &&& final(self).report == (TickReport {
                        notes: final(self).report.notes,
                        ..old(self).report
                    })
                    &&& texts(final(self).report.notes@) == texts(old(self).report.notes@).push(
                        "could not expire old approvals — "@ + error@,
                    )
                },
            },
    {
        match result {
            Ok(n) => {
                self.report.expired = *n;
            },
            Err(error) => {
                self.note(cat2("could not expire old approvals — ", error.as_str()));
            },
        }
        self.task = Task::Sweep;
    }

    /// Go on from the retention sweep. One that failed is not a pass that failed, and it is not
    /// nothing either: a disk filling up quietly is what this prevents.
    pub fn swept(&mut self, result: &Result<u64, String>)
        requires
            old(self).task == Task::Sweep,
        ensures
            final(self).follows(*old(self)),
            match *result {
                Ok(n) => final(self).report == (TickReport { pruned: n, ..old(self).report }),
                Err(error) => {
                    &&& final(self).report == (TickReport {
                        notes: final(self).report.notes,
                        ..old(self).report
                    })
                    &&& texts(final(self).report.notes@) == texts(old(self).report.notes@).push(
                        "could not clear old runs — "@ + error@,
                    )
                },
            },
    {
        match result {
            Ok(n) => {
                self.report.pruned = *n;
            },
            Err(error) => {
                self.note(cat2("could not clear old runs — ", error.as_str()));
            },
        }
        self.task = Task::Count;
    }

    /// End the pass with what is left waiting.
    pub fn counted(&mut self, awaiting_approval: usize, still_queued: u32)
        requires
            old(self).task == Task::Count,
        ensures
            final(self).follows(*old(self)),
            final(self).report == (TickReport { awaiting_approval, still_queued, ..old(self).report }),
    {
        self.report.awaiting_approval = awaiting_approval;
        self.report.still_queued = still_queued;
        self.task = Task::Over;
    }
}

/// Whether one of the lines names a repository.
fn names(lines: &Vec<String>, name: &str) -> (r: bool)
    ensures
        r == named_in(texts(lines@), name@),
{
    let mut i: usize = 0;
    while i < lines.len()
        invariant
            i <= lines.len(),
            forall|j: int| 0 <= j < i ==> !within(#[trigger] texts(lines@)[j], name@),
        decreases lines.len() - i,
    {
        if contains(lines[i].as_str(), name) {
            assert(within(texts(lines@)[i as int], name@));
            return true;
        }
        i += 1;
    }
    false
}

/// Whether a repository's remote should be looked for: a git checkout that nobody recorded one
/// for.
pub fn wants_remote(repo: &Repo) -> (r: bool)
    ensures
        r == (repo.remote_url is None && repo.kind == RepoKind::Git && repo.local_path is Some),
{
    repo.remote_url.is_none() && repo.kind == RepoKind::Git && repo.local_path.is_some()
}

// --- discovery ---

/// How many runs may be in flight, as configured. Zero would mean a loop that reviews nothing
/// while it reports itself healthy, so it is read as unset.
pub fn slot_limit(max_concurrent_runs: u32) -> (r: usize)
    ensures
        r == if max_concurrent_runs == 0 {
            DEFAULT_MAX_CONCURRENT_RUNS as int
        } else {
            max_concurrent_runs as int
        },
{
    if max_concurrent_runs == 0 {
        DEFAULT_MAX_CONCURRENT_RUNS
    } else {
        max_concurrent_runs as usize
    }
}

/// A configured window as signed milliseconds, no more than there are.
pub open spec fn window_in_force(coalesce_window_ms: u64) -> int {
    if coalesce_window_ms > i64::MAX {
        i64::MAX as int
    } else {
        coalesce_window_ms as int
    }
}

/// The moment a configured window after another.
pub open spec fn window_end(at: Timestamp, coalesce_window_ms: u64) -> Timestamp {
    Timestamp { nanos: (at.nanos + window_in_force(coalesce_window_ms) * NANOS_PER_MILLI) as i128 }
}

/// Whether a repository is the first that the scheduler would look at, and its budget lets it.
pub open spec fn goes_first(repos: Seq<i64>, budgets: Map<i64, BudgetVerdict>, i: int) -> bool {
    &&& 0 <= i < repos.len()
    &&& forall|j: int| 0 <= j < repos.len() ==> repos[i] <= #[trigger] repos[j]
    &&& budgets.contains_key(repos[i]) ==> budgets[repos[i]].why() is None
}

/// Whether this pass should ask the remotes at all: every repository counts as polled now, and
/// the scheduler decides over what is due when the window has passed.
pub fn scheduler_says_discover(
    repos: &Vec<i64>,
    budgets: BTreeMap<i64, BudgetVerdict>,
    slot_limit: usize,
    coalesce_window_ms: u64,
    at: Timestamp,
) -> (r: bool)
    requires
        at.in_calendar(),
        repos@.len() > 0 ==> due_at(at, DEFAULT_COALESCE_WINDOW_MS as int).in_calendar(),
        window_end(at, coalesce_window_ms).in_calendar(),
    ensures
        r == (coalesce_window_ms >= DEFAULT_COALESCE_WINDOW_MS && exists|i: int|
            #[trigger] goes_first(repos@, budgets@, i)),
{
    let window: i64 = if coalesce_window_ms > i64::MAX as u64 {
        i64::MAX
    } else {
        coalesce_window_ms as i64
    };
    let mut bus = TriggerBus::default();
    let mut i: usize = 0;
    while i < repos.len()
        invariant
            i <= repos.len(),
            at.in_calendar(),
            repos@.len() > 0 ==> due_at(at, DEFAULT_COALESCE_WINDOW_MS as int).in_calendar(),
            bus.wf(),
            bus.window() == DEFAULT_COALESCE_WINDOW_MS,
            forall|id: i64| #[trigger] bus.states().contains_key(id) ==> repos@.take(i as int).contains(id),
            forall|j: int| 0 <= j < i ==> bus.states().contains_key(#[trigger] repos@[j]),
            forall|id: i64| #[trigger]
                bus.states().contains_key(id) ==> polled(bus.states()[id], at) && bus.states()[id].pending.len() <= i,
        decreases repos.len() - i,
    {
        let ghost before = bus.states();
        let ghost id = repos@[i as int];
        bus.offer(&TriggerEvent::new(repos[i], TriggerSource::Poll, at));
        proof {
            assert(repos@.take(i + 1) =~= repos@.take(i as int).push(id));
            assert(repos@.take(i + 1)[i as int] == id);
            assert forall|k: i64| #[trigger] bus.states().contains_key(k) implies repos@.take(i + 1).contains(k) by {
                if k != id {
                    assert(before.contains_key(k));
                    let m = choose|m: int| 0 <= m < i && repos@.take(i as int)[m] == k;
                    assert(repos@.take(i + 1)[m] == k);
                }
            }
        }
        i += 1;
    }
    assert(repos@.take(repos@.len() as int) =~= repos@);
    let now = Timestamp { nanos: at.nanos + window as i128 * NANOS_PER_MILLI };
    let ghost filled = bus.states();
    let due = bus.due_passes(now);
    let ghost passes = due@;
    proof {
        assert(whole_units(now.nanos - at.nanos, NANOS_PER_MILLI as int) == window);
        assert(still_open(at, now, DEFAULT_COALESCE_WINDOW_MS as int) == (window
            < DEFAULT_COALESCE_WINDOW_MS));
        if passes.len() > 0 {
            let first = passes[0].repo_id;
            assert(filled.contains_key(first));
            let k = choose|k: int| 0 <= k < repos@.len() && repos@[k] == first;
            assert forall|j: int| 0 <= j < repos@.len() implies first <= #[trigger] repos@[j] by {
                assert(filled.contains_key(repos@[j]));
                assert(filled[repos@[j]].is_due(now, DEFAULT_COALESCE_WINDOW_MS as int));
                let m = choose|m: int| 0 <= m < passes.len() && (#[trigger] passes[m]).repo_id == repos@[j];
                if m > 0 {
                    assert(passes[0].repo_id < passes[m].repo_id);
                }
            }
            assert(goes_first(repos@, budgets@, k) == !(budgets@.contains_key(first)
                && budgets@[first].why() is Some));
            assert forall|o: int| #[trigger] goes_first(repos@, budgets@, o) implies repos@[o] == first by {
                assert(repos@[o] <= repos@[k]);
            }
        } else if repos@.len() > 0 && window >= DEFAULT_COALESCE_WINDOW_MS {
            assert(filled.contains_key(repos@[0]));
            assert(filled[repos@[0]].is_due(now, DEFAULT_COALESCE_WINDOW_MS as int));
        }
    }
    let world = WorldState {
        killed: false,
        running: 0,
        slot_limit,
        due,
        backfill_waiting: Vec::new(),
        budgets,
    };
    Scheduler.tick(&world).starts_work()
}

spec fn polled(t: RepoTriggers, at: Timestamp) -> bool {
    t.opened == Some(at) && !t.running && t.pending.len() > 0
}

/// A change that discovery found.
#[derive(Clone, Debug, PartialEq, Eq)]
pub struct Detected {
    /// What its own system calls it.
    pub external_id: String,
    /// Where the cursor stands after it.
    pub cursor_value: String,
    /// Why it is not reviewed, when a rule says so.
    pub skip: Option<String>,
}

/// How many changes no rule skips.
pub open spec fn to_review(changes: Seq<Detected>) -> nat
    decreases changes.len(),
{
    if changes.len() == 0 {
        0
    } else {
        to_review(changes.drop_last()) + if changes.last().skip is None {
            1nat
        } else {
            0
        }
    }
}

/// The changes that a rule skips, each with the reason.
pub open spec fn skip_lines(changes: Seq<Detected>) -> Seq<Seq<char>>
    decreases changes.len(),
{
    if changes.len() == 0 {
        Seq::empty()
    } else {
        let before = skip_lines(changes.drop_last());
        match changes.last().skip {
            Some(detail) => before.push(changes.last().external_id@ + " — "@ + detail@),
            None => before,
        }
    }
}

/// Where the cursor stands after all of these.
pub open spec fn cursor_after(changes: Seq<Detected>) -> Option<Seq<char>> {
    if changes.len() == 0 {
        None
    } else {
        Some(changes.last().cursor_value@)
    }
}

impl RepoPass {
    /// A pass over a repository that could not be read. One unreachable remote does not stop
    /// the others, so it is recorded.
    pub fn failed(repo: &str, error: &str) -> (r: RepoPass)
        ensures
            r.repo@ == repo@,
            r.discovered == 0,
            r.recorded == 0,
            r.skipped@.len() == 0,
            r.cursor is None,
            r.note is None,
            opt_text(r.error) == Some(error@),
    {
        RepoPass {
            repo: repo.to_owned(),
            discovered: 0,
            recorded: 0,
            skipped: Vec::new(),
            cursor: None,
            error: Some(error.to_owned()),
            note: None,
        }
    }

    /// A pass over the changes found, of which the first `written` were recorded; `broke` is why
    /// the next could not be. The cursor moves past skipped changes too: one that was looked at
    /// and deliberately not reviewed is finished. It does not move past a failure.
    pub fn over(repo: &str, changes: &Vec<Detected>, written: usize, broke: Option<String>) -> (r: RepoPass)
        requires
            written <= changes@.len(),
        ensures
            r.repo@ == repo@,
            r.discovered == changes@.len(),
            r.recorded == to_review(changes@.take(written as int)),
            texts(r.skipped@) == skip_lines(changes@.take(written as int)),
            opt_text(r.cursor) == if broke is Some {
                None
            } else {
                cursor_after(changes@.take(written as int))
            },
            opt_text(r.error) == opt_text(broke),
            r.note is None,
    {
        let mut recorded: usize = 0;
        let mut skipped: Vec<String> = Vec::new();
        let mut i: usize = 0;
        assert(changes@.take(0) =~= Seq::empty());
        assert(texts(skipped@) =~= Seq::empty());
        while i < written
            invariant
                i <= written <= changes@.len(),
                recorded <= i,
                recorded == to_review(changes@.take(i as int)),
                texts(skipped@) == skip_lines(changes@.take(i as int)),
            decreases written - i,
        {
            assert(changes@.take(i + 1).drop_last() =~= changes@.take(i as int));
            match &changes[i].skip {
                Some(detail) => {
                    let ghost was = skipped@;
                    skipped.push(cat3(changes[i].external_id.as_str(), " — ", detail.as_str()));
                    assert(texts(skipped@) =~= texts(was).push(
                        changes@[i as int].external_id@ + " — "@ + detail@,
                    ));
                },
                None => {
                    recorded = recorded + 1;
                },
            }
            i += 1;
        }
        let cursor: Option<String> = if broke.is_some() || written == 0 {
            None
        } else {
            Some(changes[written - 1].cursor_value.clone())
        };
        RepoPass {
            repo: repo.to_owned(),
            discovered: changes.len(),
            recorded,
            skipped,
            cursor,
            error: broke,
            note: None,
        }
    }

    /// Take note that the cursor could not be moved.
    pub fn cursor_not_moved(&mut self, error: &str)
        ensures
            *final(self) == (RepoPass { cursor: None, error: final(self).error, ..*old(self) }),
            opt_text(final(self).error) == Some(error@),
    {
        self.cursor = None;
        self.error = Some(error.to_owned());
    }

    /// Whether it is worth asking why nothing was found: only where nothing ever was. A
    /// repository that has discovered something before is quiet for ordinary reasons.
    pub fn asks_why(&self, had_cursor: bool) -> (r: bool)
        ensures
            r == (self.discovered == 0 && self.error is None && !had_cursor),
    {
        self.discovered == 0 && self.error.is_none() && !had_cursor
    }

    /// Take note of why nothing was found. Branch patterns that match nothing are a fault that
    /// somebody can mend; a repository with no commits yet is not.
    pub fn nothing_to_discover(&mut self, problem: &str, remediation: &str, fault: bool)
        ensures
            ({
                let words = problem@ + "\n  try: "@ + remediation@;
                if fault {
                    &&& *final(self) == (RepoPass { error: final(self).error, ..*old(self) })
                    &&& opt_text(final(self).error) == Some(words)
                } else {
                    &&& *final(self) == (RepoPass { note: final(self).note, ..*old(self) })
                    &&& opt_text(final(self).note) == Some(words)
                }
            }),
    {
        let words = cat3(problem, "\n  try: ", remediation);
        if fault {
            self.error = Some(words);
        } else {
            self.note = Some(words);
        }
    }
}

/// Whether the decision not to review a change is recorded as a run: only once, or a repeated
/// poll would fill the table with it.
pub fn records_skip(skipped: bool, runs_so_far: usize) -> (r: bool)
    ensures
        r == (skipped && runs_so_far == 0),
{
    skipped && runs_so_far == 0
}

// --- housekeeping ---

/// Whether an action has outlived its time. With no time set it waits forever.
pub open spec fn is_overdue(action: PublishAction, ttl_hours: u32, at: Timestamp) -> bool {
    ttl_hours > 0 && at.nanos >= deadline(action.created_at, ttl_hours as i64).nanos
}

/// The actions of a list that have outlived their time, in order.
pub open spec fn overdue(waiting: Seq<PublishAction>, ttl_hours: u32, at: Timestamp) -> Seq<PublishAction>
    decreases waiting.len(),
{
    if waiting.len() == 0 {
        Seq::empty()
    } else {
        let before = overdue(waiting.drop_last(), ttl_hours, at);
        if is_overdue(waiting.last(), ttl_hours, at) {
            before.push(waiting.last())
        } else {
            before
        }
    }
}

/// Whether a record is that of an action's expiry.
pub open spec fn records_expiry(d: ExpiryDetail, action: PublishAction, at: Timestamp) -> bool {
    &&& d.action_id == action.id
    &&& d.run_id == action.run_id
    &&& d.target@ == action.target@
    &&& d.capability@ == action.capability.word()
    &&& d.reason@ == REASON_EXPIRED@
    &&& d.waited_hours == whole_units(at.nanos - action.created_at.nanos, NANOS_PER_HOUR as int)
    &&& d.actor@ == "none"@
}

/// The approvals that nobody answered in time, each as it is recorded. Each is rejected with a
/// reason of its own: somebody declining an action is a judgement, and an expiry is that nobody
/// made one.
pub fn expire_approvals(waiting: &Vec<PublishAction>, ttl_hours: u32, at: Timestamp) -> (r: Vec<ExpiryDetail>)
    requires
        at.in_calendar(),
        ttl_hours > 0 ==> forall|i: int|
            0 <= i < waiting@.len() ==> (#[trigger] waiting@[i]).created_at.in_calendar() && deadline(
                waiting@[i].created_at,
                ttl_hours as i64,
            ).in_calendar(),
    ensures
        r@.len() == overdue(waiting@, ttl_hours, at).len(),
        forall|i: int|
            0 <= i < r@.len() ==> records_expiry(#[trigger] r@[i], overdue(waiting@, ttl_hours, at)[i], at),
{
    let mut r: Vec<ExpiryDetail> = Vec::new();
    let mut i: usize = 0;
    assert(waiting@.take(0) =~= Seq::empty());
    while i < waiting.len()
        invariant
            i <= waiting.len(),
            at.in_calendar(),
            ttl_hours > 0 ==> forall|k: int|
                0 <= k < waiting@.len() ==> (#[trigger] waiting@[k]).created_at.in_calendar() && deadline(
                    waiting@[k].created_at,
                    ttl_hours as i64,
                ).in_calendar(),
            r@.len() == overdue(waiting@.take(i as int), ttl_hours, at).len(),
            forall|k: int|
                0 <= k < r@.len() ==> records_expiry(
                    #[trigger] r@[k],
                    overdue(waiting@.take(i as int), ttl_hours, at)[k],
                    at,
                ),
        decreases waiting.len() - i,
    {
        assert(waiting@.take(i + 1).drop_last() =~= waiting@.take(i as int));
        let action = &waiting[i];
        if ttl_hours > 0 && at.nanos >= expires_at(action.created_at, ttl_hours as i64).nanos {
            let waited: i128 = whole(at.since(action.created_at), NANOS_PER_HOUR);
            r.push(expiry_detail(action, waited as i64));
        }
        i += 1;
    }
    assert(waiting@.take(waiting@.len() as int) =~= waiting@);
    r
}

/// What the retention sweep is to do.
#[derive(Clone, Copy, Debug, PartialEq, Eq, Structural)]
pub enum SweepPlan {
    /// It swept within the last day.
    NotDue,
    /// Everything is kept; only the sweep itself is recorded.
    KeepEverything,
    /// Remove what finished before this, and record the sweep.
    RemoveBefore(Timestamp),
}

/// The moment so many days before another.
pub open spec fn days_before(at: Timestamp, days: u32) -> Timestamp {
    Timestamp { nanos: (at.nanos - days * NANOS_PER_DAY) as i128 }
}

/// Whether a sweep was less than a day ago.
pub open spec fn swept_recently(last: Option<Timestamp>, at: Timestamp) -> bool {
    last is Some && at.nanos - last->0.nanos < NANOS_PER_DAY
}

/// The sweep that a setting tells of.
pub open spec fn sweep_told(stored: Option<Seq<char>>) -> Option<Timestamp> {
    match stored {
        Some(raw) => Timestamp::written(raw),
        None => None,
    }
}

/// What the retention sweep is to do, at most once a day. Zero days mean to keep everything:
/// reading it otherwise would turn an unset field into data loss.
pub open spec fn sweep_due(last: Option<Timestamp>, retention_days: u32, at: Timestamp) -> SweepPlan {
    if swept_recently(last, at) {
        SweepPlan::NotDue
    } else if retention_days == 0 {
        SweepPlan::KeepEverything
    } else {
        SweepPlan::RemoveBefore(days_before(at, retention_days))
    }
}

/// What the retention sweep is to do, given when it last swept.
pub fn plan_sweep(last: Option<Timestamp>, retention_days: u32, at: Timestamp) -> (r: SweepPlan)
    requires
        at.in_calendar(),
        swept_recently(last, at) || days_before(at, retention_days).in_calendar(),
        last matches Some(t) ==> i64::MIN * 1_000_000_000 <= t.nanos <= i64::MAX * 1_000_000_000 + u32::MAX,
    ensures
        r == sweep_due(last, retention_days, at),
{
    if let Some(t) = last {
        if at.nanos - t.nanos < NANOS_PER_DAY {
            return SweepPlan::NotDue;
        }
    }
    if retention_days == 0 {
        return SweepPlan::KeepEverything;
    }
    SweepPlan::RemoveBefore(Timestamp { nanos: at.nanos - retention_days as i128 * NANOS_PER_DAY })
}

/// What the retention sweep is to do, given what the setting holds. A value that cannot be read
/// counts as never swept: the remedy is to sweep.
pub fn sweep(stored: Option<&str>, retention_days: u32, at: Timestamp) -> (r: SweepPlan)
    requires
        at.in_calendar(),
        days_before(at, retention_days).in_calendar(),
    ensures
        r == sweep_due(sweep_told(opt_str(stored)), retention_days, at),
{
    let last: Option<Timestamp> = match stored {
        Some(raw) => Timestamp::from_rfc3339(raw),
        None => None,
    };
    plan_sweep(last, retention_days, at)
}

// --- what holds of every pass ---

/// The task after so many others.
pub open spec fn task_after(paused: bool, steps: nat) -> Task
    decreases steps,
{
    if steps == 0 {
        Task::RecordRemotes
    } else {
        following(task_after(paused, (steps - 1) as nat), paused)
    }
}

/// Unless the kill switch is engaged, every pass recovers, discovers, queues, reviews, delivers
/// and cleans up, in that order, whichever repositories can be reached. While it is engaged,
/// none of that happens.
pub proof fn every_pass_delivers()
    ensures
        task_after(false, 1) == Task::Recover,
        task_after(false, 2) == Task::Discover,
        task_after(false, 3) == Task::Enqueue,
        task_after(false, 4) == Task::Review,
        task_after(false, 5) == Task::Dispatch,
        task_after(false, 6) == Task::Expire,
        task_after(false, 7) == Task::Sweep,
        task_after(false, 8) == Task::Count,
        task_after(false, 9) == Task::Over,
        forall|n: nat| n > 0 ==> #[trigger] task_after(true, n) == Task::Over,
{
    reveal_with_fuel(task_after, 10);
    assert forall|n: nat| n > 0 implies #[trigger] task_after(true, n) == Task::Over by {
        a_paused_pass_is_over(n);
    }
}

proof fn a_paused_pass_is_over(n: nat)
    requires
        n > 0,
    ensures
        task_after(true, n) == Task::Over,
    decreases n,
{
    if n > 1 {
        a_paused_pass_is_over((n - 1) as nat);
    } else {
        assert(task_after(true, 0) == Task::RecordRemotes);
    }
}

/// A repository whose checkout is gone is named, whether or not it had anything queued.
pub proof fn every_missing_repository_is_named(gone: Seq<Absent>, held: Seq<Seq<char>>, i: int)
    requires
        0 <= i < gone.len(),
    ensures
        named_in(missing_notes(gone, held) + held, gone[i].0),
    decreases gone.len(),
{
    let all = missing_notes(gone, held) + held;
    let before = missing_notes(gone.drop_last(), held);
    let name = gone[i].0;
    if named_in(held, name) {
        let k = choose|k: int| 0 <= k < held.len() && within(#[trigger] held[k], name);
        assert(all[missing_notes(gone, held).len() + k] == held[k]);
    } else if i == gone.len() - 1 {
        let line = missing_checkout(name, gone[i].1);
        assert(all[before.len() as int] == line);
        assert(line.subrange(0, name.len() as int) =~= name);
        assert(stands_at(line, name, 0));
    } else {
        every_missing_repository_is_named(gone.drop_last(), held, i);
        assert(gone.drop_last()[i] == gone[i]);
        let k = choose|k: int| 0 <= k < (before + held).len() && within(#[trigger] (before + held)[k], name);
        if k < before.len() {
            assert(all[k] == before[k]);
        } else {
            assert(within(held[k - before.len()], name));
        }
    }
}

/// Every change that was written down is either queued for review or skipped with a reason.
pub proof fn no_change_goes_unaccounted(changes: Seq<Detected>)
    ensures
        to_review(changes) + skip_lines(changes).len() == changes.len(),
    decreases changes.len(),
{
    if changes.len() > 0 {
        no_change_goes_unaccounted(changes.drop_last());
    }
}

/// Retention sweeps at most once a day: with the moment of one sweep on record, no other is due
/// before a day has passed.
pub proof fn retention_sweeps_once_a_day(
    swept_at: Timestamp,
    mark: Seq<char>,
    retention_days: u32,
    at: Timestamp,
)
    requires
        Timestamp::written(mark) == Some(swept_at),
        at.nanos - swept_at.nanos < NANOS_PER_DAY,
    ensures
        sweep_due(Timestamp::written(mark), retention_days, at) == SweepPlan::NotDue,
{
}

/// Zero never removes anything: no approval expires and no run is swept.
pub proof fn zero_keeps_everything(waiting: Seq<PublishAction>, last: Option<Timestamp>, at: Timestamp)
    ensures
        overdue(waiting, 0, at).len() == 0,
        !(sweep_due(last, 0, at) is RemoveBefore),
    decreases waiting.len(),
{
    if waiting.len() > 0 {
        zero_keeps_everything(waiting.drop_last(), last, at);
    }
}

/// Which repositories a pass goes to: those that are enabled and whose checkout is there. One that is
/// enabled and whose checkout is gone is told instead.
pub proof fn only_what_can_be_reached_is_visited(repos: Seq<Watched>, i: int, id: i64)
    ensures
        reachable(repos).contains(id) == exists|k: int|
            0 <= k < repos.len() && (#[trigger] repos[k]).repo_id == id && repos[k].standing.enabled
                && repos[k].standing.checkout_present,
        0 <= i < repos.len() && repos[i].standing.enabled && !repos[i].standing.checkout_present ==> missing(
            repos,
        ).contains((repos[i].standing.name@, opt_text(repos[i].standing.local_path))),
        reachable(repos).len() + missing(repos).len() <= repos.len(),
    decreases repos.len(),
{
    if repos.len() > 0 {
        let before = repos.drop_last();
        let last = repos.last();
        only_what_can_be_reached_is_visited(before, i, id);
        push_contains(reachable(before), last.repo_id, id);
        if reachable(before).contains(id) {
            let k = choose|k: int|
                0 <= k < before.len() && (#[trigger] before[k]).repo_id == id && before[k].standing.enabled
                    && before[k].standing.checkout_present;
            assert(repos[k].repo_id == id);
        } else if last.repo_id == id && last.standing.enabled && last.standing.checkout_present {
            assert(repos[repos.len() - 1].repo_id == id);
        }
        assert forall|k: int|
            0 <= k < repos.len() && (#[trigger] repos[k]).repo_id == id && repos[k].standing.enabled
                && repos[k].standing.checkout_present implies reachable(repos).contains(id) by {
            if k < before.len() {
                assert(before[k].repo_id == id);
            }
        }
        if 0 <= i < repos.len() {
            let told = (repos[i].standing.name@, opt_text(repos[i].standing.local_path));
            push_contains(missing(before), (last.standing.name@, opt_text(last.standing.local_path)), told);
            if i < before.len() {
                assert(before[i] == repos[i]);
            }
        }
    }
}

/// What a pass counts is what its parts come to: what was recorded and skipped of each repository,
/// and what was queued of each.
pub proof fn a_pass_adds_up(passes: Seq<RepoPass>, pass: RepoPass, done: Seq<Queueing>, one: Queueing)
    ensures
        recorded_in(Seq::empty()) == 0 && skipped_in(Seq::empty()) == 0 && queued_in(Seq::empty()) == 0,
        recorded_in(passes.push(pass)) == recorded_in(passes) + pass.recorded,
        skipped_in(passes.push(pass)) == skipped_in(passes) + pass.skipped@.len(),
        queued_in(done.push(one)) == queued_in(done) + match one.result {
            Ok(report) => report.queued@.len(),
            Err(_) => 0,
        },
        one.result matches Err(error) ==> queueing_notes(done.push(one)) == queueing_notes(done).push(
            one.repo@ + ": "@ + error@,
        ),
        one.result matches Ok(report) ==> queueing_notes(done.push(one)).len() == queueing_notes(done).len() + if report.more_waiting {
            1int
        } else {
            0
        },
{
    assert(passes.push(pass).drop_last() =~= passes);
    assert(done.push(one).drop_last() =~= done);
    if let Err(error) = one.result {
        assert(queueing_notes(done.push(one)) =~= queueing_notes(done).push(one.repo@ + ": "@ + error@));
    }
}

/// Everything that a pass did is told, with how much of it there was, and nothing is that it did not.
pub proof fn what_a_pass_did_is_told(r: TickReport, line: Seq<char>)
    ensures
        r.happened().contains(line) == ((recorded_in(r.passes@) > 0 && line == "found "@ + decimal(
            recorded_in(r.passes@),
        ) + " new change(s)"@) || (skipped_in(r.passes@) > 0 && line == "skipped "@ + decimal(
            skipped_in(r.passes@),
        ) + ""@) || (r.recovered > 0 && line == "restarted "@ + decimal(r.recovered as nat) + " stuck run(s)"@) || (
        r.queued > 0 && line == "queued "@ + decimal(r.queued as nat) + ""@) || (r.reviewed@.len() > 0 && line
            == "reviewed "@ + decimal(r.reviewed@.len()) + ""@) || (r.published > 0 && line == "filed "@ + decimal(
            r.published as nat,
        ) + ""@) || (r.publish_failed > 0 && line == ""@ + decimal(r.publish_failed as nat) + " failed to file"@)
            || (r.pruned > 0 && line == "cleared "@ + decimal(r.pruned as nat) + " old run(s)"@) || (r.expired > 0
            && line == ""@ + decimal(r.expired as nat) + " approval(s) expired unanswered"@) || (
        r.awaiting_approval > 0 && line == ""@ + decimal(r.awaiting_approval as nat) + " waiting for you"@) || (
        r.still_queued > 0 && line == ""@ + decimal(r.still_queued as nat) + " still queued"@)),
{
    let a = told("found "@, recorded_in(r.passes@), " new change(s)"@);
    let b = told("skipped "@, skipped_in(r.passes@), ""@);
    let c = told("restarted "@, r.recovered as nat, " stuck run(s)"@);
    let d = told("queued "@, r.queued as nat, ""@);
    let e = told("reviewed "@, r.reviewed@.len(), ""@);
    let f = told("filed "@, r.published as nat, ""@);
    let g = told(""@, r.publish_failed as nat, " failed to file"@);
    let h = told("cleared "@, r.pruned as nat, " old run(s)"@);
    let i = told(""@, r.expired as nat, " approval(s) expired unanswered"@);
    let j = told(""@, r.awaiting_approval as nat, " waiting for you"@);
    let k = told(""@, r.still_queued as nat, " still queued"@);
    told_once("found "@, recorded_in(r.passes@), " new change(s)"@, line);
    told_once("skipped "@, skipped_in(r.passes@), ""@, line);
    told_once("restarted "@, r.recovered as nat, " stuck run(s)"@, line);
    told_once("queued "@, r.queued as nat, ""@, line);
    told_once("reviewed "@, r.reviewed@.len(), ""@, line);
    told_once("filed "@, r.published as nat, ""@, line);
    told_once(""@, r.publish_failed as nat, " failed to file"@, line);
    told_once("cleared "@, r.pruned as nat, " old run(s)"@, line);
    told_once(""@, r.expired as nat, " approval(s) expired unanswered"@, line);
    told_once(""@, r.awaiting_approval as nat, " waiting for you"@, line);
    told_once(""@, r.still_queued as nat, " still queued"@, line);
    both_contain(a, b, line);
    both_contain(a + b, c, line);
    both_contain(a + b + c, d, line);
    both_contain(a + b + c + d, e, line);
    both_contain(a + b + c + d + e, f, line);
    both_contain(a + b + c + d + e + f, g, line);
    both_contain(a + b + c + d + e + f + g, h, line);
    both_contain(a + b + c + d + e + f + g + h, i, line);
    both_contain(a + b + c + d + e + f + g + h + i, j, line);
    both_contain(a + b + c + d + e + f + g + h + i + j, k, line);
}

proof fn told_once(before: Seq<char>, n: nat, after: Seq<char>, line: Seq<char>)
    ensures
        told(before, n, after).contains(line) == (n > 0 && line == before + decimal(n) + after),
{
    if n > 0 {
        assert(told(before, n, after)[0] == before + decimal(n) + after);
    }
}

proof fn both_contain(a: Seq<Seq<char>>, b: Seq<Seq<char>>, line: Seq<char>)
    ensures
        (a + b).contains(line) == (a.contains(line) || b.contains(line)),
{
    let all = a + b;
    if a.contains(line) {
        let k = choose|k: int| 0 <= k < a.len() && a[k] == line;
        assert(all[k] == line);
    }
    if b.contains(line) {
        let k = choose|k: int| 0 <= k < b.len() && b[k] == line;
        assert(all[a.len() + k] == line);
    }
    if all.contains(line) {
        let k = choose|k: int| 0 <= k < all.len() && all[k] == line;
        if k < a.len() {
            assert(a[k] == line);
        } else {
            assert(b[k - a.len()] == line);
        }
    }
}

/// What is said of a pass: why it stopped, where it did; that there is nothing to watch, where there
/// is nothing; and otherwise what it did.
pub proof fn what_is_said_of_a_pass(r: TickReport)
    ensures
        r.stopped matches Some(why) ==> r.in_words() == why@,
        r.stopped is None && r.repos == 0 ==> r.in_words() == "No repositories are enabled yet."@,
        r.stopped is None && r.repos > 0 && r.happened().len() == 0 ==> within(
            r.in_words(),
            decimal(r.repos as nat),
        ),
        r.stopped is None && r.repos > 0 && r.happened().len() > 0 ==> r.in_words().len() == joined(
            r.happened(),
            ", "@,
        ).len() + 1 && r.in_words().last() == '.' && r.in_words().drop_last().skip(1) == joined(
            r.happened(),
            ", "@,
        ).skip(1),
{
    stands_inside("Nothing new across "@, decimal(r.repos as nat), " repositories."@);
    let all = joined(r.happened(), ", "@);
    assert(capitalised(all).len() == all.len());
    assert(sentence(all).drop_last() =~= capitalised(all));
    assert(capitalised(all).skip(1) =~= all.skip(1));
}

/// Each change that is skipped is told with its reason, and each that is not is to be reviewed; the
/// cursor comes to stand after the last of them.
pub proof fn a_skipped_change_is_told(changes: Seq<Detected>, change: Detected)
    ensures
        to_review(Seq::empty()) == 0,
        skip_lines(Seq::empty()).len() == 0,
        to_review(changes.push(change)) == to_review(changes) + if change.skip is None {
            1nat
        } else {
            0
        },
        change.skip matches Some(detail) ==> skip_lines(changes.push(change)) == skip_lines(changes).push(
            change.external_id@ + " — "@ + detail@,
        ),
        change.skip is None ==> skip_lines(changes.push(change)) == skip_lines(changes),
        cursor_after(changes.push(change)) == Some(change.cursor_value@),
        cursor_after(Seq::empty()) is None,
{
    assert(changes.push(change).drop_last() =~= changes);
}

/// What expires: an approval that has waited for as many hours as it is given, where it is given any;
/// and what is recorded of it is that nobody decided.
pub proof fn what_has_waited_too_long_expires(waiting: Seq<PublishAction>, ttl_hours: u32, at: Timestamp, a: PublishAction)
    ensures
        overdue(waiting, ttl_hours, at).contains(a) == (waiting.contains(a) && is_overdue(a, ttl_hours, at)),
        a.created_at.in_calendar() ==> is_overdue(a, ttl_hours, at) == (ttl_hours > 0 && at.nanos - a.created_at.nanos
            >= ttl_hours * 3_600_000_000_000),
    decreases waiting.len(),
{
    if waiting.len() > 0 {
        let before = waiting.drop_last();
        what_has_waited_too_long_expires(before, ttl_hours, at, a);
        push_contains(before, waiting.last(), a);
        push_contains(overdue(before, ttl_hours, at), waiting.last(), a);
        assert(before.push(waiting.last()) =~= waiting);
    }
}

/// What is recorded of an approval that expired: which it was, and that nobody decided.
pub proof fn an_expiry_is_recorded(d: ExpiryDetail, action: PublishAction, at: Timestamp)
    requires
        records_expiry(d, action, at),
    ensures
        d.action_id == action.id,
        d.run_id == action.run_id,
        d.target@ == action.target@,
        d.capability@ == action.capability.word(),
        d.reason@ == "expired"@,
        d.actor@ == "none"@,
        at.nanos >= action.created_at.nanos ==> d.waited_hours * 3_600_000_000_000 <= at.nanos
            - action.created_at.nanos < (d.waited_hours + 1) * 3_600_000_000_000,
{
    let n = at.nanos - action.created_at.nanos;
    if n >= 0 {
        assert((n / 3_600_000_000_000) * 3_600_000_000_000 <= n < (n / 3_600_000_000_000 + 1) * 3_600_000_000_000)
            by (nonlinear_arith)
            requires
                n >= 0,
        ;
    }
}

/// When old runs are removed: a day after the last time, those that finished before as many days as
/// are kept; and none where all are.
pub proof fn what_is_kept_and_for_how_long(last: Option<Timestamp>, retention_days: u32, at: Timestamp)
    requires
        at.in_calendar(),
    ensures
        sweep_due(last, retention_days, at) is NotDue == (last is Some && at.nanos - last->0.nanos
            < 86_400_000_000_000),
        !(sweep_due(last, retention_days, at) is NotDue) ==> sweep_due(last, retention_days, at) is KeepEverything == (
        retention_days == 0),
        sweep_due(last, retention_days, at) matches SweepPlan::RemoveBefore(t) ==> t.nanos == at.nanos - retention_days
            * 86_400_000_000_000,
{
}

/// What could not be sent is told with how many there were and each reason.
pub proof fn what_could_not_be_sent_is_told(unroutable: nat, reasons: Seq<Seq<char>>, all_built: bool, i: int)
    requires
        0 <= i < reasons.len(),
    ensures
        decimal(unroutable).is_prefix_of(unroutable_note(unroutable, reasons, all_built)),
        within(unroutable_note(unroutable, reasons, all_built), reasons[i]),
{
    let all = unroutable_note(unroutable, reasons, all_built);
    let n = decimal(unroutable);
    assert(all.subrange(0, n.len() as int) =~= n);
    indented_holds(reasons, i);
    let k = choose|k: int| stands_at(indented(reasons), reasons[i], k);
    let head = n + " action(s) name a target that is not configured, so nothing was sent"@;
    let m = head.len() as int;
    assert(all.subrange(m + k, m + k + reasons[i].len()) =~= indented(reasons).subrange(k, k + reasons[i].len()));
    assert(stands_at(all, reasons[i], m + k));
}

proof fn indented_holds(lines: Seq<Seq<char>>, i: int)
    requires
        0 <= i < lines.len(),
    ensures
        within(indented(lines), lines[i]),
    decreases lines.len(),
{
    let before = indented(lines.drop_last());
    let all = indented(lines);
    if i == lines.len() - 1 {
        stands_inside(before + "\n  "@, lines[i], Seq::empty());
        assert(before + "\n  "@ + lines[i] + Seq::empty() =~= all);
    } else {
        indented_holds(lines.drop_last(), i);
        let k = choose|k: int| stands_at(before, lines[i], k);
        assert(all.subrange(k, k + lines[i].len()) =~= before.subrange(k, k + lines[i].len()));
        assert(stands_at(all, lines[i], k));
    }
}

/// The tasks of a pass come one after another: remotes, recovery, discovery, queueing, review,
/// delivery, expiry, sweep and count; and while it is paused none comes after the first.
pub proof fn the_tasks_come_one_after_another(before: Tick, after: Tick)
    requires
        after.follows(before),
    ensures
        before.task is RecordRemotes && before.report.paused ==> after.task is Over,
        before.task is RecordRemotes && !before.report.paused ==> after.task is Recover,
        before.task is Recover ==> after.task is Discover,
        before.task is Discover ==> after.task is Enqueue,
        before.task is Enqueue ==> after.task is Review,
        before.task is Review ==> after.task is Dispatch,
        before.task is Dispatch ==> after.task is Expire,
        before.task is Expire ==> after.task is Sweep,
        before.task is Sweep ==> after.task is Count,
        before.task is Count || before.task is Over ==> after.task is Over,
        after.reachable == before.reachable,
        after.missing == before.missing,
{
}

/// When a window closes: as many milliseconds after it opened as it is set to.
pub proof fn when_a_window_closes(at: Timestamp, coalesce_window_ms: u64)
    requires
        at.in_calendar(),
    ensures
        coalesce_window_ms <= i64::MAX ==> window_end(at, coalesce_window_ms).nanos == at.nanos + coalesce_window_ms
            * 1_000_000,
        coalesce_window_ms > i64::MAX ==> window_end(at, coalesce_window_ms).nanos == at.nanos + i64::MAX * 1_000_000,
{
}

/// What goes first is the repository of the smallest number, and only where its budget is not spent.
pub proof fn what_goes_first(repos: Seq<i64>, budgets: Map<i64, BudgetVerdict>, i: int, j: int)
    requires
        goes_first(repos, budgets, i),
    ensures
        0 <= j < repos.len() ==> repos[i] <= repos[j],
        budgets.contains_key(repos[i]) ==> budgets[repos[i]] is WithinBudget,
{
}

/// When the last sweep was is what was stored, where that can be read.
pub proof fn when_the_last_sweep_was(raw: Seq<char>, t: Timestamp)
    ensures
        sweep_told(None) is None,
        rfc3339_moment(raw) == Some((t.second(), t.subsecond())) ==> sweep_told(Some(raw)) == Some(t),
        rfc3339_moment(raw) is None ==> sweep_told(Some(raw)) is None,
{
}

/// Each run that was given up on is told, with the reason.
pub proof fn what_was_given_up_on_is_told(given_up: Seq<(i64, String)>, i: int)
    requires
        0 <= i < given_up.len(),
    ensures
        given_up_notes(given_up).len() == given_up.len(),
        ("run #"@ + decimal_int(given_up[i].0 as int)).is_prefix_of(given_up_notes(given_up)[i]),
        given_up[i].1@.is_suffix_of(given_up_notes(given_up)[i]),
{
    let note = given_up_notes(given_up)[i];
    let run = "run #"@ + decimal_int(given_up[i].0 as int);
    let why = given_up[i].1@;
    assert(note.subrange(0, run.len() as int) =~= run);
    assert(note.subrange(note.len() - why.len(), note.len() as int) =~= why);
}

/// What is said of a pass begins with a capital, where what it says begins with a letter.
pub proof fn a_sentence_begins_with_a_capital(s: Seq<char>)
    requires
        s.len() > 0,
    ensures
        97 <= (s[0] as u32) <= 122 ==> (sentence(s)[0] as u32) == (s[0] as u32) - 32,
        !(97 <= (s[0] as u32) <= 122) ==> sentence(s)[0] == s[0],
        sentence(s).len() == s.len() + 1,
        sentence(s).last() == '.',
{
}

} // verus!
