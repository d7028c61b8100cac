//! The review pipeline, end to end: one materialized change in, one report out.
//!
//! The stages, in order: skipping, ignore filtering, truncation, depth selection, the engine,
//! normalization, and, when a standard run turns up something serious, one escalated re-run.
//! What the engine does happens elsewhere; what is made of it happens here.
//!
//! # The report is stable on purpose
//!
//! Two reviews of the same commit with the same settings must produce the same document, so
//! no field of it carries an absolute path, a timestamp or a database id.

use vstd::prelude::*;

use crate::depth::{change_grounds, escalate, escalates, is_serious, select, DepthDecision, Ground};
use crate::model::{
    Depth, DiffStat, EngineKind, FileDiff, Finding, RepoConfig, Usage, Verdict,
};
use crate::normalize::{
    alike, all_alike, going, what_goes_out_is_open, Normalized, NormalizedFinding, Suppression,
};
use crate::prompt::PromptError;
use crate::text::{
    cat4, copy_texts, has_text, join_path, joined_path, opt_text, push_contains, sort_texts, sorted_texts,
    sorted_texts_means, texts,
};
use crate::truncation::{is_cut, truncate, TruncationOutcome};

verus! {

/// The version of the report document.
pub const REPORT_SCHEMA_VERSION: u32 = 1;

/// How a review ended.
#[derive(Clone, Copy, Debug, PartialEq, Eq, Structural)]
pub enum ReviewStatus {
    /// The engine ran and its output was understood.
    Done,
    /// A skip rule fired. Nothing was spent.
    Skipped,
    /// The engine could not produce a usable review.
    Failed,
}

/// One finding, as it appears in the report.
#[derive(Clone, Debug, PartialEq, Eq)]
pub struct ReportFinding {
    /// Stable dedupe key.
    pub fingerprint: String,
    /// How bad it is.
    pub severity: String,
    /// What kind of problem.
    pub category: String,
    /// Path, when file-scoped.
    pub file: Option<String>,
    /// First implicated line.
    pub line_start: Option<u32>,
    /// Last implicated line.
    pub line_end: Option<u32>,
    /// The claim.
    pub title: String,
    /// Whether it names a file the change does not touch.
    pub out_of_diff: bool,
}

impl ReportFinding {
    /// Whether this is how a finding appears in a report.
    pub open spec fn reports(self, f: NormalizedFinding) -> bool {
        &&& self.fingerprint@ == f.finding.fingerprint@
        &&& self.severity@ == f.finding.severity.word()
        &&& self.category@ == f.finding.category.word()
        &&& opt_text(self.file) == opt_text(f.finding.file)
        &&& self.line_start == f.finding.line_start
        &&& self.line_end == f.finding.line_end
        &&& self.title@ == f.finding.title@
        &&& self.out_of_diff == f.out_of_diff
    }
}

/// A finding that was held back, and why.
#[derive(Clone, Debug, PartialEq, Eq)]
pub struct WithheldFinding {
    /// Its fingerprint.
    pub fingerprint: String,
    /// Whether it is suppressed or a repeat.
    pub state: String,
    /// The claim, so a user can recognise it.
    pub title: String,
    /// Why it is not being published.
    pub reason: String,
}

impl WithheldFinding {
    /// Whether this is how a finding that is held back appears in a report.
    pub open spec fn reports(self, f: NormalizedFinding) -> bool {
        &&& self.fingerprint@ == f.finding.fingerprint@
        &&& self.state@ == f.finding.state.word()
        &&& self.title@ == f.finding.title@
        &&& self.reason@ == f.explanation()
    }
}

/// The result of one review.
#[derive(Clone, Debug, PartialEq, Eq)]
pub struct ReviewReport {
    /// Document version.
    pub schema_version: u32,
    /// Repository name.
    pub repo: String,
    /// Which engine actually ran: a rehearsal must not read like a review.
    pub engine: String,
    /// The change's identity in its own system.
    pub change: String,
    /// How it ended.
    pub status: ReviewStatus,
    /// Which rule skipped it, when it was skipped.
    pub skip_reason: Option<String>,
    /// The depth actually reviewed at.
    pub depth: String,
    /// Every rule that argued for that depth, deepest first.
    pub depth_reasons: Vec<String>,
    /// Whether a standard run was re-run deeply.
    pub escalated: bool,
    /// How many engine invocations this review took.
    pub attempts: u32,
    /// Whether the diff was reduced.
    pub truncated: bool,
    /// Files dropped entirely: complete, never itself truncated.
    pub omitted_files: Vec<String>,
    /// Files shown only as a stat line.
    pub reduced_files: Vec<String>,
    /// The stance this review takes.
    pub verdict: Option<String>,
    /// The engine's summary.
    pub summary: String,
    /// Findings that reach the publish plan.
    pub findings: Vec<ReportFinding>,
    /// Findings held back, with reasons.
    pub withheld: Vec<WithheldFinding>,
    /// Findings the schema rejected and normalization could not salvage.
    pub dropped_findings: u32,
    /// Why the output had to be salvaged, if it did.
    pub degraded: Option<String>,
    /// What the engine said it could not review.
    pub coverage_notes: Option<String>,
    /// A code for why the review failed, when it did.
    pub failure: Option<String>,
    /// What the engine said about it.
    pub failure_detail: Option<String>,
    /// Tokens and cost.
    pub usage: Usage,
}

impl ReviewReport {
    /// Whether the report is self-consistent: every claim that something was reduced comes with
    /// what was reduced, and a review that failed or was skipped says why.
    pub open spec fn consistent(self) -> bool {
        &&& self.truncated ==> self.omitted_files@.len() > 0 || self.reduced_files@.len() > 0
        &&& self.status == ReviewStatus::Failed ==> self.failure is Some
        &&& self.status == ReviewStatus::Skipped ==> self.skip_reason is Some
    }

    /// Whether the report is self-consistent.
    pub fn is_consistent(&self) -> (r: bool)
        ensures
            r == self.consistent(),
    {
        let truncation_ok = !self.truncated || !self.omitted_files.is_empty()
            || !self.reduced_files.is_empty();
        let failure_ok = self.status != ReviewStatus::Failed || self.failure.is_some();
        let skip_ok = self.status != ReviewStatus::Skipped || self.skip_reason.is_some();
        truncation_ok && failure_ok && skip_ok
    }
}

/// What can stop a review before it produces a report.
#[derive(Clone, Debug, PartialEq, Eq)]
pub enum PipelineError {
    /// The prompt could not be assembled or persisted.
    Prompt(PromptError),
    /// The scratch output directory could not be prepared.
    OutDir {
        /// Where.
        path: String,
        /// Why.
        reason: String,
    },
}

impl PipelineError {
    /// The error in words.
    pub fn describe(&self) -> (r: String)
        ensures
            r@ == match *self {
                Self::Prompt(error) => error.in_words(),
                Self::OutDir { path, reason } => "could not prepare the engine's output directory "@ + path@
                    + ": "@ + reason@,
            },
    {
        match self {
            Self::Prompt(error) => error.describe(),
            Self::OutDir { path, reason } => cat4(
                "could not prepare the engine's output directory ",
                path.as_str(),
                ": ",
                reason.as_str(),
            ),
        }
    }
}

/// Everything the pipeline needs about one change.
pub struct ReviewInputs<'a> {
    /// Repository name.
    pub repo_name: &'a str,
    /// The change's identity in its own system.
    pub change: &'a str,
    /// What the change amounts to.
    pub diff_stat: DiffStat,
    /// The settings of the repository.
    pub config: &'a RepoConfig,
    /// The unified diff, before truncation.
    pub diff_unified: &'a str,
    /// Per-file summary of the same diff.
    pub diff_files: &'a Vec<FileDiff>,
    /// The paths of it that are not ignored.
    pub reviewable: &'a Vec<String>,
    /// Labels, where the concept applies.
    pub labels: &'a Vec<String>,
    /// A decision already taken not to review it, if any.
    pub skip: Option<&'a str>,
}

/// Whether a report is that of a change that was not reviewed.
pub open spec fn is_skip_report(r: ReviewReport, inputs: ReviewInputs, engine: EngineKind, reason: Seq<char>) -> bool {
    &&& r.schema_version == REPORT_SCHEMA_VERSION
    &&& r.repo@ == inputs.repo_name@
    &&& r.engine@ == engine.word()
    &&& r.change@ == inputs.change@
    &&& r.status == ReviewStatus::Skipped
    &&& opt_text(r.skip_reason) == Some(reason)
    &&& r.depth@ == Depth::Summary.word()
    &&& r.depth_reasons@.len() == 0
    &&& !r.escalated
    &&& r.attempts == 0
    &&& !r.truncated
    &&& r.omitted_files@.len() == 0
    &&& r.reduced_files@.len() == 0
    &&& r.verdict is None
    &&& r.summary@ == Seq::<char>::empty()
    &&& r.findings@.len() == 0
    &&& r.withheld@.len() == 0
    &&& r.dropped_findings == 0
    &&& r.degraded is None
    &&& r.coverage_notes is None
    &&& r.failure is None
    &&& r.failure_detail is None
    &&& r.usage == Usage::zero()
}

/// A skipped change, reported without spending an engine.
fn skipped_report(inputs: &ReviewInputs, engine: EngineKind, reason: &str) -> (r: ReviewReport)
    ensures
        is_skip_report(r, *inputs, engine, reason@),
        r.consistent(),
{
    ReviewReport {
        schema_version: REPORT_SCHEMA_VERSION,
        repo: inputs.repo_name.to_owned(),
        engine: engine.as_str().to_owned(),
        change: inputs.change.to_owned(),
        status: ReviewStatus::Skipped,
        skip_reason: Some(reason.to_owned()),
        depth: Depth::Summary.as_str().to_owned(),
        depth_reasons: Vec::new(),
        escalated: false,
        attempts: 0,
        truncated: false,
        omitted_files: Vec::new(),
        reduced_files: Vec::new(),
        verdict: None,
        summary: String::new(),
        findings: Vec::new(),
        withheld: Vec::new(),
        dropped_findings: 0,
        degraded: None,
        coverage_notes: None,
        failure: None,
        failure_detail: None,
        usage: Usage::none(),
    }
}

/// What is settled about a review before the engine is asked.
#[derive(Clone, Debug, PartialEq, Eq)]
pub enum Prepared {
    /// There is nothing to ask: the report of a change that is not reviewed.
    Skipped(ReviewReport),
    /// What the engine is shown, how closely it reads, and which paths the change touches.
    Ready {
        /// The diff within its caps.
        cut: TruncationOutcome,
        /// The depth and its reasons.
        decision: DepthDecision,
        /// Every path that the change touches, ignored ones included.
        changed_paths: Vec<String>,
    },
}

/// The files of a change that are not ignored, in order.
pub open spec fn kept_files(files: Seq<FileDiff>, reviewable: Seq<Seq<char>>) -> Seq<FileDiff>
    decreases files.len(),
{
    if files.len() == 0 {
        Seq::empty()
    } else if reviewable.contains(files.last().path@) {
        kept_files(files.drop_last(), reviewable).push(files.last())
    } else {
        kept_files(files.drop_last(), reviewable)
    }
}

/// The paths of a change's files.
pub open spec fn file_paths(files: Seq<FileDiff>) -> Seq<Seq<char>> {
    files.map_values(|f: FileDiff| f.path@)
}

fn copy_file(f: &FileDiff) -> (r: FileDiff)
    ensures
        r == *f,
{
    FileDiff {
        path: f.path.clone(),
        previous_path: f.previous_path.clone(),
        status: f.status.clone(),
        insertions: f.insertions,
        deletions: f.deletions,
        binary: f.binary,
    }
}

/// Why a change is not reviewed, if it is not. One with nothing left to review is a skip, not
/// an empty review: sending an engine an empty diff spends a budget to be told that nothing is
/// wrong.
pub open spec fn skip_reason(inputs: ReviewInputs) -> Option<Seq<char>> {
    if inputs.skip is Some {
        Some(inputs.skip->0@)
    } else if inputs.reviewable@.len() == 0 {
        Some("every path matched ignore_globs, or the diff was empty"@)
    } else {
        None
    }
}

/// Settle everything that does not need the engine.
pub fn prepare(inputs: &ReviewInputs, engine: EngineKind) -> (r: Prepared)
    ensures
        match skip_reason(*inputs) {
            Some(reason) => r matches Prepared::Skipped(report) && is_skip_report(
                report,
                *inputs,
                engine,
                reason,
            ) && report.consistent(),
            None => r matches Prepared::Ready { cut, decision, changed_paths } && is_cut(
                cut,
                inputs.diff_unified@,
                kept_files(inputs.diff_files@, texts(inputs.reviewable@)),
                *inputs.config,
            ) && decision.follows_from(
                change_grounds(
                    texts(inputs.reviewable@),
                    inputs.diff_stat,
                    texts(inputs.labels@),
                    *inputs.config,
                ),
            ) && texts(changed_paths@) == file_paths(inputs.diff_files@),
        },
{
    if let Some(reason) = inputs.skip {
        return Prepared::Skipped(skipped_report(inputs, engine, reason));
    }
    if inputs.reviewable.is_empty() {
        return Prepared::Skipped(
            skipped_report(
                inputs,
                engine,
                "every path matched ignore_globs, or the diff was empty",
            ),
        );
    }
    let ghost all = inputs.diff_files@;
    let mut kept: Vec<FileDiff> = Vec::new();
    let mut changed_paths: Vec<String> = Vec::new();
    let mut i: usize = 0;
    proof {
        assert(all.take(0) =~= Seq::empty());
        assert(texts(changed_paths@) =~= file_paths(all.take(0)));
    }
    while i < inputs.diff_files.len()
        invariant
            i <= inputs.diff_files.len(),
            all == inputs.diff_files@,
            kept@ == kept_files(all.take(i as int), texts(inputs.reviewable@)),
            texts(changed_paths@) == file_paths(all.take(i as int)),
        decreases inputs.diff_files.len() - i,
    {
        let ghost before = changed_paths@;
        let file = &inputs.diff_files[i];
        assert(all.take(i + 1).drop_last() =~= all.take(i as int));
        if has_text(inputs.reviewable, file.path.as_str()) {
            kept.push(copy_file(file));
        }
        changed_paths.push(file.path.clone());
        proof {
            assert(texts(changed_paths@) =~= texts(before).push(all[i as int].path@));
            assert(file_paths(all.take(i + 1)) =~= file_paths(all.take(i as int)).push(all[i as int].path@));
        }
        i += 1;
    }
    assert(all.take(all.len() as int) =~= all);
    let cut = truncate(inputs.diff_unified, &kept, inputs.config);
    let decision = select(inputs.reviewable, &inputs.diff_stat, inputs.labels, inputs.config);
    Prepared::Ready { cut, decision, changed_paths }
}

// --- attempts ---

/// Which depth an attempt runs at, whether it is the escalated one, and how many there have
/// been, itself included.
#[derive(Clone, Copy, Debug, PartialEq, Eq, Structural)]
pub struct Attempt {
    /// The depth.
    pub depth: Depth,
    /// Whether an earlier attempt called for this one.
    pub escalated: bool,
    /// Its number, from one.
    pub number: u32,
}

impl Attempt {
    /// Whether this is an attempt that a review can come to.
    pub open spec fn wf(self) -> bool {
        self.number == if self.escalated {
            2int
        } else {
            1
        } && (self.escalated ==> self.depth == Depth::Deep)
    }

    /// The first attempt at a depth.
    pub fn first(depth: Depth) -> (r: Attempt)
        ensures
            r == (Attempt { depth, escalated: false, number: 1 }),
            r.wf(),
    {
        Attempt { depth, escalated: false, number: 1 }
    }

    /// The attempt that the findings of this one call for, if they do. The findings asked are
    /// those that go out: one that the user has suppressed must not buy them a long re-run.
    pub fn following(self, findings: &Vec<Finding>) -> (r: Option<Attempt>)
        requires
            self.wf(),
        ensures
            r is Some == escalates(self.depth, findings@),
            r matches Some(next) ==> next.wf() && next.escalated && next.depth == Depth::Deep && next.number
                == self.number + 1,
    {
        if escalate(self.depth, findings).is_none() {
            return None;
        }
        Some(Attempt { depth: Depth::Deep, escalated: true, number: self.number + 1 })
    }
}

fn copy_finding(f: &Finding) -> (r: Finding)
    ensures
        r == *f,
{
    Finding {
        id: f.id,
        run_id: f.run_id,
        fingerprint: f.fingerprint.clone(),
        severity: f.severity,
        category: f.category,
        confidence_bits: f.confidence_bits,
        file: f.file.clone(),
        line_start: f.line_start,
        line_end: f.line_end,
        title: f.title.clone(),
        body: f.body.clone(),
        failure_scenario: f.failure_scenario.clone(),
        suggested_fix: f.suggested_fix.clone(),
        state: f.state,
        created_at: f.created_at,
    }
}

/// The findings that go out, bare.
pub fn publishable_findings(normalized: &Normalized) -> (r: Vec<Finding>)
    ensures
        r@ == going(normalized.findings@, true).map_values(|f: NormalizedFinding| f.finding),
{
    let out = normalized.publishable();
    let ghost bare = |f: NormalizedFinding| f.finding;
    let ghost all = going(normalized.findings@, true);
    let mut r: Vec<Finding> = Vec::new();
    let mut i: usize = 0;
    while i < out.len()
        invariant
            i <= out.len(),
            bare == (|f: NormalizedFinding| f.finding),
            all == out@.map_values(|f: &NormalizedFinding| *f),
            r@ == all.map_values(bare).take(i as int),
        decreases out.len() - i,
    {
        assert(all[i as int] == *out@[i as int]);
        r.push(copy_finding(&out[i].finding));
        assert(all.map_values(bare).take(i + 1) =~= all.map_values(bare).take(i as int).push(
            all[i as int].finding,
        ));
        i += 1;
    }
    assert(all.map_values(bare).take(all.len() as int) =~= all.map_values(bare));
    r
}

/// The attempt that what the engine came to calls for, if any. A failure calls for none, and of an
/// answer the findings that go out are asked: one that the user has suppressed must not buy them a
/// long re-run, and one that repeats what is filed is no news.
pub fn attempt_after(attempt: Attempt, result: &Result<(EngineAnswer, Normalized), String>) -> (r: Option<Attempt>)
    requires
        attempt.wf(),
    ensures
        r is Some == (result matches Ok(both) && escalates(
            attempt.depth,
            going(both.1.findings@, true).map_values(|f: NormalizedFinding| f.finding),
        )),
        r matches Some(next) ==> next.wf() && next.escalated && next.depth == Depth::Deep && next.number
            == attempt.number + 1,
{
    match result {
        Ok(both) => attempt.following(&publishable_findings(&both.1)),
        Err(_) => None,
    }
}

/// Fingerprints a user asked never to see again, in order, for the prompt.
pub fn suppressed_fingerprints(suppressions: &Vec<Suppression>) -> (r: Vec<String>)
    ensures
        texts(r@) == sorted_texts(named_fingerprints(suppressions@)),
{
    let mut prints: Vec<String> = Vec::new();
    let mut i: usize = 0;
    proof {
        assert(suppressions@.take(0) =~= Seq::empty());
        assert(texts(prints@) =~= Seq::empty());
    }
    while i < suppressions.len()
        invariant
            i <= suppressions.len(),
            texts(prints@) == named_fingerprints(suppressions@.take(i as int)),
        decreases suppressions.len() - i,
    {
        let ghost before = prints@;
        assert(suppressions@.take(i + 1).drop_last() =~= suppressions@.take(i as int));
        if let Some(print) = &suppressions[i].fingerprint {
            prints.push(print.clone());
            assert(texts(prints@) =~= texts(before).push(print@));
        }
        i += 1;
    }
    assert(suppressions@.take(suppressions@.len() as int) =~= suppressions@);
    sort_texts(prints)
}

/// The fingerprints that suppressions name.
pub open spec fn named_fingerprints(suppressions: Seq<Suppression>) -> Seq<Seq<char>>
    decreases suppressions.len(),
{
    if suppressions.len() == 0 {
        Seq::empty()
    } else {
        let before = named_fingerprints(suppressions.drop_last());
        match suppressions.last().fingerprint {
            Some(print) => before.push(print@),
            None => before,
        }
    }
}

// --- the report ---

/// What an engine answered, its findings aside.
#[derive(Clone, Debug, PartialEq, Eq)]
pub struct EngineAnswer {
    /// The stance it takes.
    pub verdict: Verdict,
    /// Its summary.
    pub summary: String,
    /// Why its output had to be salvaged, if it did.
    pub degraded: Option<String>,
    /// What it could not review.
    pub coverage_notes: Option<String>,
    /// What it spent.
    pub usage: Usage,
}

/// A count, as far as the report can hold it.
pub open spec fn capped_count(n: nat) -> u32 {
    if n > u32::MAX {
        u32::MAX
    } else {
        n as u32
    }
}

/// Whether a report says what one pass at the engine came to.
pub open spec fn is_report(
    r: ReviewReport,
    inputs: ReviewInputs,
    decision: DepthDecision,
    cut: TruncationOutcome,
    engine: EngineKind,
    attempt: Attempt,
    result: Result<(EngineAnswer, Normalized), String>,
) -> bool {
    &&& r.schema_version == REPORT_SCHEMA_VERSION
    &&& r.repo@ == inputs.repo_name@
    &&& r.engine@ == engine.word()
    &&& r.change@ == inputs.change@
    &&& r.skip_reason is None
    &&& r.depth@ == attempt.depth.word()
    &&& texts(r.depth_reasons@) == crate::depth::grounds(decision.reasons@).map_values(
        |g: Ground| g.description(),
    )
    &&& r.escalated == attempt.escalated
    &&& r.attempts == attempt.number
    &&& r.truncated == cut.truncated
    &&& texts(r.omitted_files@) == texts(cut.omitted_files@)
    &&& texts(r.reduced_files@) == texts(cut.reduced_files@)
    &&& match result {
        Ok((answer, normalized)) => {
            let out = going(normalized.findings@, true);
            let held = going(normalized.findings@, false);
            &&& r.status == ReviewStatus::Done
            &&& opt_text(r.verdict) == Some(answer.verdict.word())
            &&& r.summary@ == answer.summary@
            &&& opt_text(r.degraded) == opt_text(answer.degraded)
            &&& opt_text(r.coverage_notes) == opt_text(answer.coverage_notes)
            &&& r.usage == answer.usage
            &&& r.dropped_findings == capped_count(normalized.still_dropped@.len())
            &&& r.failure is None
            &&& r.failure_detail is None
            &&& r.findings@.len() == out.len()
            &&& forall|i: int| 0 <= i < out.len() ==> (#[trigger] r.findings@[i]).reports(out[i])
            &&& r.withheld@.len() == held.len()
            &&& forall|i: int| 0 <= i < held.len() ==> (#[trigger] r.withheld@[i]).reports(held[i])
        },
        Err(message) => {
            &&& r.status == ReviewStatus::Failed
            &&& opt_text(r.failure) == Some("engine_failed"@)
            &&& opt_text(r.failure_detail) == Some(message@)
            &&& r.verdict is None
            &&& r.summary@ == Seq::<char>::empty()
            &&& r.degraded is None
            &&& r.coverage_notes is None
            &&& r.usage == Usage::zero()
            &&& r.dropped_findings == 0
            &&& r.findings@.len() == 0
            &&& r.withheld@.len() == 0
        },
    }
}

fn report_findings(normalized: &Normalized) -> (r: Vec<ReportFinding>)
    ensures
        r@.len() == going(normalized.findings@, true).len(),
        forall|i: int|
            0 <= i < r@.len() ==> (#[trigger] r@[i]).reports(going(normalized.findings@, true)[i]),
{
    let out = normalized.publishable();
    let ghost all = going(normalized.findings@, true);
    let mut r: Vec<ReportFinding> = Vec::new();
    let mut i: usize = 0;
    while i < out.len()
        invariant
            i <= out.len() == all.len(),
            all == out@.map_values(|f: &NormalizedFinding| *f),
            r.len() == i,
            forall|k: int| 0 <= k < i ==> (#[trigger] r@[k]).reports(all[k]),
        decreases out.len() - i,
    {
        let f = out[i];
        assert(all[i as int] == *f);
        r.push(
            ReportFinding {
                fingerprint: f.finding.fingerprint.clone(),
                severity: f.finding.severity.as_str().to_owned(),
                category: f.finding.category.as_str().to_owned(),
                file: f.finding.file.clone(),
                line_start: f.finding.line_start,
                line_end: f.finding.line_end,
                title: f.finding.title.clone(),
                out_of_diff: f.out_of_diff,
            },
        );
        i += 1;
    }
    r
}

fn report_withheld(normalized: &Normalized) -> (r: Vec<WithheldFinding>)
    ensures
        r@.len() == going(normalized.findings@, false).len(),
        forall|i: int|
            0 <= i < r@.len() ==> (#[trigger] r@[i]).reports(going(normalized.findings@, false)[i]),
{
    let held = normalized.withheld();
    let ghost all = going(normalized.findings@, false);
    let ghost first = |p: (&NormalizedFinding, String)| *p.0;
    let mut r: Vec<WithheldFinding> = Vec::new();
    let mut i: usize = 0;
    assert(all == held@.map_values(first));
    while i < held.len()
        invariant
            i <= held.len() == all.len(),
            first == (|p: (&NormalizedFinding, String)| *p.0),
            all == held@.map_values(first),
            forall|k: int| 0 <= k < held@.len() ==> (#[trigger] held@[k]).1@ == held@[k].0.explanation(),
            r.len() == i,
            forall|k: int| 0 <= k < i ==> (#[trigger] r@[k]).reports(all[k]),
        decreases held.len() - i,
    {
        let f = held[i].0;
        assert(all[i as int] == *f);
        r.push(
            WithheldFinding {
                fingerprint: f.finding.fingerprint.clone(),
                state: f.finding.state.as_str().to_owned(),
                title: f.finding.title.clone(),
                reason: held[i].1.clone(),
            },
        );
        i += 1;
    }
    r
}

/// Assemble the report from whatever the engine produced.
pub fn build_report(
    inputs: &ReviewInputs,
    decision: &DepthDecision,
    cut: &TruncationOutcome,
    engine: EngineKind,
    attempt: Attempt,
    result: &Result<(EngineAnswer, Normalized), String>,
) -> (r: ReviewReport)
    requires
        cut.consistent(),
    ensures
        is_report(r, *inputs, *decision, *cut, engine, attempt, *result),
        r.consistent(),
{
    let mut report = ReviewReport {
        schema_version: REPORT_SCHEMA_VERSION,
        repo: inputs.repo_name.to_owned(),
        engine: engine.as_str().to_owned(),
        change: inputs.change.to_owned(),
        status: ReviewStatus::Done,
        skip_reason: None,
        depth: attempt.depth.as_str().to_owned(),
        depth_reasons: decision.explain(),
        escalated: attempt.escalated,
        attempts: attempt.number,
        truncated: cut.truncated,
        omitted_files: copy_texts(&cut.omitted_files),
        reduced_files: copy_texts(&cut.reduced_files),
        verdict: None,
        summary: String::new(),
        findings: Vec::new(),
        withheld: Vec::new(),
        dropped_findings: 0,
        degraded: None,
        coverage_notes: None,
        failure: None,
        failure_detail: None,
        usage: Usage::none(),
    };
    match result {
        Ok(both) => {
            let answer = &both.0;
            let normalized = &both.1;
            report.verdict = Some(answer.verdict.as_str().to_owned());
            report.summary = answer.summary.clone();
            report.degraded = answer.degraded.clone();
            report.coverage_notes = answer.coverage_notes.clone();
            report.usage = answer.usage;
            let dropped: usize = normalized.still_dropped.len();
            report.dropped_findings = if dropped > u32::MAX as usize {
                u32::MAX
            } else {
                dropped as u32
            };
            report.findings = report_findings(normalized);
            report.withheld = report_withheld(normalized);
        },
        Err(message) => {
            report.status = ReviewStatus::Failed;
            // A code, not a message: reasons are a fixed set that the UI and the audit log
            // both key on. The message stands beside it.
            report.failure = Some("engine_failed".to_owned());
            report.failure_detail = Some(message.clone());
        },
    }
    report
}

/// A review and what it found.
#[derive(Clone, Debug, PartialEq, Eq)]
pub struct ReviewOutcome {
    /// What is stored and published of it.
    pub report: ReviewReport,
    /// Every finding, with its state and its notes.
    pub findings: Vec<NormalizedFinding>,
}

/// End a review: report it, and hand on what its last attempt found.
pub fn conclude(
    inputs: &ReviewInputs,
    decision: &DepthDecision,
    cut: &TruncationOutcome,
    engine: EngineKind,
    attempt: Attempt,
    result: Result<(EngineAnswer, Normalized), String>,
) -> (r: ReviewOutcome)
    requires
        cut.consistent(),
    ensures
        is_report(r.report, *inputs, *decision, *cut, engine, attempt, result),
        r.report.consistent(),
        match result {
            Ok(both) => r.findings@ == both.1.findings@,
            Err(_) => r.findings@.len() == 0,
        },
{
    let report = build_report(inputs, decision, cut, engine, attempt, &result);
    let findings = match result {
        Ok(both) => both.1.findings,
        Err(_) => Vec::new(),
    };
    ReviewOutcome { report, findings }
}

/// Where the pipeline writes the engine's output, relative to a scratch directory.
pub fn engine_out_dir(scratch: &str) -> (r: String)
    ensures
        r@ == joined_path(scratch@, "engine-out"@),
{
    join_path(scratch, "engine-out")
}

/// Whether a verdict blocks: something is to be changed first.
pub fn blocks(verdict: Verdict) -> (r: bool)
    ensures
        r == verdict.blocking,
{
    verdict.blocking
}

// --- what holds of every review ---

/// A review asks the engine at most twice: what follows a first attempt has nothing after it.
pub proof fn at_most_two_attempts(first: Attempt, second: Attempt, findings: Seq<Finding>)
    requires
        first.wf(),
        second.wf(),
        second.escalated,
    ensures
        !escalates(second.depth, findings),
        first.number <= 2,
        second.number == 2,
{
}

impl ReportFinding {
    /// Whether two findings of reports read the same.
    pub open spec fn reads_like(self, other: ReportFinding) -> bool {
        &&& self.fingerprint@ == other.fingerprint@
        &&& self.severity@ == other.severity@
        &&& self.category@ == other.category@
        &&& opt_text(self.file) == opt_text(other.file)
        &&& self.line_start == other.line_start
        &&& self.line_end == other.line_end
        &&& self.title@ == other.title@
        &&& self.out_of_diff == other.out_of_diff
    }
}

impl WithheldFinding {
    /// Whether two findings that were held back read the same.
    pub open spec fn reads_like(self, other: WithheldFinding) -> bool {
        &&& self.fingerprint@ == other.fingerprint@
        &&& self.state@ == other.state@
        &&& self.title@ == other.title@
        &&& self.reason@ == other.reason@
    }
}

impl ReviewReport {
    /// Whether two reports read the same, field for field.
    pub open spec fn reads_like(self, other: ReviewReport) -> bool {
        &&& self.schema_version == other.schema_version
        &&& self.repo@ == other.repo@
        &&& self.engine@ == other.engine@
        &&& self.change@ == other.change@
        &&& self.status == other.status
        &&& opt_text(self.skip_reason) == opt_text(other.skip_reason)
        &&& self.depth@ == other.depth@
        &&& texts(self.depth_reasons@) == texts(other.depth_reasons@)
        &&& self.escalated == other.escalated
        &&& self.attempts == other.attempts
        &&& self.truncated == other.truncated
        &&& texts(self.omitted_files@) == texts(other.omitted_files@)
        &&& texts(self.reduced_files@) == texts(other.reduced_files@)
        &&& opt_text(self.verdict) == opt_text(other.verdict)
        &&& self.summary@ == other.summary@
        &&& self.findings@.len() == other.findings@.len()
        &&& forall|i: int|
            0 <= i < self.findings@.len() ==> (#[trigger] self.findings@[i]).reads_like(other.findings@[i])
        &&& self.withheld@.len() == other.withheld@.len()
        &&& forall|i: int|
            0 <= i < self.withheld@.len() ==> (#[trigger] self.withheld@[i]).reads_like(other.withheld@[i])
        &&& self.dropped_findings == other.dropped_findings
        &&& opt_text(self.degraded) == opt_text(other.degraded)
        &&& opt_text(self.coverage_notes) == opt_text(other.coverage_notes)
        &&& opt_text(self.failure) == opt_text(other.failure)
        &&& opt_text(self.failure_detail) == opt_text(other.failure_detail)
        &&& self.usage == other.usage
    }
}

/// Whether two answers of an engine are the same, but for when and in which run they came.
pub open spec fn answers_alike(
    one: Result<(EngineAnswer, Normalized), String>,
    other: Result<(EngineAnswer, Normalized), String>,
) -> bool {
    match (one, other) {
        (Ok(a), Ok(b)) => {
            &&& a.0 == b.0
            &&& all_alike(going(a.1.findings@, true), going(b.1.findings@, true))
            &&& all_alike(going(a.1.findings@, false), going(b.1.findings@, false))
            &&& a.1.still_dropped@.len() == b.1.still_dropped@.len()
        },
        (Err(a), Err(b)) => a@ == b@,
        _ => false,
    }
}

/// Two reviews of the same change with the same settings read the same, whenever they are made,
/// where the engine answers the same: what it is shown, how closely it is asked to read, whether
/// it is asked again, and every field of the report.
pub proof fn the_report_is_stable(
    inputs: ReviewInputs,
    engine: EngineKind,
    attempt: Attempt,
    cut: TruncationOutcome,
    other_cut: TruncationOutcome,
    decision: DepthDecision,
    other_decision: DepthDecision,
    result: Result<(EngineAnswer, Normalized), String>,
    other_result: Result<(EngineAnswer, Normalized), String>,
    report: ReviewReport,
    other_report: ReviewReport,
)
    requires
        is_cut(
            cut,
            inputs.diff_unified@,
            kept_files(inputs.diff_files@, texts(inputs.reviewable@)),
            *inputs.config,
        ),
        is_cut(
            other_cut,
            inputs.diff_unified@,
            kept_files(inputs.diff_files@, texts(inputs.reviewable@)),
            *inputs.config,
        ),
        decision.follows_from(
            change_grounds(
                texts(inputs.reviewable@),
                inputs.diff_stat,
                texts(inputs.labels@),
                *inputs.config,
            ),
        ),
        other_decision.follows_from(
            change_grounds(
                texts(inputs.reviewable@),
                inputs.diff_stat,
                texts(inputs.labels@),
                *inputs.config,
            ),
        ),
        answers_alike(result, other_result),
        is_report(report, inputs, decision, cut, engine, attempt, result),
        is_report(other_report, inputs, other_decision, other_cut, engine, attempt, other_result),
    ensures
        cut.diff@ == other_cut.diff@,
        decision.depth == other_decision.depth,
        result matches Ok(a) ==> (other_result matches Ok(b) && escalates(
            attempt.depth,
            going(a.1.findings@, true).map_values(|f: NormalizedFinding| f.finding),
        ) == escalates(
            attempt.depth,
            going(b.1.findings@, true).map_values(|f: NormalizedFinding| f.finding),
        )),
        report.reads_like(other_report),
{
    assert(texts(cut.omitted_files@).len() == cut.omitted_files@.len());
    assert(texts(other_cut.omitted_files@).len() == other_cut.omitted_files@.len());
    assert(texts(cut.reduced_files@).len() == cut.reduced_files@.len());
    assert(texts(other_cut.reduced_files@).len() == other_cut.reduced_files@.len());
    if let (Ok(a), Ok(b)) = (result, other_result) {
        let one = going(a.1.findings@, true);
        let other = going(b.1.findings@, true);
        let held = going(a.1.findings@, false);
        let other_held = going(b.1.findings@, false);
        let fs = one.map_values(|f: NormalizedFinding| f.finding);
        let gs = other.map_values(|f: NormalizedFinding| f.finding);
        assert forall|i: int| 0 <= i < one.len() implies (#[trigger] report.findings@[i]).reads_like(
            other_report.findings@[i],
        ) by {
            assert(alike(one[i], other[i]));
            assert(report.findings@[i].reports(one[i]));
            assert(other_report.findings@[i].reports(other[i]));
        }
        assert forall|i: int| 0 <= i < held.len() implies (#[trigger] report.withheld@[i]).reads_like(
            other_report.withheld@[i],
        ) by {
            assert(alike(held[i], other_held[i]));
            assert(report.withheld@[i].reports(held[i]));
            assert(other_report.withheld@[i].reports(other_held[i]));
        }
        assert forall|i: int| 0 <= i < fs.len() implies (#[trigger] fs[i]).severity == gs[i].severity by {
            assert(alike(one[i], other[i]));
        }
        if escalates(attempt.depth, fs) {
            let i = choose|i: int| 0 <= i < fs.len() && is_serious((#[trigger] fs[i]).severity);
            assert(is_serious(gs[i].severity));
        }
        if escalates(attempt.depth, gs) {
            let i = choose|i: int| 0 <= i < gs.len() && is_serious((#[trigger] gs[i]).severity);
            assert(is_serious(fs[i].severity));
        }
    }
}

/// A report says whose review it is, how it was read, and what was left out of what the engine
/// saw: nothing of that is lost on the way.
pub proof fn a_report_says_what_was_reviewed(
    r: ReviewReport,
    inputs: ReviewInputs,
    decision: DepthDecision,
    cut: TruncationOutcome,
    engine: EngineKind,
    attempt: Attempt,
    result: Result<(EngineAnswer, Normalized), String>,
)
    requires
        is_report(r, inputs, decision, cut, engine, attempt, result),
    ensures
        r.schema_version == 1,
        r.repo@ == inputs.repo_name@,
        r.change@ == inputs.change@,
        r.engine@ == engine.name@,
        r.depth@ == match attempt.depth {
            Depth::Summary => "summary"@,
            Depth::Standard => "standard"@,
            Depth::Deep => "deep"@,
        },
        r.escalated == attempt.escalated,
        r.attempts == attempt.number,
        r.depth_reasons@.len() == decision.reasons@.len(),
        forall|i: int|
            0 <= i < r.depth_reasons@.len() ==> (#[trigger] r.depth_reasons@[i])@
                == decision.reasons@[i]@.description(),
        r.truncated == cut.truncated,
        texts(r.omitted_files@) == texts(cut.omitted_files@),
        texts(r.reduced_files@) == texts(cut.reduced_files@),
        r.skip_reason is None,
        r.status == if result is Ok {
            ReviewStatus::Done
        } else {
            ReviewStatus::Failed
        },
{
    let told = crate::depth::grounds(decision.reasons@).map_values(|g: Ground| g.description());
    assert(texts(r.depth_reasons@).len() == told.len());
    assert forall|i: int| 0 <= i < r.depth_reasons@.len() implies (#[trigger] r.depth_reasons@[i])@
        == decision.reasons@[i]@.description() by {
        assert(texts(r.depth_reasons@)[i] == told[i]);
    }
}

/// What an engine answered is reported as it answered it, and a failure as a failure.
pub proof fn a_report_says_what_the_engine_said(
    r: ReviewReport,
    inputs: ReviewInputs,
    decision: DepthDecision,
    cut: TruncationOutcome,
    engine: EngineKind,
    attempt: Attempt,
    result: Result<(EngineAnswer, Normalized), String>,
)
    requires
        is_report(r, inputs, decision, cut, engine, attempt, result),
    ensures
        match result {
            Ok(both) => {
                &&& r.verdict matches Some(word) && word@ == both.0.verdict.name@
                &&& r.summary@ == both.0.summary@
                &&& opt_text(r.degraded) == opt_text(both.0.degraded)
                &&& opt_text(r.coverage_notes) == opt_text(both.0.coverage_notes)
                &&& r.usage == both.0.usage
                &&& r.failure is None
                &&& r.failure_detail is None
                &&& both.1.still_dropped@.len() <= u32::MAX ==> r.dropped_findings
                    == both.1.still_dropped@.len()
            },
            Err(message) => {
                &&& r.failure matches Some(code) && code@ == "engine_failed"@
                &&& r.failure_detail matches Some(detail) && detail@ == message@
                &&& r.verdict is None
                &&& r.findings@.len() == 0
                &&& r.withheld@.len() == 0
                &&& r.degraded is None
                &&& r.usage == Usage::zero()
            },
        },
{
}

/// Every finding is in the report: among those that go out, where its state is open, as it was
/// stored; and otherwise among those held back, with its title and why.
pub proof fn every_finding_is_in_the_report(
    r: ReviewReport,
    inputs: ReviewInputs,
    decision: DepthDecision,
    cut: TruncationOutcome,
    engine: EngineKind,
    attempt: Attempt,
    both: (EngineAnswer, Normalized),
    k: int,
)
    requires
        is_report(r, inputs, decision, cut, engine, attempt, Ok(both)),
        0 <= k < both.1.findings@.len(),
    ensures
        ({
            let f = both.1.findings@[k];
            if f.finding.state == crate::model::FindingState::Open {
                exists|i: int| {
                    let told = #[trigger] r.findings@[i];
                    &&& 0 <= i < r.findings@.len()
                    &&& told.fingerprint@ == f.finding.fingerprint@
                    &&& told.title@ == f.finding.title@
                    &&& told.severity@ == f.finding.severity.word()
                    &&& told.category@ == f.finding.category.word()
                    &&& opt_text(told.file) == opt_text(f.finding.file)
                    &&& told.line_start == f.finding.line_start
                    &&& told.line_end == f.finding.line_end
                    &&& told.out_of_diff == f.out_of_diff
                }
            } else {
                exists|i: int| {
                    let told = #[trigger] r.withheld@[i];
                    &&& 0 <= i < r.withheld@.len()
                    &&& told.fingerprint@ == f.finding.fingerprint@
                    &&& told.title@ == f.finding.title@
                    &&& told.state@ == f.finding.state.word()
                    &&& told.reason@ == f.explanation()
                }
            }
        }),
        r.findings@.len() + r.withheld@.len() == both.1.findings@.len(),
{
    let all = both.1.findings@;
    let f = all[k];
    assert(all.contains(f));
    what_goes_out_is_open(all, f);
    if f.finding.state == crate::model::FindingState::Open {
        let out = going(all, true);
        let i = choose|i: int| 0 <= i < out.len() && out[i] == f;
        assert(r.findings@[i].reports(out[i]));
    } else {
        let held = going(all, false);
        let i = choose|i: int| 0 <= i < held.len() && held[i] == f;
        assert(r.withheld@[i].reports(held[i]));
    }
}

/// Nothing is in the report that was not found: what is told as going out is a finding that is
/// open, and what is told as held back is one that is not.
pub proof fn only_findings_are_in_the_report(
    r: ReviewReport,
    inputs: ReviewInputs,
    decision: DepthDecision,
    cut: TruncationOutcome,
    engine: EngineKind,
    attempt: Attempt,
    both: (EngineAnswer, Normalized),
    i: int,
)
    requires
        is_report(r, inputs, decision, cut, engine, attempt, Ok(both)),
    ensures
        0 <= i < r.findings@.len() ==> exists|k: int|
            0 <= k < both.1.findings@.len() && (#[trigger] both.1.findings@[k]).finding.title@
                == r.findings@[i].title@ && both.1.findings@[k].finding.state
                == crate::model::FindingState::Open,
        0 <= i < r.withheld@.len() ==> exists|k: int|
            0 <= k < both.1.findings@.len() && (#[trigger] both.1.findings@[k]).finding.title@
                == r.withheld@[i].title@ && both.1.findings@[k].finding.state
                != crate::model::FindingState::Open,
{
    let all = both.1.findings@;
    if 0 <= i < r.findings@.len() {
        let f = going(all, true)[i];
        assert(r.findings@[i].reports(f));
        assert(going(all, true).contains(f));
        what_goes_out_is_open(all, f);
        let k = choose|k: int| 0 <= k < all.len() && all[k] == f;
        assert(all[k].finding.title@ == r.findings@[i].title@);
    }
    if 0 <= i < r.withheld@.len() {
        let f = going(all, false)[i];
        assert(r.withheld@[i].reports(f));
        assert(going(all, false).contains(f));
        what_goes_out_is_open(all, f);
        let k = choose|k: int| 0 <= k < all.len() && all[k] == f;
        assert(all[k].finding.title@ == r.withheld@[i].title@);
    }
}

/// A change is not reviewed where somebody decided so, for the reason they gave, or where nothing
/// of it is left to review; and what is not reviewed costs nothing and finds nothing.
pub proof fn a_skip_spends_nothing(inputs: ReviewInputs, engine: EngineKind, r: ReviewReport, reason: Seq<char>)
    ensures
        inputs.skip matches Some(why) ==> skip_reason(inputs) == Some(why@),
        inputs.skip is None ==> skip_reason(inputs) is Some == (inputs.reviewable@.len() == 0),
        is_skip_report(r, inputs, engine, reason) ==> {
            &&& r.status == ReviewStatus::Skipped
            &&& r.skip_reason matches Some(why) && why@ == reason
            &&& r.attempts == 0
            &&& r.usage == Usage::zero()
            &&& r.findings@.len() == 0 && r.withheld@.len() == 0
            &&& r.verdict is None && r.failure is None
            &&& r.repo@ == inputs.repo_name@ && r.change@ == inputs.change@ && r.engine@ == engine.name@
        },
{
}

/// The files that are read are those of the change that are not ignored.
pub proof fn only_what_is_reviewable_is_read(files: Seq<FileDiff>, reviewable: Seq<Seq<char>>, f: FileDiff)
    ensures
        kept_files(files, reviewable).contains(f) == (files.contains(f) && reviewable.contains(f.path@)),
        kept_files(files, reviewable).len() <= files.len(),
    decreases files.len(),
{
    if files.len() > 0 {
        let before = files.drop_last();
        only_what_is_reviewable_is_read(before, reviewable, f);
        push_contains(before, files.last(), f);
        push_contains(kept_files(before, reviewable), files.last(), f);
        assert(before.push(files.last()) =~= files);
    }
}

/// The fingerprints an engine is told not to report again are those that suppressions name.
pub proof fn what_is_suppressed_is_told(suppressions: Seq<Suppression>, print: Seq<char>)
    ensures
        sorted_texts(named_fingerprints(suppressions)).contains(print) == exists|k: int|
            0 <= k < suppressions.len() && (#[trigger] suppressions[k]).fingerprint is Some
                && suppressions[k].fingerprint->0@ == print,
{
    sorted_texts_means(named_fingerprints(suppressions), print);
    named_are_named(suppressions, print);
}

proof fn named_are_named(suppressions: Seq<Suppression>, print: Seq<char>)
    ensures
        named_fingerprints(suppressions).contains(print) == exists|k: int|
            0 <= k < suppressions.len() && (#[trigger] suppressions[k]).fingerprint is Some
                && suppressions[k].fingerprint->0@ == print,
    decreases suppressions.len(),
{
    if suppressions.len() > 0 {
        let before = suppressions.drop_last();
        let last = suppressions.last();
        named_are_named(before, print);
        assert forall|k: int| 0 <= k < before.len() implies #[trigger] before[k] == suppressions[k] by {}
        if last.fingerprint is Some {
            push_contains(named_fingerprints(before), last.fingerprint->0@, print);
        }
        if named_fingerprints(before).contains(print) {
            let k = choose|k: int|
                0 <= k < before.len() && (#[trigger] before[k]).fingerprint is Some && before[k].fingerprint->0@
                    == print;
            assert(suppressions[k].fingerprint->0@ == print);
        } else if named_fingerprints(suppressions).contains(print) {
            assert(suppressions[suppressions.len() - 1].fingerprint->0@ == print);
        }
        assert forall|k: int|
            0 <= k < suppressions.len() && (#[trigger] suppressions[k]).fingerprint is Some
                && suppressions[k].fingerprint->0@ == print implies named_fingerprints(suppressions).contains(print) by {
            if k < before.len() {
                assert(before[k].fingerprint->0@ == print);
            }
        }
    }
}

/// A report is consistent where what was cut is named, a failure has its code and a skip its reason.
pub proof fn what_makes_a_report_consistent(r: ReviewReport)
    requires
        r.consistent(),
    ensures
        r.truncated && r.omitted_files@.len() == 0 ==> r.reduced_files@.len() > 0,
        r.status is Failed ==> r.failure is Some,
        r.status is Skipped ==> r.skip_reason is Some,
{
}

} // verus!
