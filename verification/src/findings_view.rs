//! Findings across repositories.
//!
//! # Filters narrow
//!
//! Every filter is optional, and they compose: two together mean both. A screen where a second
//! filter widened the result would be one nobody could reason about.
//!
//! # Filing by hand is gated like filing by itself
//!
//! A person who asks for an issue is not always the one whose tracker it lands in. The owner of the
//! repository set a mode, and a manual action that went round it would be a hole in the ceiling
//! that every other path respects.

use vstd::prelude::*;

use crate::clock::Timestamp;
use crate::gating::{gated, gated_disposition};
use crate::model::{
    AutonomyMode, Capability, Destination, Finding, FindingState, PublishActionStatus, RiskClass, Severity,
};
use crate::normalize::Suppression;
use crate::run_view::{contains_of_push, same_members};
use crate::text::{
    cat2, cat3, decimal_int, first_index, first_index_is, first_index_none, in_order, opt_text, push_contains,
    same, signed, sort_texts, text_le, texts,
};

verus! {

/// How many runs are read for findings.
pub const FINDINGS_RUN_SCAN: u32 = 500;

/// Why the findings could not be read.
#[derive(Clone, Debug, PartialEq, Eq)]
pub enum FindingsError {
    /// The database could not be read.
    Store {
        /// Why.
        source: String,
    },
    /// The finding names no repository to file against.
    Orphaned {
        /// Which finding.
        id: i64,
    },
}

impl FindingsError {
    /// The error in words.
    pub fn describe(&self) -> (r: String)
        ensures
            r@ == match *self {
                Self::Store { source } => "could not read the local database: "@ + source@
                    + "\n  try: revlocal db migrate"@,
                Self::Orphaned { id } => "finding "@ + decimal_int(id as int)
                    + " belongs to no repository, so there is nowhere to file it"@,
            },
    {
        match self {
            Self::Store { source } => cat3(
                "could not read the local database: ",
                source.as_str(),
                "\n  try: revlocal db migrate",
            ),
            Self::Orphaned { id } => cat3(
                "finding ",
                signed(*id).as_str(),
                " belongs to no repository, so there is nowhere to file it",
            ),
        }
    }
}

/// One row of the table.
#[derive(Clone, Debug, PartialEq, Eq)]
pub struct FindingRow {
    /// The finding's number.
    pub id: i64,
    /// The run that produced it.
    pub run_id: i64,
    /// Which repository.
    pub repo_id: i64,
    /// Its name: a number is not something to scan a table by.
    pub repo: String,
    /// How bad.
    pub severity: Severity,
    /// What kind.
    pub category: String,
    /// Where it stands.
    pub state: FindingState,
    /// One line.
    pub title: String,
    /// The file it names, if any.
    pub file: Option<String>,
    /// What makes it the same finding in another run.
    pub fingerprint: String,
}

impl FindingRow {
    /// Whether this shows a finding of a repository.
    pub open spec fn shows(self, finding: Finding, run_id: i64, repo_id: i64, repo: Seq<char>) -> bool {
        &&& self.id == finding.id
        &&& self.run_id == run_id
        &&& self.repo_id == repo_id
        &&& self.repo@ == repo
        &&& self.severity == finding.severity
        &&& self.category@ == finding.category.word()
        &&& self.state == finding.state
        &&& self.title@ == finding.title@
        &&& opt_text(self.file) == opt_text(finding.file)
        &&& self.fingerprint@ == finding.fingerprint@
    }

    /// The row of a finding.
    pub fn of(finding: &Finding, run_id: i64, repo_id: i64, repo: &str) -> (r: FindingRow)
        ensures
            r.shows(*finding, run_id, repo_id, repo@),
    {
        FindingRow {
            id: finding.id,
            run_id,
            repo_id,
            repo: repo.to_owned(),
            severity: finding.severity,
            category: finding.category.as_str().to_owned(),
            state: finding.state,
            title: finding.title.clone(),
            file: finding.file.clone(),
            fingerprint: finding.fingerprint.clone(),
        }
    }
}

/// Whether an entry is that of a repository.
pub open spec fn numbered(repo_id: i64) -> spec_fn((i64, String)) -> bool {
    |e: (i64, String)| e.0 == repo_id
}

/// What a repository is called.
pub open spec fn repo_name(repos: Seq<(i64, String)>, repo_id: i64) -> Seq<char> {
    match first_index(repos, numbered(repo_id)) {
        Some(i) => repos[i].1@,
        None => "repo "@ + decimal_int(repo_id as int),
    }
}

/// What a repository is called; its number where it is not known any more.
pub fn name_of(repos: &Vec<(i64, String)>, repo_id: i64) -> (r: String)
    ensures
        r@ == repo_name(repos@, repo_id),
{
    let ghost p = numbered(repo_id);
    let mut i: usize = 0;
    while i < repos.len()
        invariant
            i <= repos.len(),
            p == numbered(repo_id),
            forall|j: int| 0 <= j < i ==> !p(#[trigger] repos@[j]),
        decreases repos.len() - i,
    {
        if repos[i].0 == repo_id {
            proof {
                first_index_is(repos@, p, i as int);
            }
            return repos[i].1.clone();
        }
        i += 1;
    }
    proof {
        first_index_none(repos@, p);
    }
    cat2("repo ", signed(repo_id).as_str())
}

/// What the table is filtered on.
#[derive(Clone, Debug, PartialEq, Eq)]
pub struct FindingFilter {
    /// This severity and worse.
    pub min_severity: Option<Severity>,
    /// Exactly this category.
    pub category: Option<String>,
    /// Exactly this state.
    pub state: Option<FindingState>,
    /// One repository.
    pub repo_id: Option<i64>,
}

impl FindingFilter {
    /// Whether a row survives every filter that is set.
    pub open spec fn admits(self, row: FindingRow) -> bool {
        &&& self.min_severity matches Some(min) ==> row.severity.level() >= min.level()
        &&& self.category matches Some(category) ==> row.category@ == category@
        &&& self.state matches Some(state) ==> row.state == state
        &&& self.repo_id matches Some(repo_id) ==> row.repo_id == repo_id
    }

    /// Whether a row survives every filter that is set.
    pub fn matches(&self, finding: &FindingRow) -> (r: bool)
        ensures
            r == self.admits(*finding),
    {
        if let Some(min) = self.min_severity {
            if severity_rank(finding.severity) < severity_rank(min) {
                return false;
            }
        }
        if let Some(category) = &self.category {
            if !same(finding.category.as_str(), category.as_str()) {
                return false;
            }
        }
        if let Some(state) = self.state {
            if finding.state != state {
                return false;
            }
        }
        if let Some(repo_id) = self.repo_id {
            if finding.repo_id != repo_id {
                return false;
            }
        }
        true
    }
}

impl Default for FindingFilter {
    /// The filter that hides nothing.
    fn default() -> (r: FindingFilter)
        ensures
            r.min_severity is None,
            r.category is None,
            r.state is None,
            r.repo_id is None,
    {
        FindingFilter { min_severity: None, category: None, state: None, repo_id: None }
    }
}

/// Severity as an order, by consequence and not by the alphabet.
pub fn severity_rank(severity: Severity) -> (r: u8)
    ensures
        r == severity.level(),
{
    severity.rank()
}

/// The table.
#[derive(Clone, Debug, PartialEq, Eq)]
pub struct FindingsView {
    /// The rows that survived the filter.
    pub rows: Vec<FindingRow>,
    /// Every category that was there before filtering, so that the filter can offer them.
    pub categories: Vec<String>,
    /// How many findings there were before filtering: a count of what is shown says nothing of
    /// what is hidden.
    pub total_before_filter: usize,
    /// Whether the reading stopped at [`FINDINGS_RUN_SCAN`].
    pub truncated: bool,
}

/// The rows that survive a filter, in order.
pub open spec fn surviving(rows: Seq<FindingRow>, filter: FindingFilter) -> Seq<FindingRow>
    decreases rows.len(),
{
    if rows.len() == 0 {
        Seq::empty()
    } else {
        let before = surviving(rows.drop_last(), filter);
        if filter.admits(rows.last()) {
            before.push(rows.last())
        } else {
            before
        }
    }
}

/// Whether a row has a category.
pub open spec fn has_category(rows: Seq<FindingRow>, category: Seq<char>) -> bool {
    exists|i: int| 0 <= i < rows.len() && (#[trigger] rows[i]).category@ == category
}

/// Whether these are the categories of rows: each once, in order, and no other.
pub open spec fn offers(categories: Seq<Seq<char>>, rows: Seq<FindingRow>) -> bool {
    &&& in_order(categories)
    &&& categories.no_duplicates()
    &&& forall|c: Seq<char>| categories.contains(c) == #[trigger] has_category(rows, c)
}

fn copy_row(row: &FindingRow) -> (r: FindingRow)
    ensures
        r == *row,
{
    FindingRow {
        id: row.id,
        run_id: row.run_id,
        repo_id: row.repo_id,
        repo: row.repo.clone(),
        severity: row.severity,
        category: row.category.clone(),
        state: row.state,
        title: row.title.clone(),
        file: row.file.clone(),
        fingerprint: row.fingerprint.clone(),
    }
}

fn row_categories(rows: &Vec<FindingRow>) -> (r: Vec<String>)
    ensures
        r@.len() == rows@.len(),
        forall|i: int| 0 <= i < r@.len() ==> (#[trigger] r@[i])@ == rows@[i].category@,
{
    let mut r: Vec<String> = Vec::new();
    let mut i: usize = 0;
    while i < rows.len()
        invariant
            i <= rows.len(),
            r@.len() == i,
            forall|j: int| 0 <= j < i ==> (#[trigger] r@[j])@ == rows@[j].category@,
        decreases rows.len() - i,
    {
        r.push(rows[i].category.clone());
        i += 1;
    }
    r
}

fn categories_of(rows: &Vec<FindingRow>) -> (r: Vec<String>)
    ensures
        offers(texts(r@), rows@),
{
    let raw = row_categories(rows);
    let ghost given = texts(raw@);
    let names = sort_texts(raw);
    let ghost sorted = texts(names@);
    let mut r: Vec<String> = Vec::new();
    let mut i: usize = 0;
    assert(texts(r@) =~= Seq::empty());
    while i < names.len()
        invariant
            i <= names.len(),
            sorted == texts(names@),
            in_order(sorted),
            in_order(texts(r@)),
            texts(r@).no_duplicates(),
            forall|t: Seq<char>| #[trigger] texts(r@).contains(t) == sorted.take(i as int).contains(t),
        decreases names.len() - i,
    {
        let ghost was = texts(r@);
        let ghost before = sorted.take(i as int);
        let ghost name = sorted[i as int];
        proof {
            assert(sorted.take(i + 1) =~= before.push(name));
            assert(name == names@[i as int]@);
        }
        let repeated = i > 0 && same(names[i - 1].as_str(), names[i].as_str());
        if repeated {
            proof {
                assert(sorted[i - 1] == names@[i - 1]@);
                assert(before[i - 1] == name);
                assert forall|t: Seq<char>| #[trigger]
                    texts(r@).contains(t) == sorted.take(i + 1).contains(t) by {
                    contains_of_push(before, name, t);
                }
            }
        } else {
            r.push(names[i].clone());
            proof {
                assert(texts(r@) =~= was.push(name));
                if was.contains(name) {
                    assert(before.contains(name));
                    let k = choose|k: int| 0 <= k < before.len() && before[k] == name;
                    assert(sorted[k] == name);
                    assert(sorted[i - 1] == names@[i - 1]@);
                    assert(text_le(sorted[k], sorted[i - 1]));
                    assert(text_le(sorted[i - 1], sorted[i as int]));
                    crate::text::text_le_antisymmetric(sorted[i - 1], name);
                }
                let all = texts(r@);
                assert forall|a: int, b: int| 0 <= a < all.len() && 0 <= b < all.len() && a != b implies all[a]
                    != all[b] by {
                    if a < was.len() && b < was.len() {
                        assert(was[a] != was[b]);
                    } else if a < was.len() {
                        assert(was.contains(was[a]));
                    } else {
                        assert(was.contains(was[b]));
                    }
                }
                assert forall|a: int, b: int| 0 <= a <= b < all.len() implies text_le(
                    #[trigger] all[a],
                    #[trigger] all[b],
                ) by {
                    if b < was.len() {
                        assert(text_le(was[a], was[b]));
                    } else if a < was.len() {
                        assert(was.contains(was[a]));
                        let k = choose|k: int| 0 <= k < before.len() && before[k] == was[a];
                        assert(text_le(sorted[k], sorted[i as int]));
                    } else {
                        crate::text::text_le_reflexive(name);
                    }
                }
                assert forall|t: Seq<char>| #[trigger]
                    texts(r@).contains(t) == sorted.take(i + 1).contains(t) by {
                    contains_of_push(before, name, t);
                    contains_of_push(was, name, t);
                }
            }
        }
        i += 1;
    }
    proof {
        assert(sorted.take(sorted.len() as int) =~= sorted);
        assert forall|c: Seq<char>| texts(r@).contains(c) == #[trigger] has_category(rows@, c) by {
            same_members(sorted, given, c);
            if given.contains(c) {
                let k = choose|k: int| 0 <= k < given.len() && given[k] == c;
                assert(rows@[k].category@ == c);
            }
            if has_category(rows@, c) {
                let k = choose|k: int| 0 <= k < rows@.len() && (#[trigger] rows@[k]).category@ == c;
                assert(given[k] == c);
            }
        }
    }
    r
}

/// Put the table together, given every row and how many runs were read for them.
pub fn gather(all: &Vec<FindingRow>, runs_read: usize, filter: &FindingFilter) -> (r: FindingsView)
    ensures
        r.rows@ == surviving(all@, *filter),
        offers(texts(r.categories@), all@),
        r.total_before_filter == all@.len(),
        r.truncated == (runs_read >= FINDINGS_RUN_SCAN),
{
    let mut rows: Vec<FindingRow> = Vec::new();
    let mut i: usize = 0;
    assert(all@.take(0) =~= Seq::empty());
    while i < all.len()
        invariant
            i <= all.len(),
            rows@ == surviving(all@.take(i as int), *filter),
        decreases all.len() - i,
    {
        assert(all@.take(i + 1).drop_last() =~= all@.take(i as int));
        if filter.matches(&all[i]) {
            rows.push(copy_row(&all[i]));
        }
        i += 1;
    }
    assert(all@.take(all@.len() as int) =~= all@);
    FindingsView {
        rows,
        categories: categories_of(all),
        total_before_filter: all.len(),
        truncated: runs_read >= FINDINGS_RUN_SCAN as usize,
    }
}

// --- what can be done with a finding ---

/// The result of writing an object whose members are texts.
pub uninterp spec fn json_texts_document(keys: Seq<Seq<char>>, values: Seq<Seq<char>>) -> Seq<char>;

/// `serde_json::Value::to_string` of the object that `serde_json::Map::from_iter` makes of keys
/// and texts. It is the same for the same keys and texts.
#[verifier::external_body]
fn texts_document(keys: Vec<String>, values: Vec<String>) -> (r: String)
    requires
        keys@.len() == values@.len(),
    ensures
        r@ == json_texts_document(texts(keys@), texts(values@)),
{
    let members = keys.into_iter().zip(values.into_iter().map(serde_json::Value::String));
    let object: serde_json::Map<String, serde_json::Value> = members.collect();
    serde_json::Value::Object(object).to_string()
}

/// What is sent when a finding is filed by hand.
pub open spec fn issue_payload(finding: Finding) -> Seq<char> {
    json_texts_document(
        seq!["title"@, "body"@, "rev-local-fingerprint"@],
        seq![finding.title@, finding.body@, finding.fingerprint@],
    )
}

/// A publish action that somebody asked for.
#[derive(Clone, Debug, PartialEq, Eq)]
pub struct ManualAction {
    /// The run it came of.
    pub run_id: i64,
    /// The finding it carries.
    pub finding_id: i64,
    /// Where it goes.
    pub target: String,
    /// What it does there.
    pub capability: Capability,
    /// How risky it is.
    pub risk: RiskClass,
    /// What makes it the same action when it is asked for again.
    pub idempotency_key: String,
    /// What is sent, verbatim.
    pub payload_json: String,
    /// The status it is stored with.
    pub status: PublishActionStatus,
    /// When it was asked for.
    pub created_at: Timestamp,
}

/// How an issue filed by hand starts out, under the global mode and that of its repository:
/// creating an issue is high risk, whoever asks for it, and the first one waits for approval.
/// Nothing where no action is made at all.
pub open spec fn manual_status(
    global: AutonomyMode,
    repo: AutonomyMode,
    previously_succeeded: bool,
) -> Option<PublishActionStatus> {
    gated(
        AutonomyMode::in_force(global, repo),
        RiskClass::High,
        previously_succeeded,
        Destination::External,
    ).first_status()
}

/// Plan to file a finding by hand, given the mode of its repository where there is one, and
/// whether an issue has been filed there before. It goes the way of an automatic action: the caller is told whether it is sent or waits, since "filed"
/// would not be true of one that waits.
pub fn file_to_andare(
    finding: &Finding,
    repo: Option<AutonomyMode>,
    global_mode: AutonomyMode,
    previously_succeeded: bool,
    at: Timestamp,
) -> (r: Result<ManualAction, FindingsError>)
    ensures
        match repo {
            None => r == Err::<ManualAction, _>(FindingsError::Orphaned { id: finding.id }),
            Some(mode) => match manual_status(global_mode, mode, previously_succeeded) {
                None => r == Err::<ManualAction, _>(FindingsError::Orphaned { id: finding.id }),
                Some(status) => {
                    &&& r is Ok
                    &&& r->Ok_0.run_id == finding.run_id
                    &&& r->Ok_0.finding_id == finding.id
                    &&& r->Ok_0.target@ == "andare"@
                    &&& r->Ok_0.capability == Capability::CreateIssue
                    &&& r->Ok_0.risk == RiskClass::High
                    &&& r->Ok_0.idempotency_key@ == "manual-andare-"@ + finding.fingerprint@
                    &&& r->Ok_0.payload_json@ == issue_payload(*finding)
                    &&& r->Ok_0.status == status
                    &&& r->Ok_0.created_at == at
                },
            },
        },
{
    let mode: AutonomyMode = match repo {
        Some(mode) => mode,
        None => {
            return Err(FindingsError::Orphaned { id: finding.id });
        },
    };
    let risk = RiskClass::High;
    let gated = gated_disposition(
        AutonomyMode::effective(global_mode, mode),
        risk,
        previously_succeeded,
        Destination::External,
    );
    let status: PublishActionStatus = match gated.initial_status() {
        Some(status) => status,
        None => {
            return Err(FindingsError::Orphaned { id: finding.id });
        },
    };
    let mut keys: Vec<String> = Vec::new();
    keys.push("title".to_owned());
    keys.push("body".to_owned());
    keys.push("rev-local-fingerprint".to_owned());
    let mut values: Vec<String> = Vec::new();
    values.push(finding.title.clone());
    values.push(finding.body.clone());
    values.push(finding.fingerprint.clone());
    assert(texts(keys@) =~= seq!["title"@, "body"@, "rev-local-fingerprint"@]);
    assert(texts(values@) =~= seq![finding.title@, finding.body@, finding.fingerprint@]);
    Ok(
        ManualAction {
            run_id: finding.run_id,
            finding_id: finding.id,
            target: "andare".to_owned(),
            capability: Capability::CreateIssue,
            risk,
            idempotency_key: cat2("manual-andare-", finding.fingerprint.as_str()),
            payload_json: texts_document(keys, values),
            status,
            created_at: at,
        },
    )
}

/// What suppressing a finding from the table stores: a suppression of its fingerprint in its own
/// repository, and its state. Never wider than its repository: narrowing wrongly costs a second
/// suppression, and widening wrongly silences a rule everywhere.
pub fn suppress(finding: &Finding, repo_id: i64) -> (r: (i64, Suppression, FindingState))
    ensures
        r.0 == repo_id,
        opt_text(r.1.fingerprint) == Some(finding.fingerprint@),
        r.1.glob is None,
        opt_text(r.1.reason) == Some("suppressed from the findings screen"@),
        r.2 == FindingState::Suppressed,
{
    (
        repo_id,
        Suppression {
            fingerprint: Some(finding.fingerprint.clone()),
            glob: None,
            reason: Some("suppressed from the findings screen".to_owned()),
        },
        FindingState::Suppressed,
    )
}

// --- what holds of filters and filing ---

/// A second filter never widens the result: what survives a filter with more set survives it with
/// less.
pub proof fn filters_narrow(filter: FindingFilter, row: FindingRow)
    requires
        filter.admits(row),
    ensures
        (FindingFilter { min_severity: None, ..filter }).admits(row),
        (FindingFilter { category: None, ..filter }).admits(row),
        (FindingFilter { state: None, ..filter }).admits(row),
        (FindingFilter { repo_id: None, ..filter }).admits(row),
{
}

/// What is shown and what is hidden are all there is: the filter drops only what it does not
/// admit, and keeps the order.
pub proof fn the_filter_hides_only_what_it_does_not_admit(rows: Seq<FindingRow>, filter: FindingFilter, i: int)
    requires
        0 <= i < rows.len(),
    ensures
        filter.admits(rows[i]) ==> surviving(rows, filter).contains(rows[i]),
        surviving(rows, filter).len() <= rows.len(),
    decreases rows.len(),
{
    let before = surviving(rows.drop_last(), filter);
    if i < rows.len() - 1 {
        the_filter_hides_only_what_it_does_not_admit(rows.drop_last(), filter, i);
        assert(rows.drop_last()[i] == rows[i]);
        if filter.admits(rows[i]) {
            let k = choose|k: int| 0 <= k < before.len() && before[k] == rows[i];
            if filter.admits(rows.last()) {
                assert(before.push(rows.last())[k] == rows[i]);
            }
        }
    } else {
        if rows.len() > 1 {
            the_filter_hides_only_what_it_does_not_admit(rows.drop_last(), filter, 0);
        } else {
            assert(rows.drop_last() =~= Seq::empty());
            assert(before.len() == 0);
        }
        if filter.admits(rows.last()) {
            assert(before.push(rows.last())[before.len() as int] == rows[i]);
        }
    }
}

/// Filing by hand respects the ceiling: it is sent at once only where both modes let a high-risk
/// action go without asking and it is not the first, and under the default mode it waits for a
/// person.
pub proof fn a_manual_file_respects_the_ceiling(
    global: AutonomyMode,
    repo: AutonomyMode,
    previously_succeeded: bool,
)
    ensures
        manual_status(global, repo, previously_succeeded) == Some(PublishActionStatus::Pending) <==> global
            == AutonomyMode::Auto && repo == AutonomyMode::Auto && previously_succeeded,
        manual_status(AutonomyMode::AutoLowAskHigh, AutonomyMode::AutoLowAskHigh, previously_succeeded) == Some(
            PublishActionStatus::AwaitingApproval,
        ),
{
}

/// A row shows its finding: where it comes from, how bad it is, what it says and what became of it.
pub proof fn a_row_shows_its_finding(row: FindingRow, finding: Finding, run_id: i64, repo_id: i64, repo: Seq<char>)
    requires
        row.shows(finding, run_id, repo_id, repo),
    ensures
        row.id == finding.id,
        row.run_id == run_id,
        row.repo_id == repo_id,
        row.repo@ == repo,
        row.severity == finding.severity,
        row.category@ == finding.category.word(),
        row.state == finding.state,
        row.title@ == finding.title@,
        opt_text(row.file) == opt_text(finding.file),
        row.fingerprint@ == finding.fingerprint@,
{
}

/// What a filter lets through: a finding at least as bad as asked for, of the category, in the state
/// and of the repository that are asked for; anything where nothing is asked for.
pub proof fn what_a_filter_lets_through(filter: FindingFilter, row: FindingRow)
    ensures
        filter.admits(row) == ((match filter.min_severity {
            None => true,
            Some(Severity::Info) => true,
            Some(Severity::Low) => row.severity != Severity::Info,
            Some(Severity::Medium) => row.severity == Severity::Medium || row.severity == Severity::High
                || row.severity == Severity::Critical,
            Some(Severity::High) => row.severity == Severity::High || row.severity == Severity::Critical,
            Some(Severity::Critical) => row.severity == Severity::Critical,
        }) && (filter.category is Some ==> row.category@ == filter.category->0@) && (filter.state is Some
            ==> row.state == filter.state->0) && (filter.repo_id is Some ==> row.repo_id == filter.repo_id->0)),
{
}

/// What is shown is what the filter lets through, all of it and nothing else.
pub proof fn what_is_let_through_is_shown(rows: Seq<FindingRow>, filter: FindingFilter, row: FindingRow)
    ensures
        surviving(rows, filter).contains(row) == (rows.contains(row) && filter.admits(row)),
        surviving(rows, filter).len() <= rows.len(),
    decreases rows.len(),
{
    if rows.len() > 0 {
        let before = rows.drop_last();
        what_is_let_through_is_shown(before, filter, row);
        push_contains(before, rows.last(), row);
        push_contains(surviving(before, filter), rows.last(), row);
        assert(before.push(rows.last()) =~= rows);
    }
}

/// A repository is called by its name, and by its number where it has none.
pub proof fn a_repository_is_called_by_its_name(repos: Seq<(i64, String)>, repo_id: i64, i: int)
    ensures
        0 <= i < repos.len() && repos[i].0 == repo_id && (forall|j: int| 0 <= j < i ==> (#[trigger] repos[j]).0 != repo_id)
            ==> repo_name(repos, repo_id) == repos[i].1@,
        (forall|j: int| 0 <= j < repos.len() ==> (#[trigger] repos[j]).0 != repo_id) ==> repo_name(repos, repo_id)
            == "repo "@ + decimal_int(repo_id as int),
{
    let p = numbered(repo_id);
    if 0 <= i < repos.len() && repos[i].0 == repo_id && (forall|j: int|
        0 <= j < i ==> (#[trigger] repos[j]).0 != repo_id) {
        assert forall|j: int| 0 <= j < i implies !p(#[trigger] repos[j]) by {}
        first_index_is(repos, p, i);
    }
    if forall|j: int| 0 <= j < repos.len() ==> (#[trigger] repos[j]).0 != repo_id {
        assert forall|j: int| 0 <= j < repos.len() implies !p(#[trigger] repos[j]) by {}
        first_index_none(repos, p);
    }
}

/// What a filter offers are the categories that there are, each once and in order.
pub proof fn every_category_there_is_is_offered(categories: Seq<Seq<char>>, rows: Seq<FindingRow>, i: int, j: int)
    requires
        offers(categories, rows),
    ensures
        0 <= i < rows.len() ==> categories.contains(rows[i].category@),
        0 <= i < categories.len() ==> exists|k: int|
            0 <= k < rows.len() && (#[trigger] rows[k]).category@ == categories[i],
        0 <= i < j < categories.len() ==> text_le(categories[i], categories[j]) && categories[i] != categories[j],
{
    if 0 <= i < rows.len() {
        assert(has_category(rows, rows[i].category@));
    }
    if 0 <= i < categories.len() {
        assert(categories.contains(categories[i]));
        assert(has_category(rows, categories[i]));
    }
}

/// What is filed of a finding is its title, its body and what it is recognised by, under their names.
pub proof fn what_is_filed_of_a_finding(finding: Finding)
    ensures
        issue_payload(finding) == json_texts_document(
            seq!["title"@, "body"@, "rev-local-fingerprint"@],
            seq![finding.title@, finding.body@, finding.fingerprint@],
        ),
{
}

} // verus!
