//! Finding normalization, suppression and dedupe.
//!
//! Everything an engine reported passes through here on its way to a publish plan. Severity
//! is clamped, findings outside the diff are capped, suppressions are applied, and
//! fingerprints decide what is a repeat.
//!
//! # Nothing is discarded, only labelled
//!
//! A suppressed finding and a repeated one keep their row and carry their state; the publish
//! plan filters on it. A finding that was dropped could not answer why it was not mentioned.

use vstd::prelude::*;

use crate::clock::Timestamp;
use crate::globs::{is_match_alone, matches_alone};
use crate::model::{Category, Depth, Finding, FindingState, Severity};
use crate::text::{
    cat2, cat3, cat4, contains, first_index, first_index_is, first_index_none, has_text, join, joined,
    opt_text, push_contains, same, stands_at, stands_inside, texts, within,
};

verus! {

/// The severity an unparseable one becomes: an engine that could not spell its severity gives
/// no evidence that the finding is unimportant.
pub const UNKNOWN_SEVERITY: Severity = Severity::Medium;

/// The ceiling an out-of-diff finding is capped at.
pub const OUT_OF_DIFF_CEILING: Severity = Severity::Medium;

/// The bits of a confidence of one: what a finding has when the engine gave none.
pub const FULL_CONFIDENCE_BITS: u64 = 0x3ff0_0000_0000_0000;

/// A string as its `Debug` form writes it: in quotes, with what needs escaping escaped.
pub uninterp spec fn debug_text(s: Seq<char>) -> Seq<char>;

/// The text of a string member of a JSON document, when it is an object that has one.
pub uninterp spec fn json_string_member(document: Seq<char>, key: Seq<char>) -> Option<Seq<char>>;

/// A JSON document with a string member set, when it is an object.
pub uninterp spec fn json_with_string(document: Seq<char>, key: Seq<char>, value: Seq<char>) -> Option<
    Seq<char>,
>;

/// `<str as Debug>::fmt`, through `format!`: the quoted, escaped form of a string, which
/// depends on the string alone.
#[verifier::external_body]
fn quoted(s: &str) -> (r: String)
    ensures
        r@ == debug_text(s@),
{
    format!("{s:?}")
}

/// `serde_json::from_str`, `Value::get` and `Value::as_str`: the text of a member of a JSON
/// object. Nothing where the document is no object, has no such member, or where the member
/// is no string.
#[verifier::external_body]
fn string_member(document: &str, key: &str) -> (r: Option<String>)
    ensures
        opt_text(r) == json_string_member(document@, key@),
{
    let value: serde_json::Value = serde_json::from_str(document).ok()?;
    value.get(key)?.as_str().map(|s| s.to_owned())
}

/// `serde_json::Map::insert` on a parsed object, and `Value::to_string` of the result: the
/// document with one member replaced, which reads back as what was put there. Nothing where the
/// document is no object.
#[verifier::external_body]
fn with_string(document: &str, key: &str, value: &str) -> (r: Option<String>)
    ensures
        opt_text(r) == json_with_string(document@, key@, value@),
        r matches Some(text) ==> json_string_member(text@, key@) == Some(value@),
{
    let mut object: serde_json::Map<String, serde_json::Value> = serde_json::from_str(document).ok()?;
    object.insert(key.to_owned(), serde_json::Value::String(value.to_owned()));
    Some(serde_json::Value::Object(object).to_string())
}

/// Whether a depth permits out-of-diff findings at full severity. A deep review is asked to
/// look beyond the diff, so what it sees there is what it was sent to find.
pub fn allow_out_of_diff_findings(depth: Depth) -> (r: bool)
    ensures
        r == (depth == Depth::Deep),
{
    matches!(depth, Depth::Deep)
}

/// Why a finding is not going to be published as reported.
#[derive(Clone, Debug, PartialEq, Eq)]
pub enum NormalizationNote {
    /// The engine's severity did not parse and became [`UNKNOWN_SEVERITY`].
    SeveritySalvaged {
        /// What the engine wrote.
        reported: String,
    },
    /// The finding names a file the change does not touch.
    OutOfDiff {
        /// The file as reported.
        file: String,
        /// Whether the severity was capped as a result.
        capped: bool,
    },
    /// An active suppression matched.
    Suppressed {
        /// What matched: a fingerprint or a glob.
        matched: String,
        /// The reason the user gave, if any.
        reason: Option<String>,
    },
    /// The same fingerprint is already published on this change.
    Superseded {
        /// The fingerprint that was already filed.
        fingerprint: String,
    },
}

/// What a note says.
pub enum Note {
    /// The severity was not understood.
    SeveritySalvaged { reported: Seq<char> },
    /// The file is not in the change.
    OutOfDiff { file: Seq<char>, capped: bool },
    /// A suppression matched.
    Suppressed { matched: Seq<char>, reason: Option<Seq<char>> },
    /// The finding is a repeat.
    Superseded { fingerprint: Seq<char> },
}

impl View for NormalizationNote {
    type V = Note;

    open spec fn view(&self) -> Note {
        match *self {
            NormalizationNote::SeveritySalvaged { reported } => Note::SeveritySalvaged {
                reported: reported@,
            },
            NormalizationNote::OutOfDiff { file, capped } => Note::OutOfDiff { file: file@, capped },
            NormalizationNote::Suppressed { matched, reason } => Note::Suppressed {
                matched: matched@,
                reason: opt_text(reason),
            },
            NormalizationNote::Superseded { fingerprint } => Note::Superseded {
                fingerprint: fingerprint@,
            },
        }
    }
}

impl Note {
    /// A line for the run record and the UI.
    pub open spec fn description(self) -> Seq<char> {
        match self {
            Note::SeveritySalvaged { reported } => "severity "@ + debug_text(reported)
                + " is not a known level; treated as medium"@,
            Note::OutOfDiff { file, capped } => if capped {
                "`"@ + file + "` is not in this change; severity capped at medium"@
            } else {
                "`"@ + file + "` is not in this change"@
            },
            Note::Suppressed { matched, reason } => match reason {
                Some(why) => "suppressed by "@ + matched + " ("@ + why + ")"@,
                None => "suppressed by "@ + matched,
            },
            Note::Superseded { fingerprint } => "already published on this change as "@ + fingerprint,
        }
    }
}

/// What each note of a list says.
pub open spec fn notes_of(v: Seq<NormalizationNote>) -> Seq<Note> {
    v.map_values(|n: NormalizationNote| n@)
}

impl NormalizationNote {
    /// A line for the run record and the UI.
    pub fn describe(&self) -> (r: String)
        ensures
            r@ == self@.description(),
    {
        match self {
            Self::SeveritySalvaged { reported } => cat3(
                "severity ",
                quoted(reported.as_str()).as_str(),
                " is not a known level; treated as medium",
            ),
            Self::OutOfDiff { file, capped } => {
                if *capped {
                    cat3("`", file.as_str(), "` is not in this change; severity capped at medium")
                } else {
                    cat3("`", file.as_str(), "` is not in this change")
                }
            },
            Self::Suppressed { matched, reason } => match reason {
                Some(why) => {
                    let mut s = cat4("suppressed by ", matched.as_str(), " (", why.as_str());
                    s.append(")");
                    s
                },
                None => cat2("suppressed by ", matched.as_str()),
            },
            Self::Superseded { fingerprint } => cat2(
                "already published on this change as ",
                fingerprint.as_str(),
            ),
        }
    }
}

/// A finding as an engine reported it, with the fingerprint that it has in its repository.
#[derive(Clone, Debug, PartialEq, Eq)]
pub struct RawFinding {
    /// How bad it is.
    pub severity: Severity,
    /// What kind of problem.
    pub category: Category,
    /// The bits of the engine's confidence, as a double, when it gave one.
    pub confidence_bits: Option<u64>,
    /// The file it names, when it names one.
    pub file: Option<String>,
    /// The first line it names.
    pub line_start: Option<u32>,
    /// The last line it names.
    pub line_end: Option<u32>,
    /// The claim.
    pub title: String,
    /// What is behind it.
    pub body: String,
    /// How it goes wrong.
    pub failure_scenario: Option<String>,
    /// What would mend it.
    pub suggested_fix: Option<String>,
    /// What makes it the same finding in another run.
    pub fingerprint: String,
}

/// A finding that the result schema rejected.
#[derive(Clone, Debug, PartialEq, Eq)]
pub struct DroppedFinding {
    /// Where it stood in the engine's list.
    pub index: usize,
    /// Everything that was wrong with it.
    pub violations: Vec<String>,
    /// The finding as reported, a JSON document.
    pub raw: String,
    /// What [`DroppedFinding::repaired_document`] reads as, when there is one and it reads as
    /// a finding.
    pub repaired: Option<RawFinding>,
}

impl DroppedFinding {
    /// What the engine wrote for a severity, when that is all that is wrong.
    pub open spec fn misspelt_severity(self) -> Option<Seq<char>> {
        if self.violations@.len() == 1 && within(self.violations@[0]@, "severity"@) {
            json_string_member(self.raw@, "severity"@)
        } else {
            None
        }
    }

    fn bad_severity(&self) -> (r: Option<String>)
        ensures
            opt_text(r) == self.misspelt_severity(),
    {
        if self.violations.len() == 1 && contains(self.violations[0].as_str(), "severity") {
            string_member(self.raw.as_str(), "severity")
        } else {
            None
        }
    }

    /// The finding with its severity replaced by [`UNKNOWN_SEVERITY`], when a misspelt
    /// severity is all that is wrong with it.
    pub fn repaired_document(&self) -> (r: Option<String>)
        ensures
            opt_text(r) == match self.misspelt_severity() {
                Some(_) => json_with_string(self.raw@, "severity"@, UNKNOWN_SEVERITY.word()),
                None => None,
            },
            r matches Some(text) ==> json_string_member(text@, "severity"@) == Some(
                UNKNOWN_SEVERITY.word(),
            ),
    {
        match self.bad_severity() {
            Some(_) => with_string(self.raw.as_str(), "severity", UNKNOWN_SEVERITY.as_str()),
            None => None,
        }
    }
}

/// A person's wish not to hear of something again.
#[derive(Clone, Debug, PartialEq, Eq)]
pub struct Suppression {
    /// One finding, by its fingerprint.
    pub fingerprint: Option<String>,
    /// Every finding on the files that a glob matches.
    pub glob: Option<String>,
    /// Why.
    pub reason: Option<String>,
}

/// What of a suppression matches a finding, if anything does. One that names neither a
/// fingerprint nor a glob matches nothing, and neither does a glob that does not compile.
pub open spec fn suppression_hit(s: Suppression, print: Seq<char>, file: Option<Seq<char>>) -> Option<
    Seq<char>,
> {
    if s.fingerprint is Some && s.fingerprint->0@ == print {
        Some("fingerprint "@ + print)
    } else if s.glob is Some && file is Some && matches_alone(s.glob->0@, file->0) {
        Some("glob "@ + s.glob->0@)
    } else {
        None
    }
}

/// Whether a suppression matches a finding.
fn suppression_match(suppression: &Suppression, print: &str, file: &Option<String>) -> (r: Option<String>)
    ensures
        opt_text(r) == suppression_hit(*suppression, print@, opt_text(*file)),
{
    if let Some(wanted) = &suppression.fingerprint {
        if same(wanted.as_str(), print) {
            return Some(cat2("fingerprint ", print));
        }
    }
    if let Some(glob) = &suppression.glob {
        if let Some(path) = file {
            if is_match_alone(glob.as_str(), path.as_str()) {
                return Some(cat2("glob ", glob.as_str()));
            }
        }
    }
    None
}

/// One finding, normalized, with everything that happened to it.
#[derive(Clone, Debug, PartialEq, Eq)]
pub struct NormalizedFinding {
    /// The finding as it will be stored.
    pub finding: Finding,
    /// Whether it names a file outside the change.
    pub out_of_diff: bool,
    /// What normalization did, in order.
    pub notes: Vec<NormalizationNote>,
}

impl NormalizedFinding {
    /// Whether this finding belongs in the publish plan.
    pub open spec fn goes_out(self) -> bool {
        self.finding.state == FindingState::Open
    }

    /// Every note, in one line.
    pub open spec fn explanation(self) -> Seq<char> {
        joined(notes_of(self.notes@).map_values(|n: Note| n.description()), "; "@)
    }

    /// Whether this finding belongs in the publish plan: the one place where the question is
    /// answered.
    pub fn is_publishable(&self) -> (r: bool)
        ensures
            r == self.goes_out(),
    {
        matches!(self.finding.state, FindingState::Open)
    }

    /// Every note, in one line.
    pub fn reason(&self) -> (r: String)
        ensures
            r@ == self.explanation(),
    {
        let mut lines: Vec<String> = Vec::new();
        let mut i: usize = 0;
        while i < self.notes.len()
            invariant
                i <= self.notes.len(),
                lines.len() == i,
                forall|j: int| 0 <= j < i ==> (#[trigger] lines@[j])@ == self.notes@[j]@.description(),
            decreases self.notes.len() - i,
        {
            lines.push(self.notes[i].describe());
            i += 1;
        }
        assert(texts(lines@) =~= notes_of(self.notes@).map_values(|n: Note| n.description()));
        join(&lines, "; ")
    }
}

/// Everything normalization produced.
#[derive(Clone, Debug, PartialEq, Eq)]
pub struct Normalized {
    /// Every finding, publishable or not, in the order the engine reported them.
    pub findings: Vec<NormalizedFinding>,
    /// Findings that stayed dropped: their schema violations were not just severity.
    pub still_dropped: Vec<DroppedFinding>,
}

/// The findings of a list that go out, or those that do not, in order.
pub open spec fn going(findings: Seq<NormalizedFinding>, out: bool) -> Seq<NormalizedFinding>
    decreases findings.len(),
{
    if findings.len() == 0 {
        Seq::empty()
    } else if findings.last().goes_out() == out {
        going(findings.drop_last(), out).push(findings.last())
    } else {
        going(findings.drop_last(), out)
    }
}

impl Normalized {
    /// The findings that reach the publish plan.
    pub fn publishable(&self) -> (r: Vec<&NormalizedFinding>)
        ensures
            r@.map_values(|f: &NormalizedFinding| *f) == going(self.findings@, true),
    {
        let mut r: Vec<&NormalizedFinding> = Vec::new();
        let mut i: usize = 0;
        proof {
            assert(self.findings@.take(0) =~= Seq::empty());
            assert(r@.map_values(|f: &NormalizedFinding| *f) =~= Seq::empty());
        }
        while i < self.findings.len()
            invariant
                i <= self.findings.len(),
                r@.map_values(|f: &NormalizedFinding| *f) == going(self.findings@.take(i as int), true),
            decreases self.findings.len() - i,
        {
            let ghost before = r@;
            assert(self.findings@.take(i + 1).drop_last() =~= self.findings@.take(i as int));
            if self.findings[i].is_publishable() {
                r.push(&self.findings[i]);
                assert(r@.map_values(|f: &NormalizedFinding| *f) =~= before.map_values(
                    |f: &NormalizedFinding| *f,
                ).push(self.findings@[i as int]));
            }
            i += 1;
        }
        assert(self.findings@.take(self.findings@.len() as int) =~= self.findings@);
        r
    }

    /// Findings held back, with the reason for each.
    pub fn withheld(&self) -> (r: Vec<(&NormalizedFinding, String)>)
        ensures
            r@.map_values(|p: (&NormalizedFinding, String)| *p.0) == going(self.findings@, false),
            forall|i: int| 0 <= i < r@.len() ==> (#[trigger] r@[i]).1@ == r@[i].0.explanation(),
    {
        let mut r: Vec<(&NormalizedFinding, String)> = Vec::new();
        let mut i: usize = 0;
        let ghost first = |p: (&NormalizedFinding, String)| *p.0;
        proof {
            assert(self.findings@.take(0) =~= Seq::empty());
            assert(r@.map_values(first) =~= Seq::empty());
        }
        while i < self.findings.len()
            invariant
                i <= self.findings.len(),
                first == (|p: (&NormalizedFinding, String)| *p.0),
                r@.map_values(first) == going(self.findings@.take(i as int), false),
                forall|k: int| 0 <= k < r@.len() ==> (#[trigger] r@[k]).1@ == r@[k].0.explanation(),
            decreases self.findings.len() - i,
        {
            let ghost before = r@;
            assert(self.findings@.take(i + 1).drop_last() =~= self.findings@.take(i as int));
            if !self.findings[i].is_publishable() {
                let reason = self.findings[i].reason();
                r.push((&self.findings[i], reason));
                assert(r@.map_values(first) =~= before.map_values(first).push(self.findings@[i as int]));
            }
            i += 1;
        }
        assert(self.findings@.take(self.findings@.len() as int) =~= self.findings@);
        r
    }
}

/// What normalization needs to know about the change being reviewed.
pub struct NormalizeContext<'a> {
    /// The run these findings came from.
    pub run_id: i64,
    /// Paths the change touches. A finding outside this set is out-of-diff.
    pub changed_paths: &'a Vec<String>,
    /// The depth this run was reviewed at.
    pub depth: Depth,
    /// Active suppressions for this repo.
    pub suppressions: &'a Vec<Suppression>,
    /// Fingerprints already published on this change.
    pub published_fingerprints: &'a Vec<String>,
    /// When the run finished.
    pub now: Timestamp,
}

// --- what becomes of one finding ---

/// Whether a finding names a file outside the change. One that names no file is about the
/// whole repository, not about another place in it.
pub open spec fn outside(raw: RawFinding, context: NormalizeContext) -> bool {
    raw.file is Some && !texts(context.changed_paths@).contains(raw.file->0@)
}

/// Whether its severity is capped for that.
pub open spec fn capped(raw: RawFinding, context: NormalizeContext) -> bool {
    outside(raw, context) && context.depth != Depth::Deep && raw.severity.level()
        > OUT_OF_DIFF_CEILING.level()
}

/// The severity a finding is stored with.
pub open spec fn settled_severity(raw: RawFinding, context: NormalizeContext) -> Severity {
    if capped(raw, context) {
        OUT_OF_DIFF_CEILING
    } else {
        raw.severity
    }
}

/// Where the first suppression that matches a finding stands.
pub open spec fn suppressed_by(raw: RawFinding, context: NormalizeContext) -> Option<int> {
    first_index(
        context.suppressions@,
        |s: Suppression| suppression_hit(s, raw.fingerprint@, opt_text(raw.file)) is Some,
    )
}

/// The state a finding is stored in, once those with the fingerprints in `seen` have gone out
/// in the same run. Suppression comes first: a person who asked never to hear of something
/// should see that it is suppressed, not that it was already said.
pub open spec fn settled_state(raw: RawFinding, context: NormalizeContext, seen: Seq<Seq<char>>) -> FindingState {
    if suppressed_by(raw, context) is Some {
        FindingState::Suppressed
    } else if texts(context.published_fingerprints@).contains(raw.fingerprint@) || seen.contains(
        raw.fingerprint@,
    ) {
        FindingState::Superseded
    } else {
        FindingState::Open
    }
}

/// What is noted about a finding, in order.
pub open spec fn settled_notes(
    raw: RawFinding,
    reported: Option<Seq<char>>,
    context: NormalizeContext,
    seen: Seq<Seq<char>>,
) -> Seq<Note> {
    let salvaged: Seq<Note> = match reported {
        Some(word) => seq![Note::SeveritySalvaged { reported: word }],
        None => seq![],
    };
    let elsewhere: Seq<Note> = if outside(raw, context) {
        seq![Note::OutOfDiff { file: raw.file->0@, capped: capped(raw, context) }]
    } else {
        seq![]
    };
    let held: Seq<Note> = match settled_state(raw, context, seen) {
        FindingState::Suppressed => {
            let s = context.suppressions@[suppressed_by(raw, context)->0];
            seq![
                Note::Suppressed {
                    matched: suppression_hit(s, raw.fingerprint@, opt_text(raw.file))->0,
                    reason: opt_text(s.reason),
                },
            ]
        },
        FindingState::Superseded => seq![Note::Superseded { fingerprint: raw.fingerprint@ }],
        _ => seq![],
    };
    salvaged + elsewhere + held
}

/// Whether a normalized finding is what becomes of a reported one.
pub open spec fn normal(
    r: NormalizedFinding,
    raw: RawFinding,
    reported: Option<Seq<char>>,
    context: NormalizeContext,
    seen: Seq<Seq<char>>,
) -> bool {
    &&& r.finding.id == 0
    &&& r.finding.run_id == context.run_id
    &&& r.finding.fingerprint == raw.fingerprint
    &&& r.finding.severity == settled_severity(raw, context)
    &&& r.finding.category == raw.category
    &&& r.finding.confidence_bits == match raw.confidence_bits {
        Some(bits) => bits,
        None => FULL_CONFIDENCE_BITS,
    }
    &&& r.finding.file == raw.file
    &&& r.finding.line_start == raw.line_start
    &&& r.finding.line_end == raw.line_end
    &&& r.finding.title == raw.title
    &&& r.finding.body == raw.body
    &&& r.finding.failure_scenario == raw.failure_scenario
    &&& r.finding.suggested_fix == raw.suggested_fix
    &&& r.finding.state == settled_state(raw, context, seen)
    &&& r.finding.created_at == context.now
    &&& r.out_of_diff == outside(raw, context)
    &&& notes_of(r.notes@) == settled_notes(raw, reported, context, seen)
}

/// Normalize one finding.
fn normalize_one(raw: &RawFinding, reported: Option<String>, context: &NormalizeContext, seen: &Vec<String>) -> (r:
    NormalizedFinding)
    ensures
        normal(r, *raw, opt_text(reported), *context, texts(seen@)),
{
    let ghost was = opt_text(reported);
    let mut notes: Vec<NormalizationNote> = Vec::new();
    let mut severity = raw.severity;
    if let Some(word) = reported {
        notes.push(NormalizationNote::SeveritySalvaged { reported: word });
    }
    let ghost salvaged = notes_of(notes@);

    // --- out of diff ---
    let out_of_diff = match &raw.file {
        Some(file) => !has_text(context.changed_paths, file.as_str()),
        None => false,
    };
    if let Some(file) = &raw.file {
        if out_of_diff {
            let cap = !allow_out_of_diff_findings(context.depth) && severity.rank()
                > OUT_OF_DIFF_CEILING.rank();
            if cap {
                severity = OUT_OF_DIFF_CEILING;
            }
            notes.push(NormalizationNote::OutOfDiff { file: file.clone(), capped: cap });
        }
    }
    let ghost elsewhere: Seq<Note> = if outside(*raw, *context) {
        seq![Note::OutOfDiff { file: raw.file->0@, capped: capped(*raw, *context) }]
    } else {
        seq![]
    };
    assert(notes_of(notes@) =~= salvaged + elsewhere);

    // --- state ---
    let ghost hits = |s: Suppression|
        suppression_hit(s, raw.fingerprint@, opt_text(raw.file)) is Some;
    let mut matched: Option<(usize, String)> = None;
    let mut i: usize = 0;
    while i < context.suppressions.len() && matched.is_none()
        invariant
            i <= context.suppressions.len(),
            hits == (|s: Suppression|
                suppression_hit(s, raw.fingerprint@, opt_text(raw.file)) is Some),
            match matched {
                Some(m) => {
                    &&& m.0 < context.suppressions.len()
                    &&& hits(context.suppressions@[m.0 as int])
                    &&& Some(m.1@) == suppression_hit(
                        context.suppressions@[m.0 as int],
                        raw.fingerprint@,
                        opt_text(raw.file),
                    )
                    &&& forall|j: int| 0 <= j < m.0 ==> !hits(#[trigger] context.suppressions@[j])
                },
                None => forall|j: int| 0 <= j < i ==> !hits(#[trigger] context.suppressions@[j]),
            },
        decreases context.suppressions.len() - i,
    {
        if let Some(words) = suppression_match(
            &context.suppressions[i],
            raw.fingerprint.as_str(),
            &raw.file,
        ) {
            matched = Some((i, words));
        }
        i += 1;
    }
    proof {
        if matched is Some {
            first_index_is(context.suppressions@, hits, (matched->Some_0).0 as int);
        } else {
            first_index_none(context.suppressions@, hits);
        }
        assert(suppressed_by(*raw, *context) == first_index(context.suppressions@, hits));
    }
    let ghost before = notes_of(notes@);
    let state = match matched {
        Some((k, words)) => {
            notes.push(
                NormalizationNote::Suppressed {
                    matched: words,
                    reason: context.suppressions[k].reason.clone(),
                },
            );
            FindingState::Suppressed
        },
        None => {
            if has_text(context.published_fingerprints, raw.fingerprint.as_str()) || has_text(
                seen,
                raw.fingerprint.as_str(),
            ) {
                notes.push(
                    NormalizationNote::Superseded { fingerprint: raw.fingerprint.clone() },
                );
                FindingState::Superseded
            } else {
                FindingState::Open
            }
        },
    };
    assert(notes_of(notes@) =~= settled_notes(*raw, was, *context, texts(seen@)));

    NormalizedFinding {
        finding: Finding {
            id: 0,
            run_id: context.run_id,
            fingerprint: raw.fingerprint.clone(),
            severity,
            category: raw.category,
            confidence_bits: match raw.confidence_bits {
                Some(bits) => bits,
                None => FULL_CONFIDENCE_BITS,
            },
            file: raw.file.clone(),
            line_start: raw.line_start,
            line_end: raw.line_end,
            title: raw.title.clone(),
            body: raw.body.clone(),
            failure_scenario: raw.failure_scenario.clone(),
            suggested_fix: raw.suggested_fix.clone(),
            state,
            created_at: context.now,
        },
        out_of_diff,
        notes,
    }
}

// --- all of them ---

/// Whether a dropped finding can be taken up again: a misspelt severity is all that is wrong
/// with it, and with that mended it reads as a finding.
pub open spec fn salvageable(drop: DroppedFinding) -> bool {
    drop.misspelt_severity() is Some && drop.repaired is Some
}

/// The dropped findings that are taken up again, each with what the engine wrote.
pub open spec fn salvaged(dropped: Seq<DroppedFinding>) -> Seq<(RawFinding, Option<Seq<char>>)>
    decreases dropped.len(),
{
    if dropped.len() == 0 {
        Seq::empty()
    } else if salvageable(dropped.last()) {
        salvaged(dropped.drop_last()).push(
            (dropped.last().repaired->0, dropped.last().misspelt_severity()),
        )
    } else {
        salvaged(dropped.drop_last())
    }
}

/// The dropped findings that stay dropped.
pub open spec fn unsalvaged(dropped: Seq<DroppedFinding>) -> Seq<DroppedFinding>
    decreases dropped.len(),
{
    if dropped.len() == 0 {
        Seq::empty()
    } else if salvageable(dropped.last()) {
        unsalvaged(dropped.drop_last())
    } else {
        unsalvaged(dropped.drop_last()).push(dropped.last())
    }
}

/// Everything that is normalized: what was reported, and what was taken up again.
pub open spec fn items(findings: Seq<RawFinding>, dropped: Seq<DroppedFinding>) -> Seq<
    (RawFinding, Option<Seq<char>>),
> {
    findings.map_values(|f: RawFinding| (f, None::<Seq<char>>)) + salvaged(dropped)
}

/// The fingerprints that have gone out in this run once the first `n` items are done.
pub open spec fn gone_out(
    all: Seq<(RawFinding, Option<Seq<char>>)>,
    context: NormalizeContext,
    n: int,
) -> Seq<Seq<char>>
    decreases n,
{
    if n <= 0 {
        Seq::empty()
    } else {
        let seen = gone_out(all, context, n - 1);
        if settled_state(all[n - 1].0, context, seen) == FindingState::Open {
            seen.push(all[n - 1].0.fingerprint@)
        } else {
            seen
        }
    }
}

spec fn salvage_views(v: Seq<(RawFinding, String)>) -> Seq<(RawFinding, Option<Seq<char>>)> {
    v.map_values(|p: (RawFinding, String)| (p.0, Some(p.1@)))
}

/// Recover findings the schema dropped only because of their severity.
fn salvage_severities(dropped: Vec<DroppedFinding>) -> (r: (Vec<(RawFinding, String)>, Vec<DroppedFinding>))
    ensures
        salvage_views(r.0@) == salvaged(dropped@),
        r.1@ == unsalvaged(dropped@),
{
    let mut rest = dropped;
    let mut taken: Vec<(RawFinding, String)> = Vec::new();
    let mut still: Vec<DroppedFinding> = Vec::new();
    let ghost all = dropped@;
    let ghost mut done: int = 0;
    proof {
        assert(all.take(0) =~= Seq::empty());
        assert(all.skip(0) =~= all);
        assert(salvage_views(taken@) =~= Seq::empty());
    }
    while !rest.is_empty()
        invariant
            0 <= done <= all.len(),
            rest@ == all.skip(done),
            salvage_views(taken@) == salvaged(all.take(done)),
            still@ == unsalvaged(all.take(done)),
        decreases rest.len(),
    {
        let ghost taken_before = taken@;
        let drop = rest.remove(0);
        proof {
            assert(drop == all[done]);
            assert(rest@ =~= all.skip(done + 1));
            assert(all.take(done + 1).drop_last() =~= all.take(done));
        }
        let reported = drop.bad_severity();
        let readable = drop.repaired.is_some();
        match reported {
            Some(word) => {
                if readable {
                    if let Some(raw) = drop.repaired {
                        taken.push((raw, word));
                        assert(salvage_views(taken@) =~= salvage_views(taken_before).push(
                            (raw, Some(word@)),
                        ));
                    }
                } else {
                    still.push(drop);
                }
            },
            None => {
                still.push(drop);
            },
        }
        proof {
            done = done + 1;
        }
    }
    assert(all.take(done) =~= all);
    (taken, still)
}

/// Whether this is what normalizing comes to: each finding that was understood or salvaged, in
/// order, and what could not be salvaged.
pub open spec fn is_normalized(
    r: Normalized,
    findings: Seq<RawFinding>,
    dropped: Seq<DroppedFinding>,
    context: NormalizeContext,
) -> bool {
    let all = items(findings, dropped);
    &&& r.findings@.len() == all.len()
    &&& forall|i: int|
        0 <= i < all.len() ==> normal(
            #[trigger] r.findings@[i],
            all[i].0,
            all[i].1,
            context,
            gone_out(all, context, i),
        )
    &&& r.still_dropped@ == unsalvaged(dropped)
}

/// Normalize one run's findings.
///
/// Fingerprints that went out earlier in the same run also make a finding a repeat, so an
/// engine reporting the same defect twice files it once.
pub fn normalize(findings: &Vec<RawFinding>, dropped: Vec<DroppedFinding>, context: &NormalizeContext) -> (r:
    Normalized)
    ensures
        is_normalized(r, findings@, dropped@, *context),
        // Nothing is discarded.
        r.findings@.len() + r.still_dropped@.len() == findings@.len() + dropped@.len(),
{
    let ghost all = items(findings@, dropped@);
    proof {
        salvage_loses_nothing(dropped@);
    }
    let (salvaged_findings, still_dropped) = salvage_severities(dropped);
    let ghost extra = salvage_views(salvaged_findings@);
    let mut seen: Vec<String> = Vec::new();
    let mut out: Vec<NormalizedFinding> = Vec::new();
    let mut i: usize = 0;
    assert(texts(seen@) =~= Seq::empty());
    while i < findings.len()
        invariant
            i <= findings.len(),
            all == items(findings@, dropped@),
            out.len() == i,
            texts(seen@) == gone_out(all, *context, i as int),
            forall|k: int|
                0 <= k < i ==> normal(
                    #[trigger] out@[k],
                    all[k].0,
                    all[k].1,
                    *context,
                    gone_out(all, *context, k),
                ),
        decreases findings.len() - i,
    {
        assert(all[i as int] == (findings@[i as int], None::<Seq<char>>));
        let one = normalize_one(&findings[i], None, context, &seen);
        if one.is_publishable() {
            let ghost before = seen@;
            seen.push(findings[i].fingerprint.clone());
            assert(texts(seen@) =~= texts(before).push(findings@[i as int].fingerprint@));
        }
        out.push(one);
        i += 1;
    }
    let mut k: usize = 0;
    while k < salvaged_findings.len()
        invariant
            k <= salvaged_findings.len(),
            all == items(findings@, dropped@),
            extra == salvage_views(salvaged_findings@),
            extra == salvaged(dropped@),
            out.len() == findings.len() + k,
            texts(seen@) == gone_out(all, *context, findings.len() + k),
            forall|j: int|
                0 <= j < out.len() ==> normal(
                    #[trigger] out@[j],
                    all[j].0,
                    all[j].1,
                    *context,
                    gone_out(all, *context, j),
                ),
        decreases salvaged_findings.len() - k,
    {
        let ghost at = findings.len() + k;
        assert(all[at] == extra[k as int]);
        assert(extra[k as int] == (salvaged_findings@[k as int].0, Some(
            salvaged_findings@[k as int].1@,
        )));
        let reported = salvaged_findings[k].1.clone();
        let one = normalize_one(&salvaged_findings[k].0, Some(reported), context, &seen);
        if one.is_publishable() {
            let ghost before = seen@;
            seen.push(salvaged_findings[k].0.fingerprint.clone());
            assert(texts(seen@) =~= texts(before).push(all[at].0.fingerprint@));
        }
        out.push(one);
        k += 1;
    }
    Normalized { findings: out, still_dropped }
}

/// The category an out-of-diff finding is published inline as: a comment cannot be anchored
/// to a line that is not in the diff.
pub fn inline_category_for_out_of_diff() -> (r: Category)
    ensures
        r == Category::Other,
{
    Category::Other
}

// --- what holds of every run ---

/// Every dropped finding is taken up again or stays dropped.
pub proof fn salvage_loses_nothing(dropped: Seq<DroppedFinding>)
    ensures
        salvaged(dropped).len() + unsalvaged(dropped).len() == dropped.len(),
    decreases dropped.len(),
{
    if dropped.len() > 0 {
        salvage_loses_nothing(dropped.drop_last());
    }
}

/// A suppressed finding never goes out, not even as a repeat of something published.
pub proof fn a_suppressed_finding_never_goes_out(
    raw: RawFinding,
    context: NormalizeContext,
    seen: Seq<Seq<char>>,
    k: int,
)
    requires
        0 <= k < context.suppressions@.len(),
        suppression_hit(context.suppressions@[k], raw.fingerprint@, opt_text(raw.file)) is Some,
    ensures
        settled_state(raw, context, seen) == FindingState::Suppressed,
{
    let hits = |s: Suppression| suppression_hit(s, raw.fingerprint@, opt_text(raw.file)) is Some;
    crate::text::first_index_means(context.suppressions@, hits);
    assert(hits(context.suppressions@[k]));
}

/// A finding that is already published does not go out again.
pub proof fn a_published_finding_never_goes_out_again(
    raw: RawFinding,
    context: NormalizeContext,
    seen: Seq<Seq<char>>,
)
    requires
        texts(context.published_fingerprints@).contains(raw.fingerprint@),
    ensures
        settled_state(raw, context, seen) != FindingState::Open,
{
}

/// In one run no fingerprint goes out twice.
pub proof fn no_fingerprint_goes_out_twice(
    all: Seq<(RawFinding, Option<Seq<char>>)>,
    context: NormalizeContext,
    i: int,
    j: int,
)
    requires
        0 <= i < j < all.len(),
        all[i].0.fingerprint@ == all[j].0.fingerprint@,
        settled_state(all[i].0, context, gone_out(all, context, i)) == FindingState::Open,
    ensures
        settled_state(all[j].0, context, gone_out(all, context, j)) != FindingState::Open,
{
    gone_out_keeps(all, context, i, j);
}

proof fn gone_out_keeps(
    all: Seq<(RawFinding, Option<Seq<char>>)>,
    context: NormalizeContext,
    i: int,
    n: int,
)
    requires
        0 <= i < n <= all.len(),
        settled_state(all[i].0, context, gone_out(all, context, i)) == FindingState::Open,
    ensures
        gone_out(all, context, n).contains(all[i].0.fingerprint@),
    decreases n,
{
    let print = all[i].0.fingerprint@;
    let seen = gone_out(all, context, n - 1);
    if i == n - 1 {
        assert(seen.push(print)[seen.len() as int] == print);
    } else {
        gone_out_keeps(all, context, i, n - 1);
        let k = choose|k: int| 0 <= k < seen.len() && seen[k] == print;
        if settled_state(all[n - 1].0, context, seen) == FindingState::Open {
            assert(seen.push(all[n - 1].0.fingerprint@)[k] == print);
        }
    }
}

/// Normalization never makes a finding look worse than it was reported.
pub proof fn severity_is_never_raised(raw: RawFinding, context: NormalizeContext)
    ensures
        settled_severity(raw, context).level() <= raw.severity.level(),
        outside(raw, context) && context.depth != Depth::Deep ==> settled_severity(
            raw,
            context,
        ).level() <= OUT_OF_DIFF_CEILING.level(),
        !outside(raw, context) ==> settled_severity(raw, context) == raw.severity,
        context.depth == Depth::Deep ==> settled_severity(raw, context) == raw.severity,
{
}

/// Every finding that is held back says why.
pub proof fn every_withheld_finding_states_a_reason(
    r: NormalizedFinding,
    raw: RawFinding,
    reported: Option<Seq<char>>,
    context: NormalizeContext,
    seen: Seq<Seq<char>>,
)
    requires
        normal(r, raw, reported, context, seen),
        !r.goes_out(),
    ensures
        r.explanation().len() > 0,
{
    let notes = notes_of(r.notes@);
    assert(notes.len() > 0);
    let last = notes.last();
    reveal_strlit("suppressed by ");
    reveal_strlit("already published on this change as ");
    assert(last.description().len() > 0);
    let lines = notes.map_values(|n: Note| n.description());
    assert(lines.last() == last.description());
    assert(joined(lines, "; "@).len() > 0);
}

/// Whether two findings differ in nothing but the run they came from and the time of it.
pub open spec fn alike(a: NormalizedFinding, b: NormalizedFinding) -> bool {
    &&& b.finding == (Finding { run_id: b.finding.run_id, created_at: b.finding.created_at, ..a.finding })
    &&& a.out_of_diff == b.out_of_diff
    &&& notes_of(a.notes@) == notes_of(b.notes@)
}

/// Whether two lists of findings differ in nothing but that.
pub open spec fn all_alike(a: Seq<NormalizedFinding>, b: Seq<NormalizedFinding>) -> bool {
    a.len() == b.len() && forall|i: int| 0 <= i < a.len() ==> alike(#[trigger] a[i], b[i])
}

/// Which run findings come from, and when it is, changes nothing about what becomes of them.
pub proof fn the_hour_changes_nothing(
    one: Normalized,
    other: Normalized,
    findings: Seq<RawFinding>,
    dropped: Seq<DroppedFinding>,
    context: NormalizeContext,
    run_id: i64,
    now: Timestamp,
)
    requires
        is_normalized(one, findings, dropped, context),
        is_normalized(other, findings, dropped, (NormalizeContext { run_id, now, ..context })),
    ensures
        all_alike(one.findings@, other.findings@),
        one.still_dropped@ == other.still_dropped@,
        all_alike(going(one.findings@, true), going(other.findings@, true)),
        all_alike(going(one.findings@, false), going(other.findings@, false)),
{
    let all = items(findings, dropped);
    let later = NormalizeContext { run_id, now, ..context };
    assert forall|i: int| 0 <= i < all.len() implies alike(#[trigger] one.findings@[i], other.findings@[i]) by {
        the_same_have_gone_out(all, context, run_id, now, i);
        assert(normal(one.findings@[i], all[i].0, all[i].1, context, gone_out(all, context, i)));
        assert(normal(other.findings@[i], all[i].0, all[i].1, later, gone_out(all, later, i)));
    }
    the_same_are_going(one.findings@, other.findings@, true);
    the_same_are_going(one.findings@, other.findings@, false);
}

proof fn the_same_have_gone_out(
    all: Seq<(RawFinding, Option<Seq<char>>)>,
    context: NormalizeContext,
    run_id: i64,
    now: Timestamp,
    n: int,
)
    ensures
        gone_out(all, context, n) == gone_out(all, (NormalizeContext { run_id, now, ..context }), n),
    decreases n,
{
    if n > 0 {
        the_same_have_gone_out(all, context, run_id, now, n - 1);
    }
}

proof fn the_same_are_going(a: Seq<NormalizedFinding>, b: Seq<NormalizedFinding>, out: bool)
    requires
        all_alike(a, b),
    ensures
        all_alike(going(a, out), going(b, out)),
    decreases a.len(),
{
    if a.len() > 0 {
        assert(alike(a[a.len() - 1], b[a.len() - 1]));
        assert forall|i: int| 0 <= i < a.drop_last().len() implies alike(#[trigger] a.drop_last()[i], b.drop_last()[i]) by {
            assert(alike(a[i], b[i]));
        }
        the_same_are_going(a.drop_last(), b.drop_last(), out);
    }
}

// --- what comes out, told from what went in ---

proof fn item_at(findings: Seq<RawFinding>, dropped: Seq<DroppedFinding>, i: int)
    requires
        0 <= i < findings.len(),
    ensures
        i < items(findings, dropped).len(),
        items(findings, dropped)[i] == (findings[i], None::<Seq<char>>),
{
}

/// Normalizing keeps what the engine said: each finding that was understood comes out in its
/// place, with everything that was reported of it but its severity.
pub proof fn what_was_reported_is_kept(
    r: Normalized,
    findings: Seq<RawFinding>,
    dropped: Seq<DroppedFinding>,
    context: NormalizeContext,
    i: int,
)
    requires
        is_normalized(r, findings, dropped, context),
        0 <= i < findings.len(),
    ensures
        i < r.findings@.len(),
        r.findings@[i].finding.title@ == findings[i].title@,
        r.findings@[i].finding.body@ == findings[i].body@,
        opt_text(r.findings@[i].finding.file) == opt_text(findings[i].file),
        r.findings@[i].finding.line_start == findings[i].line_start,
        r.findings@[i].finding.line_end == findings[i].line_end,
        opt_text(r.findings@[i].finding.failure_scenario) == opt_text(findings[i].failure_scenario),
        opt_text(r.findings@[i].finding.suggested_fix) == opt_text(findings[i].suggested_fix),
        r.findings@[i].finding.category == findings[i].category,
        r.findings@[i].finding.fingerprint@ == findings[i].fingerprint@,
        findings[i].confidence_bits matches Some(bits) ==> r.findings@[i].finding.confidence_bits == bits,
        findings[i].confidence_bits is None ==> r.findings@[i].finding.confidence_bits
            == 0x3ff0_0000_0000_0000,
        r.findings@[i].finding.run_id == context.run_id,
        r.findings@[i].finding.created_at == context.now,
{
    item_at(findings, dropped, i);
}

proof fn salvaged_from(dropped: Seq<DroppedFinding>, k: int) -> (d: int)
    requires
        0 <= k < salvaged(dropped).len(),
    ensures
        0 <= d < dropped.len(),
        salvageable(dropped[d]),
        salvaged(dropped)[k] == (dropped[d].repaired->0, dropped[d].misspelt_severity()),
    decreases dropped.len(),
{
    let before = salvaged(dropped.drop_last());
    if salvageable(dropped.last()) && k == before.len() {
        dropped.len() - 1
    } else {
        salvaged_from(dropped.drop_last(), k)
    }
}

/// What comes out beyond the findings that were understood was dropped for its severity alone, and
/// keeps what the engine said otherwise. Its first note tells the severity that was written.
pub proof fn what_was_salvaged_is_kept(
    r: Normalized,
    findings: Seq<RawFinding>,
    dropped: Seq<DroppedFinding>,
    context: NormalizeContext,
    i: int,
) -> (d: int)
    requires
        is_normalized(r, findings, dropped, context),
        findings.len() <= i < r.findings@.len(),
    ensures
        0 <= d < dropped.len(),
        dropped[d].violations@.len() == 1,
        within(dropped[d].violations@[0]@, "severity"@),
        json_string_member(dropped[d].raw@, "severity"@) is Some,
        dropped[d].repaired is Some,
        ({
            let raw = dropped[d].repaired->0;
            let out = r.findings@[i].finding;
            &&& out.title@ == raw.title@
            &&& out.body@ == raw.body@
            &&& opt_text(out.file) == opt_text(raw.file)
            &&& out.line_start == raw.line_start
            &&& out.line_end == raw.line_end
            &&& opt_text(out.failure_scenario) == opt_text(raw.failure_scenario)
            &&& opt_text(out.suggested_fix) == opt_text(raw.suggested_fix)
            &&& out.category == raw.category
            &&& out.fingerprint@ == raw.fingerprint@
            &&& out.run_id == context.run_id
            &&& out.created_at == context.now
            &&& r.findings@[i].notes@.len() > 0
            &&& r.findings@[i].notes@[0]@ == (Note::SeveritySalvaged {
                reported: json_string_member(dropped[d].raw@, "severity"@)->0,
            })
        }),
{
    let all = items(findings, dropped);
    let d = salvaged_from(dropped, i - findings.len());
    assert(all[i] == salvaged(dropped)[i - findings.len()]);
    assert(normal(r.findings@[i], all[i].0, all[i].1, context, gone_out(all, context, i)));
    let notes = settled_notes(all[i].0, all[i].1, context, gone_out(all, context, i));
    assert(notes[0] == (Note::SeveritySalvaged { reported: (all[i].1)->0 }));
    assert(notes_of(r.findings@[i].notes@).len() == r.findings@[i].notes@.len());
    assert(notes_of(r.findings@[i].notes@)[0] == r.findings@[i].notes@[0]@);
    d
}

proof fn salvaged_or_not(dropped: Seq<DroppedFinding>, d: int) -> (k: int)
    requires
        0 <= d < dropped.len(),
    ensures
        salvageable(dropped[d]) ==> 0 <= k < salvaged(dropped).len() && salvaged(dropped)[k] == (
            dropped[d].repaired->0,
            dropped[d].misspelt_severity(),
        ),
        !salvageable(dropped[d]) ==> 0 <= k < unsalvaged(dropped).len() && unsalvaged(dropped)[k] == dropped[d],
    decreases dropped.len(),
{
    if d == dropped.len() - 1 {
        if salvageable(dropped.last()) {
            salvaged(dropped.drop_last()).len() as int
        } else {
            unsalvaged(dropped.drop_last()).len() as int
        }
    } else {
        salvaged_or_not(dropped.drop_last(), d)
    }
}

/// A dropped finding comes back where its severity was all that was wrong with it and it can be
/// read once that is mended, and stays dropped otherwise: no finding is lost.
pub proof fn a_dropped_finding_comes_back_or_stays(
    r: Normalized,
    findings: Seq<RawFinding>,
    dropped: Seq<DroppedFinding>,
    context: NormalizeContext,
    d: int,
)
    requires
        is_normalized(r, findings, dropped, context),
        0 <= d < dropped.len(),
    ensures
        ({
            let severity_alone = dropped[d].violations@.len() == 1 && within(
                dropped[d].violations@[0]@,
                "severity"@,
            ) && json_string_member(dropped[d].raw@, "severity"@) is Some;
            if severity_alone && dropped[d].repaired is Some {
                exists|i: int|
                    findings.len() <= i < r.findings@.len() && (#[trigger] r.findings@[i]).finding.title@
                        == dropped[d].repaired->0.title@ && r.findings@[i].finding.fingerprint@
                        == dropped[d].repaired->0.fingerprint@
            } else {
                r.still_dropped@.contains(dropped[d])
            }
        }),
        r.findings@.len() + r.still_dropped@.len() == findings.len() + dropped.len(),
{
    let all = items(findings, dropped);
    salvage_loses_nothing(dropped);
    let k = salvaged_or_not(dropped, d);
    if salvageable(dropped[d]) {
        let i = findings.len() + k;
        assert(all[i] == salvaged(dropped)[k]);
        assert(normal(r.findings@[i], all[i].0, all[i].1, context, gone_out(all, context, i)));
    } else {
        assert(unsalvaged(dropped)[k] == dropped[d]);
    }
}

/// The severity of a finding is the one that was reported, but where it names a file that the
/// change does not touch: there, unless the review was a deep one, nothing is worse than medium.
pub proof fn only_what_lies_outside_is_capped(
    r: Normalized,
    findings: Seq<RawFinding>,
    dropped: Seq<DroppedFinding>,
    context: NormalizeContext,
    i: int,
)
    requires
        is_normalized(r, findings, dropped, context),
        0 <= i < findings.len(),
    ensures
        ({
            let outside_the_change = findings[i].file is Some && forall|p: int|
                0 <= p < context.changed_paths@.len() ==> (#[trigger] context.changed_paths@[p])@
                    != findings[i].file->0@;
            &&& r.findings@[i].out_of_diff == outside_the_change
            &&& r.findings@[i].finding.severity == if outside_the_change && context.depth != Depth::Deep && (
            findings[i].severity == Severity::High || findings[i].severity == Severity::Critical) {
                Severity::Medium
            } else {
                findings[i].severity
            }
        }),
{
    item_at(findings, dropped, i);
    let changed = texts(context.changed_paths@);
    if findings[i].file is Some {
        let file = findings[i].file->0@;
        if changed.contains(file) {
            let p = choose|p: int| 0 <= p < changed.len() && changed[p] == file;
            assert(context.changed_paths@[p]@ == file);
        } else {
            assert forall|p: int| 0 <= p < context.changed_paths@.len() implies (
            #[trigger] context.changed_paths@[p])@ != file by {
                assert(changed[p] == context.changed_paths@[p]@);
            }
        }
    }
}

proof fn only_what_went_out_is_seen(
    all: Seq<(RawFinding, Option<Seq<char>>)>,
    context: NormalizeContext,
    n: int,
    print: Seq<char>,
) -> (i: int)
    requires
        0 <= n <= all.len(),
        gone_out(all, context, n).contains(print),
    ensures
        0 <= i < n,
        all[i].0.fingerprint@ == print,
        settled_state(all[i].0, context, gone_out(all, context, i)) == FindingState::Open,
    decreases n,
{
    if n <= 0 {
        0
    } else {
        let seen = gone_out(all, context, n - 1);
        if seen.contains(print) {
            only_what_went_out_is_seen(all, context, n - 1, print)
        } else {
            let k = choose|k: int| 0 <= k < gone_out(all, context, n).len() && gone_out(all, context, n)[k] == print;
            if settled_state(all[n - 1].0, context, seen) == FindingState::Open {
                if k < seen.len() {
                    assert(seen[k] == print);
                }
            } else {
                assert(seen[k] == print);
            }
            n - 1
        }
    }
}

/// A finding goes out unless somebody asked not to hear of it, by its fingerprint or by a glob
/// over its file, or it was published on this change before, or an earlier finding of the same run
/// with its fingerprint goes out. A suppressed one is told from a repeat.
pub proof fn a_finding_goes_out_once_unless_suppressed(
    r: Normalized,
    findings: Seq<RawFinding>,
    dropped: Seq<DroppedFinding>,
    context: NormalizeContext,
    i: int,
)
    requires
        is_normalized(r, findings, dropped, context),
        0 <= i < findings.len(),
    ensures
        ({
            let print = findings[i].fingerprint@;
            let unwanted = exists|k: int| {
                let s = #[trigger] context.suppressions@[k];
                0 <= k < context.suppressions@.len() && ((s.fingerprint is Some && s.fingerprint->0@ == print)
                    || (s.glob is Some && findings[i].file is Some && matches_alone(
                    s.glob->0@,
                    findings[i].file->0@,
                )))
            };
            let published = exists|k: int|
                0 <= k < context.published_fingerprints@.len() && (
                #[trigger] context.published_fingerprints@[k])@ == print;
            let repeated = exists|k: int|
                0 <= k < i && (#[trigger] r.findings@[k]).finding.fingerprint@ == print
                    && r.findings@[k].finding.state == FindingState::Open;
            r.findings@[i].finding.state == if unwanted {
                FindingState::Suppressed
            } else if published || repeated {
                FindingState::Superseded
            } else {
                FindingState::Open
            }
        }),
{
    let all = items(findings, dropped);
    item_at(findings, dropped, i);
    let raw = findings[i];
    let print = raw.fingerprint@;
    let hits = |s: Suppression| suppression_hit(s, print, opt_text(raw.file)) is Some;
    crate::text::first_index_means(context.suppressions@, hits);
    assert(suppressed_by(raw, context) == first_index(context.suppressions@, hits));
    assert forall|k: int| 0 <= k < context.suppressions@.len() implies hits(#[trigger] context.suppressions@[k]) == (
    (context.suppressions@[k].fingerprint is Some && context.suppressions@[k].fingerprint->0@ == print) || (
    context.suppressions@[k].glob is Some && raw.file is Some && matches_alone(
        context.suppressions@[k].glob->0@,
        raw.file->0@,
    ))) by {}
    let before = texts(context.published_fingerprints@);
    if before.contains(print) {
        let k = choose|k: int| 0 <= k < before.len() && before[k] == print;
        assert(context.published_fingerprints@[k]@ == print);
    }
    assert forall|k: int| 0 <= k < context.published_fingerprints@.len() && (
    #[trigger] context.published_fingerprints@[k])@ == print implies before.contains(print) by {
        assert(before[k] == print);
    }
    let seen = gone_out(all, context, i);
    assert forall|k: int| 0 <= k < i implies (#[trigger] r.findings@[k]).finding.fingerprint@ == all[k].0.fingerprint@
        && r.findings@[k].finding.state == settled_state(all[k].0, context, gone_out(all, context, k)) by {
        assert(normal(r.findings@[k], all[k].0, all[k].1, context, gone_out(all, context, k)));
    }
    if seen.contains(print) {
        let k = only_what_went_out_is_seen(all, context, i, print);
        assert(r.findings@[k].finding.fingerprint@ == print);
    }
    assert forall|k: int|
        0 <= k < i && (#[trigger] r.findings@[k]).finding.fingerprint@ == print && r.findings@[k].finding.state
            == FindingState::Open implies seen.contains(print) by {
        gone_out_keeps(all, context, k, i);
    }
}

/// What is noted of a finding is what became of it: that it lies outside the change and whether
/// its severity was capped for that, which suppression held it back and why, or that it repeats
/// what was said. Of one that was left alone nothing is noted.
pub proof fn the_notes_tell_what_became_of_it(
    r: Normalized,
    findings: Seq<RawFinding>,
    dropped: Seq<DroppedFinding>,
    context: NormalizeContext,
    i: int,
)
    requires
        is_normalized(r, findings, dropped, context),
        0 <= i < findings.len(),
    ensures
        ({
            let out = r.findings@[i];
            let notes = notes_of(out.notes@);
            let first: int = if out.out_of_diff {
                1
            } else {
                0
            };
            &&& out.out_of_diff ==> notes.len() > 0 && notes[0] == (Note::OutOfDiff {
                file: findings[i].file->0@,
                capped: out.finding.severity != findings[i].severity,
            })
            &&& out.finding.state == FindingState::Open ==> notes.len() == first
            &&& out.finding.state == FindingState::Superseded ==> notes.len() == first + 1 && notes[first] == (
            Note::Superseded { fingerprint: findings[i].fingerprint@ })
            &&& out.finding.state == FindingState::Suppressed ==> notes.len() == first + 1 && exists|k: int|
                0 <= k < context.suppressions@.len() && notes[first] == (Note::Suppressed {
                    matched: if context.suppressions@[k].fingerprint is Some
                        && context.suppressions@[k].fingerprint->0@ == findings[i].fingerprint@ {
                        "fingerprint "@ + findings[i].fingerprint@
                    } else {
                        "glob "@ + context.suppressions@[k].glob->0@
                    },
                    reason: opt_text((#[trigger] context.suppressions@[k]).reason),
                })
        }),
{
    item_at(findings, dropped, i);
    let all = items(findings, dropped);
    let raw = findings[i];
    let out = r.findings@[i];
    let seen = gone_out(all, context, i);
    assert(normal(out, raw, None, context, seen));
    let hits = |s: Suppression| suppression_hit(s, raw.fingerprint@, opt_text(raw.file)) is Some;
    crate::text::first_index_means(context.suppressions@, hits);
    assert(suppressed_by(raw, context) == first_index(context.suppressions@, hits));
    if out.finding.state == FindingState::Suppressed {
        let k = suppressed_by(raw, context)->0;
        assert(hits(context.suppressions@[k]));
    }
}

/// The findings that go out and those that are held back are all of them, each on the side that
/// its state says.
pub proof fn what_goes_out_is_open(findings: Seq<NormalizedFinding>, f: NormalizedFinding)
    ensures
        going(findings, true).contains(f) == (findings.contains(f) && f.finding.state == FindingState::Open),
        going(findings, false).contains(f) == (findings.contains(f) && f.finding.state != FindingState::Open),
        going(findings, true).len() + going(findings, false).len() == findings.len(),
    decreases findings.len(),
{
    if findings.len() > 0 {
        let before = findings.drop_last();
        let last = findings.last();
        what_goes_out_is_open(before, f);
        push_contains(before, last, f);
        push_contains(going(before, true), last, f);
        push_contains(going(before, false), last, f);
        assert(before.push(last) =~= findings);
    }
}

/// A note names what it is about.
pub proof fn a_note_names_what_it_is_about(note: Note)
    ensures
        match note {
            Note::SeveritySalvaged { reported } => within(note.description(), debug_text(reported)),
            Note::OutOfDiff { file, capped } => within(note.description(), file) && (capped ==> within(
                note.description(),
                "capped at medium"@,
            )),
            Note::Suppressed { matched, reason } => within(note.description(), matched) && (reason matches Some(
                why,
            ) ==> within(note.description(), why)),
            Note::Superseded { fingerprint } => within(note.description(), fingerprint),
        },
{
    match note {
        Note::SeveritySalvaged { reported } => {
            stands_inside("severity "@, debug_text(reported), " is not a known level; treated as medium"@);
        },
        Note::OutOfDiff { file, capped } => {
            if capped {
                stands_inside("`"@, file, "` is not in this change; severity capped at medium"@);
                reveal_strlit("` is not in this change; severity capped at medium");
                reveal_strlit("capped at medium");
                let whole = note.description();
                let n = whole.len() - 16;
                assert(whole.subrange(n, whole.len() as int) =~= "capped at medium"@);
                assert(stands_at(whole, "capped at medium"@, n));
            } else {
                stands_inside("`"@, file, "` is not in this change"@);
            }
        },
        Note::Suppressed { matched, reason } => match reason {
            Some(why) => {
                stands_inside("suppressed by "@, matched, " ("@ + why + ")"@);
                assert("suppressed by "@ + matched + (" ("@ + why + ")"@) =~= note.description());
                stands_inside("suppressed by "@ + matched + " ("@, why, ")"@);
            },
            None => {
                stands_inside("suppressed by "@, matched, Seq::empty());
                assert("suppressed by "@ + matched + Seq::empty() =~= note.description());
            },
        },
        Note::Superseded { fingerprint } => {
            stands_inside("already published on this change as "@, fingerprint, Seq::empty());
            assert("already published on this change as "@ + fingerprint + Seq::empty() =~= note.description());
        },
    }
}

proof fn going_from(findings: Seq<NormalizedFinding>, out: bool, i: int) -> (a: int)
    requires
        0 <= i < going(findings, out).len(),
    ensures
        0 <= a < findings.len(),
        findings[a] == going(findings, out)[i],
        i < going(findings.take(a + 1), out).len(),
        i == going(findings.take(a), out).len(),
    decreases findings.len(),
{
    let before = findings.drop_last();
    if i < going(before, out).len() {
        let a = going_from(before, out, i);
        assert(before.take(a + 1) =~= findings.take(a + 1));
        assert(before.take(a) =~= findings.take(a));
        a
    } else {
        let a = findings.len() - 1;
        assert(findings.take(a + 1) =~= findings);
        assert(findings.take(a) =~= before);
        a
    }
}

proof fn going_grows(findings: Seq<NormalizedFinding>, out: bool, a: int, b: int)
    requires
        0 <= a <= b <= findings.len(),
    ensures
        going(findings.take(a), out).len() <= going(findings.take(b), out).len(),
    decreases b - a,
{
    if a < b {
        assert(findings.take(b).drop_last() =~= findings.take(b - 1));
        going_grows(findings, out, a, b - 1);
    }
}

/// What goes out, and what is held back, keeps the order in which it was reported.
pub proof fn what_goes_out_keeps_its_order(findings: Seq<NormalizedFinding>, out: bool, i: int, j: int) -> (r: (
    int,
    int,
))
    requires
        0 <= i < j < going(findings, out).len(),
    ensures
        0 <= r.0 < r.1 < findings.len(),
        going(findings, out)[i] == findings[r.0],
        going(findings, out)[j] == findings[r.1],
{
    let a = going_from(findings, out, i);
    let b = going_from(findings, out, j);
    if b <= a {
        going_grows(findings, out, b, a);
    }
    (a, b)
}

} // verus!
