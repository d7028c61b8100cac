//! What an engine is told: the review prompt.
//!
//! Seven sections in a fixed order. An engine reads from the top, and the contract for its output
//! has to arrive before what it governs.
//!
//! # Conventions are capped, and the cap is stated
//!
//! A repository's conventions share one budget of bytes, spent in order. Otherwise a long guide
//! would crowd the diff out of the prompt. What was cut says so: an engine shown two thirds of a
//! style guide must not treat it as the whole one.

use vstd::prelude::*;

use crate::model::{Category, Change, Finding, RepoConfig};
use crate::text::{
    byte_len, bytes_in, cat4, chars_of, copy_texts, encode_utf8_of_sum, opt_text, same, stands_inside,
    text_of, texts, within,
};

verus! {

/// The file the rendered prompt is written to, beside the transcript. A finding nobody can
/// explain is usually a prompt nobody kept.
pub const PROMPT_FILE: &'static str = "prompt.md";

/// The sections of the prompt, in order.
pub const SECTIONS: [&'static str; 7] = [
    "Role and output contract",
    "Change metadata",
    "The diff",
    "Repository conventions",
    "Review scope",
    "Prior context",
    "Rules of engagement",
];

/// Files read as repository conventions, after the one that comes first and before those that a
/// repository names.
pub const DEFAULT_CONVENTION_FILES: [&'static str; 3] = [
    "AGENTS.md",
    "CONTRIBUTING.md",
    ".editorconfig",
];

/// What can go wrong assembling a prompt.
#[derive(Clone, Debug, PartialEq, Eq)]
pub enum PromptError {
    /// The template did not render.
    Template(String),
    /// The rendered prompt could not be written beside the transcript.
    Write {
        /// Where it was being written.
        path: String,
        /// Why.
        source: String,
    },
}

impl PromptError {
    /// The error in words.
    pub open spec fn in_words(self) -> Seq<char> {
        match self {
            Self::Template(detail) => "rev-local's review template failed to render: "@ + detail@
                + "\n  this is a bug in rev-local, not in your configuration"@,
            Self::Write { path, source } => "could not write the rendered prompt to "@ + path@ + ": "@
                + source@,
        }
    }

    /// The error in words.
    pub fn describe(&self) -> (r: String)
        ensures
            r@ == self.in_words(),
    {
        match self {
            Self::Template(detail) => crate::text::cat3(
                "rev-local's review template failed to render: ",
                detail.as_str(),
                "\n  this is a bug in rev-local, not in your configuration",
            ),
            Self::Write { path, source } => cat4(
                "could not write the rendered prompt to ",
                path.as_str(),
                ": ",
                source.as_str(),
            ),
        }
    }
}

// --- conventions ---

/// One convention file, as it appears in the prompt.
#[derive(Clone, Debug, PartialEq, Eq)]
pub struct ConventionFile {
    /// Its path in the repository.
    pub path: String,
    /// What is shown of it.
    pub content: String,
    /// Whether it was cut short.
    pub truncated: bool,
    /// How much is shown.
    pub shown_bytes: usize,
    /// How much there was.
    pub total_bytes: usize,
}

/// What is shown of a convention file.
pub struct Convention {
    /// Its path in the repository.
    pub path: Seq<char>,
    /// What is shown of it.
    pub content: Seq<char>,
    /// Whether it was cut short.
    pub truncated: bool,
    /// How much is shown.
    pub shown_bytes: nat,
    /// How much there was.
    pub total_bytes: nat,
}

impl View for ConventionFile {
    type V = Convention;

    open spec fn view(&self) -> Convention {
        Convention {
            path: self.path@,
            content: self.content@,
            truncated: self.truncated,
            shown_bytes: self.shown_bytes as nat,
            total_bytes: self.total_bytes as nat,
        }
    }
}

/// What is shown of convention files.
pub open spec fn conventions_of(v: Seq<ConventionFile>) -> Seq<Convention> {
    v.map_values(|f: ConventionFile| f@)
}

/// The paths to read conventions from, in order: the one that comes first whichever engine
/// reviews, since that is where a repository puts its real conventions, the usual ones, and those
/// that the repository names.
pub open spec fn paths_to_read(first: Seq<char>, named: Seq<Seq<char>>) -> Seq<Seq<char>> {
    seq![first, "AGENTS.md"@, "CONTRIBUTING.md"@, ".editorconfig"@] + named
}

/// The paths to read conventions from, in order.
pub fn convention_paths(first: &str, config: &RepoConfig) -> (r: Vec<String>)
    ensures
        texts(r@) == paths_to_read(first@, texts(config.convention_files@)),
{
    let mut r: Vec<String> = Vec::new();
    r.push(first.to_owned());
    let mut i: usize = 0;
    while i < DEFAULT_CONVENTION_FILES.len()
        invariant
            i <= DEFAULT_CONVENTION_FILES@.len(),
            r@.len() == i + 1,
            r@[0]@ == first@,
            forall|j: int| 0 < j <= i ==> (#[trigger] r@[j])@ == DEFAULT_CONVENTION_FILES@[j - 1]@,
        decreases DEFAULT_CONVENTION_FILES.len() - i,
    {
        r.push(DEFAULT_CONVENTION_FILES[i].to_owned());
        i += 1;
    }
    let mut named = copy_texts(&config.convention_files);
    let ghost usual = r@;
    proof {
        assert(usual[1]@ == DEFAULT_CONVENTION_FILES@[0]@);
        assert(usual[2]@ == DEFAULT_CONVENTION_FILES@[1]@);
        assert(usual[3]@ == DEFAULT_CONVENTION_FILES@[2]@);
    }
    r.append(&mut named);
    assert(texts(r@) =~= paths_to_read(first@, texts(config.convention_files@)));
    r
}

/// As much of a text as fits in so many bytes, in whole characters.
pub open spec fn fitting(s: Seq<char>, budget: nat) -> Seq<char>
    decreases s.len(),
{
    if byte_len(s) <= budget || s.len() == 0 {
        s
    } else {
        fitting(s.drop_last(), budget)
    }
}

/// How many bytes a character takes.
pub open spec fn char_bytes(c: char) -> nat {
    byte_len(seq![c])
}

fn width(c: char) -> (n: usize)
    ensures
        n == char_bytes(c),
        1 <= n <= 4,
{
    proof {
        vstd::utf8::char_is_scalar(c);
        assert(seq![c].drop_first() =~= Seq::empty());
        assert(vstd::utf8::encode_utf8(seq![c].drop_first()) =~= Seq::<u8>::empty());
    }
    let v: u32 = c as u32;
    if v <= 0x7f {
        1
    } else if v <= 0x7ff {
        2
    } else if v <= 0xffff {
        3
    } else {
        4
    }
}

proof fn fitting_is(s: Seq<char>, budget: nat, n: int)
    requires
        0 <= n <= s.len(),
        byte_len(s.take(n)) <= budget,
        n < s.len() ==> byte_len(s.take(n + 1)) > budget,
    ensures
        fitting(s, budget) == s.take(n),
    decreases s.len(),
{
    if n == s.len() {
        assert(s.take(n) =~= s);
    } else {
        encode_utf8_of_sum(s.take(n + 1), s.skip(n + 1));
        assert(s.take(n + 1) + s.skip(n + 1) =~= s);
        let shorter = s.drop_last();
        assert(shorter.take(n) =~= s.take(n));
        if n < shorter.len() {
            assert(shorter.take(n + 1) =~= s.take(n + 1));
        }
        fitting_is(shorter, budget, n);
    }
}

pub(crate) fn cut_to_fit(s: &str, budget: usize) -> (r: String)
    ensures
        r@ == fitting(s@, budget as nat),
        byte_len(r@) <= budget,
{
    let v = chars_of(s);
    let mut used: usize = 0;
    let mut n: usize = 0;
    proof {
        assert(v@.take(0) =~= Seq::empty());
        assert(vstd::utf8::encode_utf8(v@.take(0)) =~= Seq::<u8>::empty());
    }
    while n < v.len() && width(v[n]) <= budget - used
        invariant
            n <= v.len(),
            used <= budget,
            used == byte_len(v@.take(n as int)),
        decreases v.len() - n,
    {
        proof {
            assert(v@.take(n + 1) =~= v@.take(n as int) + seq![v@[n as int]]);
            encode_utf8_of_sum(v@.take(n as int), seq![v@[n as int]]);
        }
        used = used + width(v[n]);
        n += 1;
    }
    proof {
        if n < v.len() {
            assert(v@.take(n + 1) =~= v@.take(n as int) + seq![v@[n as int]]);
            encode_utf8_of_sum(v@.take(n as int), seq![v@[n as int]]);
        }
        fitting_is(v@, budget as nat, n as int);
        assert(v@.subrange(0, n as int) =~= v@.take(n as int));
    }
    text_of(&v, 0, n)
}

/// A path and what was read there, if anything was.
pub type ReadFile = (Seq<char>, Option<Seq<char>>);

/// Whether a path was met before.
pub open spec fn met(read: Seq<ReadFile>, path: Seq<char>) -> bool {
    exists|i: int| 0 <= i < read.len() && (#[trigger] read[i]).0 == path
}

/// What is shown of a file, with so much of the budget left.
pub open spec fn shown(path: Seq<char>, content: Seq<char>, budget: nat) -> Convention {
    let part = fitting(content, budget);
    Convention {
        path,
        content: part,
        truncated: byte_len(content) > budget,
        shown_bytes: byte_len(part),
        total_bytes: byte_len(content),
    }
}

/// What is shown of the files read, in order, and what is left of the budget. A path that was met
/// before, and one where nothing could be read, is passed over: most repositories have some of
/// these files, and none has all of them.
pub open spec fn shown_of(read: Seq<ReadFile>, budget: nat) -> (Seq<Convention>, nat)
    decreases read.len(),
{
    if read.len() == 0 {
        (Seq::empty(), budget)
    } else {
        let before = shown_of(read.drop_last(), budget);
        let (path, content) = read.last();
        if met(read.drop_last(), path) || before.1 == 0 || content is None {
            before
        } else {
            let next = shown(path, content->0, before.1);
            (before.0.push(next), (before.1 - next.shown_bytes) as nat)
        }
    }
}

/// What was read where.
pub open spec fn read_view(v: Seq<(String, Option<String>)>) -> Seq<ReadFile> {
    v.map_values(|p: (String, Option<String>)| (p.0@, opt_text(p.1)))
}

fn met_before(read: &Vec<(String, Option<String>)>, n: usize, path: &str) -> (r: bool)
    requires
        n <= read@.len(),
    ensures
        r == met(read_view(read@).take(n as int), path@),
{
    let ghost all = read_view(read@).take(n as int);
    let mut i: usize = 0;
    while i < n
        invariant
            i <= n <= read@.len(),
            all == read_view(read@).take(n as int),
            forall|j: int| 0 <= j < i ==> (#[trigger] all[j]).0 != path@,
        decreases n - i,
    {
        if same(read[i].0.as_str(), path) {
            assert(all[i as int].0 == path@);
            return true;
        }
        i += 1;
    }
    false
}

/// The conventions to show, given what was read at each path in order.
pub fn read_conventions(read: &Vec<(String, Option<String>)>, max_convention_bytes: usize) -> (r: Vec<
    ConventionFile,
>)
    ensures
        conventions_of(r@) == shown_of(read_view(read@), max_convention_bytes as nat).0,
{
    let ghost all = read_view(read@);
    let mut budget: usize = max_convention_bytes;
    let mut files: Vec<ConventionFile> = Vec::new();
    let mut i: usize = 0;
    assert(all.take(0) =~= Seq::empty());
    assert(conventions_of(files@) =~= Seq::empty());
    while i < read.len()
        invariant
            i <= read.len(),
            all == read_view(read@),
            shown_of(all.take(i as int), max_convention_bytes as nat) == (
                conventions_of(files@),
                budget as nat,
            ),
        decreases read.len() - i,
    {
        assert(all.take(i + 1).drop_last() =~= all.take(i as int));
        assert(all.take(i + 1).last() == (read@[i as int].0@, opt_text(read@[i as int].1)));
        let seen = met_before(read, i, read[i].0.as_str());
        if !seen && budget > 0 {
            if let Some(content) = &read[i].1 {
                let total_bytes: usize = bytes_in(content.as_str());
                let part = cut_to_fit(content.as_str(), budget);
                let shown_bytes: usize = bytes_in(part.as_str());
                let ghost was = files@;
                let file = ConventionFile {
                    path: read[i].0.clone(),
                    content: part,
                    truncated: total_bytes > budget,
                    shown_bytes,
                    total_bytes,
                };
                assert(file@ == shown(read@[i as int].0@, content@, budget as nat));
                files.push(file);
                assert(conventions_of(files@) =~= conventions_of(was).push(file@));
                budget = budget - shown_bytes;
            }
        }
        i += 1;
    }
    assert(all.take(all.len() as int) =~= all);
    files
}

// --- the context of a review ---

/// One review category and what it means.
#[derive(Clone, Debug, PartialEq, Eq)]
pub struct ScopeEntry {
    /// The category's name.
    pub name: String,
    /// What to look for.
    pub guidance: String,
}

/// A finding from an earlier run on the same change.
#[derive(Clone, Debug, PartialEq, Eq)]
pub struct PriorFinding {
    /// What makes it the same finding in another run.
    pub fingerprint: String,
    /// How bad it was.
    pub severity: String,
    /// Where.
    pub file: String,
    /// The claim.
    pub title: String,
}

/// Everything the template needs.
#[derive(Clone, Debug, PartialEq, Eq)]
pub struct PromptContext {
    /// The contract for the output, so that an engine need not be told where to find it.
    pub output_contract: String,
    /// The repository's name.
    pub repo_name: String,
    /// What kind it is.
    pub repo_kind: String,
    /// What kind of change.
    pub change_kind: String,
    /// What its own system calls it.
    pub external_id: String,
    /// The branch, where there is one.
    pub branch: Option<String>,
    /// The author.
    pub author: Option<String>,
    /// Where the change can be seen.
    pub url: Option<String>,
    /// Its message.
    pub message: Option<String>,
    /// Files touched.
    pub files_changed: u32,
    /// Lines added.
    pub insertions: u64,
    /// Lines removed.
    pub deletions: u64,
    /// The diff.
    pub diff: String,
    /// Whether the diff was reduced.
    pub truncated: bool,
    /// What was left out, in full.
    pub omitted_files: Vec<String>,
    /// The repository's conventions.
    pub conventions: Vec<ConventionFile>,
    /// What to look for.
    pub scope: Vec<ScopeEntry>,
    /// Findings from earlier runs on this change.
    pub prior_findings: Vec<PriorFinding>,
    /// Fingerprints that a person asked never to see again.
    pub suppressed: Vec<String>,
    /// Whether there is any prior context.
    pub has_prior_context: bool,
}

/// What to look for in a category.
pub open spec fn guidance(category: Category) -> Seq<char> {
    match category {
        Category::Correctness => "logic that produces a wrong result or a crash. Name the inputs."@,
        Category::Security => "untrusted input reaching somewhere it is trusted: injection, auth bypass, unsafe deserialization, secrets in code."@,
        Category::Convention => "drift from the conventions stated above. Not from your own preferences — if this repository does not state it, it is not a finding."@,
        Category::Tests => "behaviour this change introduces or alters that no test would catch regressing. Name the behaviour, not the coverage percentage."@,
        Category::Perf => "work that is superlinear where it need not be, on a path that runs often."@,
        Category::Other => "anything defensible that the categories above do not cover."@,
    }
}

/// What to look for in a category.
pub fn guidance_for(category: Category) -> (r: &'static str)
    ensures
        r@ == guidance(category),
{
    match category {
        Category::Correctness => "logic that produces a wrong result or a crash. Name the inputs.",
        Category::Security => "untrusted input reaching somewhere it is trusted: injection, auth bypass, unsafe deserialization, secrets in code.",
        Category::Convention => "drift from the conventions stated above. Not from your own preferences — if this repository does not state it, it is not a finding.",
        Category::Tests => "behaviour this change introduces or alters that no test would catch regressing. Name the behaviour, not the coverage percentage.",
        Category::Perf => "work that is superlinear where it need not be, on a path that runs often.",
        Category::Other => "anything defensible that the categories above do not cover.",
    }
}

/// Whether an entry stands for a category.
pub open spec fn covers(entry: ScopeEntry, category: Category) -> bool {
    entry.name@ == category.word() && entry.guidance@ == guidance(category)
}

/// Whether an entry tells of a finding.
pub open spec fn recalls(prior: PriorFinding, finding: Finding) -> bool {
    &&& prior.fingerprint@ == finding.fingerprint@
    &&& prior.severity@ == finding.severity.word()
    &&& prior.file@ == match finding.file {
        Some(file) => file@,
        None => "(no file)"@,
    }
    &&& prior.title@ == finding.title@
}

fn scope_of(categories: &Vec<Category>) -> (r: Vec<ScopeEntry>)
    ensures
        r@.len() == categories@.len(),
        forall|i: int| 0 <= i < r@.len() ==> covers(#[trigger] r@[i], categories@[i]),
{
    let mut r: Vec<ScopeEntry> = Vec::new();
    let mut i: usize = 0;
    while i < categories.len()
        invariant
            i <= categories.len(),
            r@.len() == i,
            forall|j: int| 0 <= j < i ==> covers(#[trigger] r@[j], categories@[j]),
        decreases categories.len() - i,
    {
        let category: Category = categories[i];
        r.push(
            ScopeEntry {
                name: category.as_str().to_owned(),
                guidance: guidance_for(category).to_owned(),
            },
        );
        i += 1;
    }
    r
}

fn recall(findings: &Vec<Finding>) -> (r: Vec<PriorFinding>)
    ensures
        r@.len() == findings@.len(),
        forall|i: int| 0 <= i < r@.len() ==> recalls(#[trigger] r@[i], findings@[i]),
{
    let mut r: Vec<PriorFinding> = Vec::new();
    let mut i: usize = 0;
    while i < findings.len()
        invariant
            i <= findings.len(),
            r@.len() == i,
            forall|j: int| 0 <= j < i ==> recalls(#[trigger] r@[j], findings@[j]),
        decreases findings.len() - i,
    {
        let finding = &findings[i];
        let file = match &finding.file {
            Some(file) => file.clone(),
            None => "(no file)".to_owned(),
        };
        r.push(
            PriorFinding {
                fingerprint: finding.fingerprint.clone(),
                severity: finding.severity.as_str().to_owned(),
                file,
                title: finding.title.clone(),
            },
        );
        i += 1;
    }
    r
}

/// Build the context for one review.
pub fn build_context(
    output_contract: &str,
    repo_name: &str,
    repo_kind: &str,
    change: &Change,
    config: &RepoConfig,
    diff: &str,
    truncated: bool,
    omitted_files: &Vec<String>,
    conventions: Vec<ConventionFile>,
    prior_findings: &Vec<Finding>,
    suppressed: &Vec<String>,
) -> (r: PromptContext)
    ensures
        r.output_contract@ == output_contract@,
        r.repo_name@ == repo_name@,
        r.repo_kind@ == repo_kind@,
        r.change_kind@ == change.kind.word(),
        r.external_id@ == change.external_id@,
        opt_text(r.branch) == opt_text(change.branch),
        opt_text(r.author) == opt_text(change.author_name),
        opt_text(r.url) == opt_text(change.url),
        opt_text(r.message) == opt_text(change.title),
        r.files_changed == change.diff_stat.files,
        r.insertions == change.diff_stat.insertions,
        r.deletions == change.diff_stat.deletions,
        r.diff@ == diff@,
        r.truncated == truncated,
        texts(r.omitted_files@) == texts(omitted_files@),
        r.conventions == conventions,
        r.scope@.len() == config.scope@.len(),
        forall|i: int| 0 <= i < r.scope@.len() ==> covers(#[trigger] r.scope@[i], config.scope@[i]),
        r.prior_findings@.len() == prior_findings@.len(),
        forall|i: int|
            0 <= i < r.prior_findings@.len() ==> recalls(
                #[trigger] r.prior_findings@[i],
                prior_findings@[i],
            ),
        texts(r.suppressed@) == texts(suppressed@),
        r.has_prior_context == (prior_findings@.len() > 0 || suppressed@.len() > 0),
{
    PromptContext {
        output_contract: output_contract.to_owned(),
        repo_name: repo_name.to_owned(),
        repo_kind: repo_kind.to_owned(),
        change_kind: change.kind.as_str().to_owned(),
        external_id: change.external_id.clone(),
        branch: change.branch.clone(),
        author: change.author_name.clone(),
        url: change.url.clone(),
        message: change.title.clone(),
        files_changed: change.diff_stat.files,
        insertions: change.diff_stat.insertions,
        deletions: change.diff_stat.deletions,
        diff: diff.to_owned(),
        truncated,
        omitted_files: copy_texts(omitted_files),
        conventions,
        scope: scope_of(&config.scope),
        prior_findings: recall(prior_findings),
        suppressed: copy_texts(suppressed),
        has_prior_context: !prior_findings.is_empty() || !suppressed.is_empty(),
    }
}

// --- rendering ---

/// How many tags a template may hold.
pub const MOST_TAGS: usize = 128;

/// Where a character of a template stands.
#[derive(Clone, Copy, Debug, PartialEq, Eq, Structural)]
pub enum Place {
    /// In the text between tags.
    Text,
    /// In the text, after a `{`.
    Brace,
    /// In the text, after a `\`.
    Backslash,
    /// In the text, after a `\` and a `{`.
    EscapedBrace,
    /// At the beginning of a tag.
    Opened,
    /// In a tag.
    Inside,
    /// In a tag, after a `}`.
    Closing,
    /// In a comment.
    Comment,
    /// In a comment, after a `}`.
    CommentClosing,
}

/// Whether a character may stand in a tag: it begins no list, no call inside the tag, no quoted
/// text and no further tag, and it brings in neither another template nor a definition.
pub open spec fn may_stand_in_a_tag(c: char) -> bool {
    c != '{' && c != '(' && c != '[' && c != '"' && c != '\'' && c != '*' && c != '>'
}

/// Where a character of the text between tags leads, unless it begins a tag.
pub open spec fn text_place(c: char) -> Place {
    if c == '\\' {
        Place::Backslash
    } else {
        Place::Text
    }
}

/// A template read from the left: where its end stands, how many tags have begun, and whether
/// every character may stand where it does. A `\` right before a tag makes text of its beginning,
/// and what follows is read as text and tags again, so no tag may stand there.
pub open spec fn tags(template: Seq<char>) -> (Place, nat, bool)
    decreases template.len(),
{
    if template.len() == 0 {
        (Place::Text, 0, true)
    } else {
        let (place, count, plain) = tags(template.drop_last());
        let c = template.last();
        match place {
            Place::Text => (
                if c == '{' {
                    Place::Brace
                } else {
                    text_place(c)
                },
                count,
                plain,
            ),
            Place::Brace => if c == '{' {
                (Place::Opened, count + 1, plain)
            } else {
                (text_place(c), count, plain)
            },
            Place::Backslash => (
                if c == '{' {
                    Place::EscapedBrace
                } else {
                    text_place(c)
                },
                count,
                plain,
            ),
            Place::EscapedBrace => if c == '{' {
                (Place::Opened, count + 1, false)
            } else {
                (text_place(c), count, plain)
            },
            Place::Opened => if c == '!' {
                (Place::Comment, count, plain)
            } else if c == '{' {
                (Place::Inside, count, plain)
            } else if c == '}' {
                (Place::Closing, count, plain)
            } else {
                (Place::Inside, count, plain && may_stand_in_a_tag(c))
            },
            Place::Inside => if c == '}' {
                (Place::Closing, count, plain)
            } else {
                (Place::Inside, count, plain && may_stand_in_a_tag(c))
            },
            Place::Closing => if c == '}' {
                (Place::Text, count, plain)
            } else {
                (Place::Inside, count, plain && may_stand_in_a_tag(c))
            },
            Place::Comment => (
                if c == '}' {
                    Place::CommentClosing
                } else {
                    Place::Comment
                },
                count,
                plain,
            ),
            Place::CommentClosing => (
                if c == '}' {
                    Place::Text
                } else {
                    Place::Comment
                },
                count,
                plain,
            ),
        }
    }
}

/// Whether a template is a plain one: values, conditions and repetitions, and no more of them
/// than can be inside each other without harm.
pub open spec fn plain_template(template: Seq<char>) -> bool {
    tags(template).2 && tags(template).1 <= MOST_TAGS
}

fn stands_in_a_tag(c: char) -> (r: bool)
    ensures
        r == may_stand_in_a_tag(c),
{
    c != '{' && c != '(' && c != '[' && c != '"' && c != '\'' && c != '*' && c != '>'
}

fn place_in_text(c: char) -> (r: Place)
    ensures
        r == text_place(c),
{
    if c == '\\' {
        Place::Backslash
    } else {
        Place::Text
    }
}

/// Whether a template is a plain one, which can be rendered.
pub fn is_plain_template(template: &str) -> (r: bool)
    ensures
        r == plain_template(template@),
{
    let v = chars_of(template);
    let mut place = Place::Text;
    let mut count: usize = 0;
    let mut plain: bool = true;
    let mut i: usize = 0;
    assert(v@.take(0) =~= Seq::empty());
    while i < v.len()
        invariant
            i <= v.len(),
            count <= i,
            tags(v@.take(i as int)) == (place, count as nat, plain),
        decreases v.len() - i,
    {
        assert(v@.take(i + 1).drop_last() =~= v@.take(i as int));
        let c = v[i];
        match place {
            Place::Text => {
                if c == '{' {
                    place = Place::Brace;
                } else {
                    place = place_in_text(c);
                }
            },
            Place::Brace => {
                if c == '{' {
                    place = Place::Opened;
                    count += 1;
                } else {
                    place = place_in_text(c);
                }
            },
            Place::Backslash => {
                if c == '{' {
                    place = Place::EscapedBrace;
                } else {
                    place = place_in_text(c);
                }
            },
            Place::EscapedBrace => {
                if c == '{' {
                    place = Place::Opened;
                    count += 1;
                    plain = false;
                } else {
                    place = place_in_text(c);
                }
            },
            Place::Opened => {
                if c == '!' {
                    place = Place::Comment;
                } else if c == '{' {
                    place = Place::Inside;
                } else if c == '}' {
                    place = Place::Closing;
                } else {
                    plain = plain && stands_in_a_tag(c);
                    place = Place::Inside;
                }
            },
            Place::Inside => {
                if c == '}' {
                    place = Place::Closing;
                } else {
                    plain = plain && stands_in_a_tag(c);
                }
            },
            Place::Closing => {
                if c == '}' {
                    place = Place::Text;
                } else {
                    plain = plain && stands_in_a_tag(c);
                    place = Place::Inside;
                }
            },
            Place::Comment => {
                if c == '}' {
                    place = Place::CommentClosing;
                }
            },
            Place::CommentClosing => {
                if c == '}' {
                    place = Place::Text;
                } else {
                    place = Place::Comment;
                }
            },
        }
        i += 1;
    }
    assert(v@.take(v@.len() as int) =~= v@);
    plain && count <= MOST_TAGS
}

/// The result of rendering a Handlebars template over a JSON document, or why it fails.
pub uninterp spec fn rendered_template(template: Seq<char>, data: Seq<char>) -> Result<Seq<char>, Seq<char>>;

/// `handlebars::Handlebars::render_template`, with strict mode off, over the value that
/// `serde_json::from_str` reads: the rendered text, or the error's text. It is the same for the
/// same template and document. A template may define another and bring it in from inside itself,
/// and is read and rendered one call deeper for each tag inside another, so only plain templates
/// are rendered.
#[verifier::external_body]
fn render_template(template: &str, data: &str) -> (r: Result<String, String>)
    requires
        plain_template(template@),
    ensures
        rendered_template(template@, data@) == match r {
            Ok(text) => Ok::<Seq<char>, Seq<char>>(text@),
            Err(error) => Err::<Seq<char>, Seq<char>>(error@),
        },
{
    let value: serde_json::Value = serde_json::from_str(data).map_err(|e| e.to_string())?;
    let mut handlebars = handlebars::Handlebars::new();
    handlebars.set_strict_mode(false);
    handlebars.render_template(template, &value).map_err(|e| e.to_string())
}

/// What rendering comes to: the prompt, or that the template is at fault.
pub fn rendered(result: Result<String, String>) -> (r: Result<String, PromptError>)
    ensures
        match result {
            Ok(text) => r == Ok::<_, PromptError>(text),
            Err(error) => r == Err::<String, _>(PromptError::Template(error)),
        },
{
    match result {
        Ok(text) => Ok(text),
        Err(error) => Err(PromptError::Template(error)),
    }
}

/// Render the prompt from its template and the context, written as a JSON document. A field that
/// is absent renders empty: a missing optional field must not cost a review.
pub fn render(template: &str, context: &str) -> (r: Result<String, PromptError>)
    requires
        plain_template(template@),
    ensures
        match rendered_template(template@, context@) {
            Ok(text) => r is Ok && r->Ok_0@ == text,
            Err(error) => r matches Err(PromptError::Template(e)) && e@ == error,
        },
{
    rendered(render_template(template, context))
}

// --- what holds of every prompt ---

/// How many bytes of conventions are shown.
pub open spec fn bytes_shown(files: Seq<Convention>) -> nat
    decreases files.len(),
{
    if files.len() == 0 {
        0
    } else {
        bytes_shown(files.drop_last()) + files.last().shown_bytes
    }
}

proof fn what_fits_fits(s: Seq<char>, budget: nat)
    ensures
        byte_len(fitting(s, budget)) <= budget,
        fitting(s, budget).is_prefix_of(s),
        byte_len(s) <= budget ==> fitting(s, budget) == s,
    decreases s.len(),
{
    if s.len() == 0 {
        assert(vstd::utf8::encode_utf8(s) =~= Seq::<u8>::empty());
    } else if byte_len(s) > budget {
        what_fits_fits(s.drop_last(), budget);
        let part = fitting(s, budget);
        assert(s.subrange(0, part.len() as int) =~= s.drop_last().subrange(0, part.len() as int));
    }
}

/// Conventions never take more than their budget, whatever is in them.
pub proof fn conventions_stay_within_their_budget(read: Seq<ReadFile>, budget: nat)
    ensures
        bytes_shown(shown_of(read, budget).0) + shown_of(read, budget).1 == budget,
    decreases read.len(),
{
    if read.len() > 0 {
        conventions_stay_within_their_budget(read.drop_last(), budget);
        let before = shown_of(read.drop_last(), budget);
        let (path, content) = read.last();
        if !(met(read.drop_last(), path) || before.1 == 0 || content is None) {
            let next = shown(path, content->0, before.1);
            what_fits_fits(content->0, before.1);
            assert(before.0.push(next).drop_last() =~= before.0);
        }
    }
}

/// What is cut says so: a file is marked as cut exactly when less is shown than there was, and
/// what is shown is its beginning.
pub proof fn a_cut_is_stated(path: Seq<char>, content: Seq<char>, budget: nat)
    ensures
        shown(path, content, budget).truncated == (shown(path, content, budget).shown_bytes < shown(
            path,
            content,
            budget,
        ).total_bytes),
        shown(path, content, budget).content.is_prefix_of(content),
{
    what_fits_fits(content, budget);
}

/// The budget is spent in order: what comes later makes no difference to what is shown before.
pub proof fn what_comes_first_is_shown_first(read: Seq<ReadFile>, more: Seq<ReadFile>, budget: nat)
    ensures
        shown_of(read, budget).0.is_prefix_of(shown_of(read + more, budget).0),
    decreases more.len(),
{
    if more.len() == 0 {
        assert(read + more =~= read);
    } else {
        what_comes_first_is_shown_first(read, more.drop_last(), budget);
        assert((read + more).drop_last() =~= read + more.drop_last());
        let a = shown_of(read, budget).0;
        let b = shown_of(read + more.drop_last(), budget).0;
        let c = shown_of(read + more, budget).0;
        assert(c.subrange(0, a.len() as int) =~= b.subrange(0, a.len() as int));
    }
}

/// What is shown of conventions is the beginning of a file that could be read, the first of its
/// path; how much of it and of how much is told, and that it was cut exactly where it was.
pub proof fn what_is_shown_was_read(read: Seq<ReadFile>, budget: nat, i: int) -> (k: int)
    requires
        0 <= i < shown_of(read, budget).0.len(),
    ensures
        0 <= k < read.len(),
        read[k].0 == shown_of(read, budget).0[i].path,
        read[k].1 is Some,
        forall|j: int| 0 <= j < k ==> (#[trigger] read[j]).0 != read[k].0,
        shown_of(read, budget).0[i].content.is_prefix_of(read[k].1->0),
        shown_of(read, budget).0[i].total_bytes == byte_len(read[k].1->0),
        shown_of(read, budget).0[i].shown_bytes == byte_len(shown_of(read, budget).0[i].content),
        shown_of(read, budget).0[i].truncated == (shown_of(read, budget).0[i].content != read[k].1->0),
    decreases read.len(),
{
    if read.len() == 0 {
        0
    } else {
        let before = shown_of(read.drop_last(), budget);
        let (path, content) = read.last();
        if i < before.0.len() {
            let k = what_is_shown_was_read(read.drop_last(), budget, i);
            assert forall|j: int| 0 <= j < k implies (#[trigger] read[j]).0 != read[k].0 by {
                assert(read.drop_last()[j] == read[j]);
            }
            k
        } else {
            what_fits_fits(content->0, before.1);
            assert forall|j: int| 0 <= j < read.len() - 1 implies (#[trigger] read[j]).0 != path by {
                assert(read.drop_last()[j] == read[j]);
            }
            read.len() - 1
        }
    }
}

/// As much is shown as fits: a file that is cut has no room for one more character.
pub proof fn as_much_is_shown_as_fits(s: Seq<char>, budget: nat)
    ensures
        fitting(s, budget).is_prefix_of(s),
        byte_len(fitting(s, budget)) <= budget,
        byte_len(s) <= budget ==> fitting(s, budget) == s,
        fitting(s, budget).len() < s.len() ==> byte_len(
            s.take(fitting(s, budget).len() as int + 1),
        ) > budget,
    decreases s.len(),
{
    what_fits_fits(s, budget);
    if s.len() > 0 && byte_len(s) > budget {
        let shorter = s.drop_last();
        as_much_is_shown_as_fits(shorter, budget);
        let n = fitting(s, budget).len() as int;
        if n < shorter.len() {
            assert(shorter.take(n + 1) =~= s.take(n + 1));
        } else {
            assert(s.take(n + 1) =~= s);
        }
    }
}

/// Where there is room for all of them, every file that could be read is shown in full, the first of
/// its path.
pub proof fn with_room_everything_is_shown(read: Seq<ReadFile>, budget: nat, k: int) -> (i: int)
    requires
        0 <= k < read.len(),
        read[k].1 is Some,
        byte_len(read[k].1->0) > 0,
        forall|j: int| 0 <= j < k ==> (#[trigger] read[j]).0 != read[k].0,
        all_bytes(read) <= budget,
    ensures
        0 <= i < shown_of(read, budget).0.len(),
        shown_of(read, budget).0[i].path == read[k].0,
        shown_of(read, budget).0[i].content == read[k].1->0,
        !shown_of(read, budget).0[i].truncated,
    decreases read.len(),
{
    let before = shown_of(read.drop_last(), budget);
    all_bytes_left(read.drop_last(), budget);
    if k < read.len() - 1 {
        assert forall|j: int| 0 <= j < k implies (#[trigger] read.drop_last()[j]).0 != read.drop_last()[k].0 by {
            assert(read[j].0 != read[k].0);
        }
        let i = with_room_everything_is_shown(read.drop_last(), budget, k);
        assert(shown_of(read, budget).0[i] == before.0[i]);
        i
    } else {
        assert(!met(read.drop_last(), read[k].0)) by {
            assert forall|j: int| 0 <= j < read.len() - 1 implies (#[trigger] read.drop_last()[j]).0 != read[k].0 by {
                assert(read[j].0 != read[k].0);
            }
        }
        what_fits_fits(read[k].1->0, before.1);
        before.0.len() as int
    }
}

/// How many bytes were read in all.
pub open spec fn all_bytes(read: Seq<ReadFile>) -> nat
    decreases read.len(),
{
    if read.len() == 0 {
        0
    } else {
        all_bytes(read.drop_last()) + match read.last().1 {
            Some(content) => byte_len(content),
            None => 0,
        }
    }
}

proof fn all_bytes_left(read: Seq<ReadFile>, budget: nat)
    requires
        all_bytes(read) <= budget,
    ensures
        shown_of(read, budget).1 >= budget - all_bytes(read),
    decreases read.len(),
{
    if read.len() > 0 {
        all_bytes_left(read.drop_last(), budget);
        let before = shown_of(read.drop_last(), budget);
        let (path, content) = read.last();
        if !(met(read.drop_last(), path) || before.1 == 0 || content is None) {
            what_fits_fits(content->0, before.1);
            if byte_len(content->0) <= before.1 {
            }
        }
    }
}

/// What an engine is told of an earlier finding is that finding.
pub proof fn an_earlier_finding_is_told_as_it_was(prior: PriorFinding, finding: Finding)
    requires
        recalls(prior, finding),
    ensures
        prior.fingerprint@ == finding.fingerprint@,
        prior.severity@ == finding.severity.word(),
        prior.title@ == finding.title@,
        finding.file matches Some(file) ==> prior.file@ == file@,
        finding.file is None ==> prior.file@ == "(no file)"@,
{
}

/// Which files are read for conventions: the three that every repository may have and the one before
/// them, and those that it names, in order.
pub proof fn which_conventions_are_read(first: Seq<char>, named: Seq<Seq<char>>, i: int)
    ensures
        paths_to_read(first, named).len() == named.len() + 4,
        paths_to_read(first, named)[0] == first,
        paths_to_read(first, named)[1] == "AGENTS.md"@,
        paths_to_read(first, named)[2] == "CONTRIBUTING.md"@,
        paths_to_read(first, named)[3] == ".editorconfig"@,
        0 <= i < named.len() ==> paths_to_read(first, named)[4 + i] == named[i],
{
}

/// What is asked for in a category is asked for under its word, and tells what the category is about.
pub proof fn what_is_asked_for_in_a_category(entry: ScopeEntry, category: Category)
    requires
        covers(entry, category),
    ensures
        entry.name@ == category.word(),
        category is Correctness ==> "logic that produces a wrong result"@.is_prefix_of(entry.guidance@),
        category is Security ==> "untrusted input"@.is_prefix_of(entry.guidance@),
        category is Convention ==> "drift from the conventions"@.is_prefix_of(entry.guidance@),
        category is Tests ==> "behaviour this change introduces"@.is_prefix_of(entry.guidance@),
        category is Perf ==> "work that is superlinear"@.is_prefix_of(entry.guidance@),
        category is Other ==> "anything defensible"@.is_prefix_of(entry.guidance@),
{
    let said = entry.guidance@;
    match category {
        Category::Correctness => {
            reveal_strlit("logic that produces a wrong result or a crash. Name the inputs.");
            reveal_strlit("logic that produces a wrong result");
            assert(said.subrange(0, "logic that produces a wrong result"@.len() as int)
                =~= "logic that produces a wrong result"@);
        },
        Category::Security => {
            reveal_strlit(
                "untrusted input reaching somewhere it is trusted: injection, auth bypass, unsafe deserialization, secrets in code.",
            );
            reveal_strlit("untrusted input");
            assert(said.subrange(0, "untrusted input"@.len() as int) =~= "untrusted input"@);
        },
        Category::Convention => {
            reveal_strlit(
                "drift from the conventions stated above. Not from your own preferences — if this repository does not state it, it is not a finding.",
            );
            reveal_strlit("drift from the conventions");
            assert(said.subrange(0, "drift from the conventions"@.len() as int) =~= "drift from the conventions"@);
        },
        Category::Tests => {
            reveal_strlit(
                "behaviour this change introduces or alters that no test would catch regressing. Name the behaviour, not the coverage percentage.",
            );
            reveal_strlit("behaviour this change introduces");
            assert(said.subrange(0, "behaviour this change introduces"@.len() as int)
                =~= "behaviour this change introduces"@);
        },
        Category::Perf => {
            reveal_strlit("work that is superlinear where it need not be, on a path that runs often.");
            reveal_strlit("work that is superlinear");
            assert(said.subrange(0, "work that is superlinear"@.len() as int) =~= "work that is superlinear"@);
        },
        Category::Other => {
            reveal_strlit("anything defensible that the categories above do not cover.");
            reveal_strlit("anything defensible");
            assert(said.subrange(0, "anything defensible"@.len() as int) =~= "anything defensible"@);
        },
    }
}

/// A text without a brace is a plain template, and has no tags.
pub proof fn a_text_without_a_brace_is_plain(s: Seq<char>)
    requires
        forall|i: int| 0 <= i < s.len() ==> #[trigger] s[i] != '{',
    ensures
        plain_template(s),
        tags(s).1 == 0,
{
    no_brace_opens_nothing(s);
}

proof fn no_brace_opens_nothing(s: Seq<char>)
    requires
        forall|i: int| 0 <= i < s.len() ==> #[trigger] s[i] != '{',
    ensures
        tags(s).0 is Text || tags(s).0 is Backslash,
        tags(s).1 == 0,
        tags(s).2,
    decreases s.len(),
{
    if s.len() > 0 {
        let before = s.drop_last();
        assert forall|i: int| 0 <= i < before.len() implies #[trigger] before[i] != '{' by {
            assert(before[i] == s[i]);
        }
        assert(s.last() == s[s.len() - 1]);
        no_brace_opens_nothing(before);
    }
}

/// A tag that holds a plain name is counted, and a template is as plain with it as without; one before
/// which a backslash stands makes it not plain.
pub proof fn a_plain_tag_is_counted(s: Seq<char>, name: Seq<char>)
    requires
        tags(s).0 is Text,
        name.len() > 0,
        forall|i: int| 0 <= i < name.len() ==> is_plain_in_a_tag(#[trigger] name[i]),
    ensures
        tags(s + "{{"@ + name + "}}"@) == (Place::Text, (tags(s).1 + 1) as nat, tags(s).2),
        !tags(s + "\\{{"@).2,
{
    reveal_strlit("{{");
    reveal_strlit("}}");
    reveal_strlit("\\{{");
    let one = s.push('{');
    let two = one.push('{');
    assert(one.drop_last() =~= s);
    assert(two.drop_last() =~= one);
    assert(tags(one).0 is Brace);
    assert(tags(two).0 is Opened);
    assert(s + "{{"@ =~= two);
    inside_a_tag(two, name);
    let named = two + name;
    let closing = named.push('}');
    let closed = closing.push('}');
    assert(closing.drop_last() =~= named);
    assert(closed.drop_last() =~= closing);
    assert(s + "{{"@ + name + "}}"@ =~= closed);
    assert(tags(closing).0 is Closing);
    let back = s.push('\\');
    let back_one = back.push('{');
    let back_two = back_one.push('{');
    assert(back.drop_last() =~= s);
    assert(back_one.drop_last() =~= back);
    assert(back_two.drop_last() =~= back_one);
    assert(tags(back).0 is Backslash);
    assert(tags(back_one).0 is EscapedBrace);
    assert(s + "\\{{"@ =~= back_two);
}

/// Whether a character is plain wherever it stands in a tag.
pub open spec fn is_plain_in_a_tag(c: char) -> bool {
    c != '{' && c != '}' && c != '(' && c != '[' && c != '"' && c != '\'' && c != '*' && c != '>' && c != '!'
}

proof fn inside_a_tag(s: Seq<char>, name: Seq<char>)
    requires
        tags(s).0 is Opened,
        name.len() > 0,
        forall|i: int| 0 <= i < name.len() ==> is_plain_in_a_tag(#[trigger] name[i]),
    ensures
        tags(s + name) == (Place::Inside, tags(s).1, tags(s).2),
    decreases name.len(),
{
    let all = s + name;
    let before = name.drop_last();
    assert(all.drop_last() =~= s + before);
    assert(all.last() == name[name.len() - 1]);
    assert(is_plain_in_a_tag(name[name.len() - 1]));
    if before.len() == 0 {
        assert(s + before =~= s);
    } else {
        assert forall|i: int| 0 <= i < before.len() implies is_plain_in_a_tag(#[trigger] before[i]) by {
            assert(before[i] == name[i]);
        }
        inside_a_tag(s, before);
    }
}

/// What is no plain template stays none whatever is added to it, no tag is forgotten, and what begins
/// a list, a call, a quoted text or a further tag inside a tag is not plain.
pub proof fn what_is_not_plain_stays_so(s: Seq<char>, c: char)
    ensures
        !tags(s).2 ==> !tags(s.push(c)).2,
        tags(s).1 <= tags(s.push(c)).1 <= tags(s).1 + 1,
        tags(s).0 is Inside && (c == '{' || c == '(' || c == '[' || c == '"' || c == '\'' || c == '*' || c == '>')
            ==> !plain_template(s.push(c)),
        plain_template(s) ==> tags(s).1 <= 128,
{
    assert(s.push(c).drop_last() =~= s);
}

/// An error tells what was said, and where it was being written.
pub proof fn an_error_tells_what_was_said(detail: String, path: String, source: String)
    ensures
        within(PromptError::Template(detail).in_words(), detail@),
        within(PromptError::Write { path, source }.in_words(), path@),
        within(PromptError::Write { path, source }.in_words(), source@),
{
    stands_inside(
        "rev-local's review template failed to render: "@,
        detail@,
        "\n  this is a bug in rev-local, not in your configuration"@,
    );
    let head = "could not write the rendered prompt to "@;
    let none = Seq::<char>::empty();
    let all = PromptError::Write { path, source }.in_words();
    stands_inside(head, path@, ": "@ + source@);
    assert(head + path@ + (": "@ + source@) =~= all);
    stands_inside(head + path@ + ": "@, source@, none);
    assert(head + path@ + ": "@ + source@ + none =~= all);
}

} // verus!
