//! Depth selection: how closely a change is read, and why.
//!
//! # A depth is never chosen without a reason
//!
//! A [`DepthDecision`] carries every reason that produced it, so that a large change that
//! was only summarised says so.
//!
//! # When size says summary and risk says deep, risk wins
//!
//! A summary is a *cost* degradation: the diff is too large to read carefully. A deep review
//! is a *risk* escalation. Letting cost quietly downgrade a review that matters would look
//! exactly like a clean one. The reason that lost is still recorded.

use vstd::prelude::*;

use crate::globs::{build_globset, first_match, globset_hit, patterns_usable};
use crate::model::{Depth, DiffStat, Finding, RepoConfig, Severity};
use crate::text::{
    after_last, after_last_means, after_last_of_sum, cat3, cat5, decimal, ends_with, first_index, first_index_is,
    first_index_means, first_index_none, lower_char, lower_chars, lowered, lowered_means, lowered_of_sum,
    lowered_twice, num, one_of, push_contains, same, stands_inside, strs, tail_after, text_of, texts, within,
    word_prefix, word_within,
};
use crate::truncation::file_name;

verus! {

/// Changed lines above which a change is summarised.
pub const MAX_DEEP_LINES: u64 = 20_000;

/// Extensions that make a file documentation.
pub open spec fn doc_extensions() -> Seq<Seq<char>> {
    seq!["md"@, "rst"@, "txt"@, "adoc"@, "markdown"@]
}

/// Filenames that are lockfiles, beyond those that end in `.lock`.
pub open spec fn lockfile_names() -> Seq<Seq<char>> {
    seq![
        "package-lock.json"@,
        "yarn.lock"@,
        "pnpm-lock.yaml"@,
        "npm-shrinkwrap.json"@,
        "composer.lock"@,
        "gemfile.lock"@,
        "poetry.lock"@,
        "pipfile.lock"@,
        "go.sum"@,
        "cargo.lock"@,
    ]
}

/// Parts of a path that make it security-relevant.
///
/// They match more than they should, which is the right way to be wrong: a wasted deep
/// review costs minutes, a missed one costs more.
pub open spec fn security_words() -> Seq<Seq<char>> {
    seq!["auth"@, "crypto"@, "payment"@, "passwd"@, "password"@, "secret"@]
}

/// Where CI is configured. A change there can reach whatever the CI system holds.
pub open spec fn ci_prefixes() -> Seq<Seq<char>> {
    seq![
        ".github/workflows/"@,
        ".github/actions/"@,
        ".circleci/"@,
        ".gitlab-ci.yml"@,
        "azure-pipelines.yml"@,
        "jenkinsfile"@,
        ".buildkite/"@,
        ".drone.yml"@,
    ]
}

fn doc_extension_words() -> (r: Vec<&'static str>)
    ensures
        strs(r@) == doc_extensions(),
{
    let r = vec!["md", "rst", "txt", "adoc", "markdown"];
    assert(strs(r@) =~= doc_extensions());
    r
}

fn lockfile_name_words() -> (r: Vec<&'static str>)
    ensures
        strs(r@) == lockfile_names(),
{
    let r = vec![
        "package-lock.json", "yarn.lock", "pnpm-lock.yaml", "npm-shrinkwrap.json", "composer.lock",
        "gemfile.lock", "poetry.lock", "pipfile.lock", "go.sum", "cargo.lock",
    ];
    assert(strs(r@) =~= lockfile_names());
    r
}

fn security_word_list() -> (r: Vec<&'static str>)
    ensures
        strs(r@) == security_words(),
{
    let r = vec!["auth", "crypto", "payment", "passwd", "password", "secret"];
    assert(strs(r@) =~= security_words());
    r
}

fn ci_prefix_words() -> (r: Vec<&'static str>)
    ensures
        strs(r@) == ci_prefixes(),
{
    let r = vec![
        ".github/workflows/", ".github/actions/", ".circleci/", ".gitlab-ci.yml", "azure-pipelines.yml",
        "jenkinsfile", ".buildkite/", ".drone.yml",
    ];
    assert(strs(r@) =~= ci_prefixes());
    r
}

/// Whether a path is documentation or a lockfile, capitals aside.
///
/// A file without an extension is neither: a `Dockerfile` is code.
pub open spec fn doc_or_lockfile(path: Seq<char>) -> bool {
    let lower = lowered(path);
    let name = file_name(lower);
    ||| ".lock"@.is_suffix_of(lower)
    ||| lockfile_names().contains(name)
    ||| (name.contains('.') && doc_extensions().contains(after_last(name, '.')))
}

/// Whether a path is documentation or a lockfile.
pub fn is_doc_or_lockfile(path: &str) -> (r: bool)
    ensures
        r == doc_or_lockfile(path@),
{
    let chars = lower_chars(path);
    let lower = text_of(&chars, 0, chars.len());
    assert(lower@ =~= lowered(path@));
    let (name, _) = tail_after(&chars, '/');
    if ends_with(lower.as_str(), ".lock") || one_of(name.as_str(), &lockfile_name_words()) {
        return true;
    }
    let name_chars = crate::text::chars_of(name.as_str());
    let (ext, dotted) = tail_after(&name_chars, '.');
    dotted && one_of(ext.as_str(), &doc_extension_words())
}

/// The security pattern that a path matches, if any, capitals aside.
pub open spec fn security_match(path: Seq<char>) -> Option<Seq<char>> {
    let lower = lowered(path);
    if ".sql"@.is_suffix_of(lower) {
        Some("*.sql"@)
    } else {
        match first_index(ci_prefixes(), |w: Seq<char>| w.is_prefix_of(lower)) {
            Some(i) => Some(ci_prefixes()[i]),
            None => if file_name(lower) == "jenkinsfile"@ {
                Some("jenkinsfile"@)
            } else {
                match first_index(security_words(), |w: Seq<char>| within(lower, w)) {
                    Some(i) => Some(security_words()[i]),
                    None => None,
                }
            },
        }
    }
}

/// Which security pattern a path matches, if any.
pub fn security_pattern(path: &str) -> (r: Option<&'static str>)
    ensures
        crate::text::opt_str(r) == security_match(path@),
{
    let lower = lower_chars(path);
    let ghost low = lowered(path@);
    let text = text_of(&lower, 0, lower.len());
    assert(text@ =~= low);
    if ends_with(text.as_str(), ".sql") {
        return Some("*.sql");
    }
    let prefixes = ci_prefix_words();
    let found = word_prefix(&lower, &prefixes);
    let ghost begins = |w: Seq<char>| w.is_prefix_of(low);
    match found {
        Some(i) => {
            proof {
                assert forall|j: int| 0 <= j < i implies !begins(#[trigger] ci_prefixes()[j]) by {
                    assert(!strs(prefixes@)[j].is_prefix_of(low));
                }
                first_index_is(ci_prefixes(), begins, i as int);
                assert(strs(prefixes@)[i as int] == prefixes@[i as int]@);
            }
            return Some(prefixes[i]);
        },
        None => {
            proof {
                assert forall|j: int| 0 <= j < ci_prefixes().len() implies !begins(
                    #[trigger] ci_prefixes()[j],
                ) by {
                    assert(strs(prefixes@).len() == prefixes@.len());
                    assert(!strs(prefixes@)[j].is_prefix_of(low));
                }
                first_index_none(ci_prefixes(), begins);
            }
        },
    }
    // A Jenkinsfile can live anywhere in the tree.
    let (name, _) = tail_after(&lower, '/');
    if same(name.as_str(), "jenkinsfile") {
        return Some("jenkinsfile");
    }
    let words = security_word_list();
    let hit = word_within(&lower, &words);
    let ghost holds = |w: Seq<char>| within(low, w);
    match hit {
        Some(i) => {
            proof {
                assert forall|j: int| 0 <= j < i implies !holds(#[trigger] security_words()[j]) by {
                    assert(!within(low, strs(words@)[j]));
                }
                first_index_is(security_words(), holds, i as int);
                assert(strs(words@)[i as int] == words@[i as int]@);
            }
            Some(words[i])
        },
        None => {
            proof {
                assert forall|j: int| 0 <= j < security_words().len() implies !holds(
                    #[trigger] security_words()[j],
                ) by {
                    assert(!within(low, strs(words@)[j]));
                }
                first_index_none(security_words(), holds);
            }
            None
        },
    }
}

// --- reasons ---

/// Why a depth was chosen.
#[derive(Clone, Debug, PartialEq, Eq)]
pub enum DepthReason {
    /// More files than the limit.
    TooManyFiles {
        /// How many the change touches.
        files: u32,
        /// The configured ceiling.
        limit: u32,
    },
    /// More changed lines than [`MAX_DEEP_LINES`].
    TooManyLines {
        /// Insertions plus deletions.
        lines: u64,
        /// The ceiling.
        limit: u64,
    },
    /// Every path is documentation or a lockfile.
    DocsOrLockfilesOnly,
    /// A path matched the repository's sensitive globs.
    SensitivePath {
        /// The first matching path.
        path: String,
    },
    /// A path matched one of the built-in security patterns.
    SecurityPattern {
        /// The first matching path.
        path: String,
        /// Which pattern matched.
        pattern: String,
    },
    /// The change carries a label that asks for a deep review.
    DeepLabel {
        /// The label.
        label: String,
    },
    /// A standard run reported a serious finding.
    SeverityEscalation {
        /// The finding's fingerprint.
        fingerprint: String,
        /// How bad it was.
        severity: Severity,
    },
    /// The sensitive globs did not compile, so every path is treated as sensitive: a typo in
    /// a setting must never quietly reduce scrutiny.
    SensitiveGlobsInvalid,
    /// Nothing special.
    Default,
}

/// What a reason says.
pub enum Ground {
    /// More files than the limit.
    TooManyFiles { files: nat, limit: nat },
    /// More changed lines than the limit.
    TooManyLines { lines: nat, limit: nat },
    /// Every path is documentation or a lockfile.
    DocsOrLockfilesOnly,
    /// A path matched the sensitive globs.
    SensitivePath { path: Seq<char> },
    /// A path matched a security pattern.
    SecurityPattern { path: Seq<char>, pattern: Seq<char> },
    /// A label asks for it.
    DeepLabel { label: Seq<char> },
    /// A serious finding.
    SeverityEscalation { fingerprint: Seq<char>, severity: Severity },
    /// The sensitive globs did not compile.
    SensitiveGlobsInvalid,
    /// Nothing special.
    Default,
}

impl View for DepthReason {
    type V = Ground;

    open spec fn view(&self) -> Ground {
        match *self {
            DepthReason::TooManyFiles { files, limit } => Ground::TooManyFiles {
                files: files as nat,
                limit: limit as nat,
            },
            DepthReason::TooManyLines { lines, limit } => Ground::TooManyLines {
                lines: lines as nat,
                limit: limit as nat,
            },
            DepthReason::DocsOrLockfilesOnly => Ground::DocsOrLockfilesOnly,
            DepthReason::SensitivePath { path } => Ground::SensitivePath { path: path@ },
            DepthReason::SecurityPattern { path, pattern } => Ground::SecurityPattern {
                path: path@,
                pattern: pattern@,
            },
            DepthReason::DeepLabel { label } => Ground::DeepLabel { label: label@ },
            DepthReason::SeverityEscalation { fingerprint, severity } => Ground::SeverityEscalation {
                fingerprint: fingerprint@,
                severity,
            },
            DepthReason::SensitiveGlobsInvalid => Ground::SensitiveGlobsInvalid,
            DepthReason::Default => Ground::Default,
        }
    }
}

impl Ground {
    /// The depth that this alone implies.
    pub open spec fn implied(self) -> Depth {
        match self {
            Ground::TooManyFiles { .. } => Depth::Summary,
            Ground::TooManyLines { .. } => Depth::Summary,
            Ground::DocsOrLockfilesOnly => Depth::Summary,
            Ground::Default => Depth::Standard,
            _ => Depth::Deep,
        }
    }

    /// A one-line explanation.
    pub open spec fn description(self) -> Seq<char> {
        match self {
            Ground::TooManyFiles { files, limit } => decimal(files)
                + " files changed, over the limit of "@ + decimal(limit),
            Ground::TooManyLines { lines, limit } => decimal(lines)
                + " lines changed, over the limit of "@ + decimal(limit),
            Ground::DocsOrLockfilesOnly => "only documentation and lockfiles changed"@,
            Ground::SensitivePath { path } => "`"@ + path + "` matches this repo's sensitive_globs"@,
            Ground::SecurityPattern { path, pattern } => "`"@ + path
                + "` looks security-relevant (matched `"@ + pattern + "`)"@,
            Ground::DeepLabel { label } => "labelled `"@ + label + "`"@,
            Ground::SeverityEscalation { fingerprint, severity } => "the standard review found a "@
                + severity.word() + " issue ("@ + fingerprint + ")"@,
            Ground::SensitiveGlobsInvalid => "sensitive_globs did not compile, so every path is treated as sensitive"@,
            Ground::Default => "no rule applied"@,
        }
    }
}

/// What each reason of a list says.
pub open spec fn grounds(v: Seq<DepthReason>) -> Seq<Ground> {
    v.map_values(|r: DepthReason| r@)
}

impl DepthReason {
    /// The depth this reason on its own implies.
    pub fn implies(&self) -> (r: Depth)
        ensures
            r == self@.implied(),
    {
        match self {
            Self::TooManyFiles { .. } | Self::TooManyLines { .. } | Self::DocsOrLockfilesOnly => Depth::Summary,
            Self::SensitivePath { .. }
            | Self::SecurityPattern { .. }
            | Self::DeepLabel { .. }
            | Self::SeverityEscalation { .. }
            | Self::SensitiveGlobsInvalid => Depth::Deep,
            Self::Default => Depth::Standard,
        }
    }

    /// A one-line explanation for the UI and the run record.
    pub fn describe(&self) -> (r: String)
        ensures
            r@ == self@.description(),
    {
        match self {
            Self::TooManyFiles { files, limit } => cat3(
                num(*files as u64).as_str(),
                " files changed, over the limit of ",
                num(*limit as u64).as_str(),
            ),
            Self::TooManyLines { lines, limit } => cat3(
                num(*lines).as_str(),
                " lines changed, over the limit of ",
                num(*limit).as_str(),
            ),
            Self::DocsOrLockfilesOnly => "only documentation and lockfiles changed".to_owned(),
            Self::SensitivePath { path } => cat3(
                "`",
                path.as_str(),
                "` matches this repo's sensitive_globs",
            ),
            Self::SecurityPattern { path, pattern } => cat5(
                "`",
                path.as_str(),
                "` looks security-relevant (matched `",
                pattern.as_str(),
                "`)",
            ),
            Self::DeepLabel { label } => cat3("labelled `", label.as_str(), "`"),
            Self::SeverityEscalation { fingerprint, severity } => cat5(
                "the standard review found a ",
                severity.as_str(),
                " issue (",
                fingerprint.as_str(),
                ")",
            ),
            Self::SensitiveGlobsInvalid => "sensitive_globs did not compile, so every path is treated as sensitive".to_owned(),
            Self::Default => "no rule applied".to_owned(),
        }
    }
}

// --- decisions ---

/// A depth and everything that argued for it.
#[derive(Clone, Debug, PartialEq, Eq)]
pub struct DepthDecision {
    /// The depth to run at.
    pub depth: Depth,
    /// Every reason that fired, deep ones first. Never empty.
    pub reasons: Vec<DepthReason>,
}

/// The grounds of a list that imply one depth, in order.
pub open spec fn only(gs: Seq<Ground>, depth: Depth) -> Seq<Ground>
    decreases gs.len(),
{
    if gs.len() == 0 {
        Seq::empty()
    } else if gs.last().implied() == depth {
        only(gs.drop_last(), depth).push(gs.last())
    } else {
        only(gs.drop_last(), depth)
    }
}

/// The grounds of a list, the deepest first, and otherwise in the order given.
pub open spec fn deepest_first(gs: Seq<Ground>) -> Seq<Ground> {
    only(gs, Depth::Deep) + only(gs, Depth::Standard) + only(gs, Depth::Summary)
}

/// The deepest depth that any ground of a list implies.
pub open spec fn deepest(gs: Seq<Ground>) -> Depth {
    if exists|i: int| 0 <= i < gs.len() && (#[trigger] gs[i]).implied() == Depth::Deep {
        Depth::Deep
    } else if exists|i: int| 0 <= i < gs.len() && (#[trigger] gs[i]).implied() == Depth::Standard {
        Depth::Standard
    } else {
        Depth::Summary
    }
}

/// The grounds that a decision goes by: those that fired, or the default when none did.
pub open spec fn or_default(gs: Seq<Ground>) -> Seq<Ground> {
    if gs.len() == 0 {
        seq![Ground::Default]
    } else {
        gs
    }
}

impl DepthDecision {
    /// Whether a decision is what a list of grounds comes to.
    pub open spec fn follows_from(self, gs: Seq<Ground>) -> bool {
        &&& self.depth == deepest(or_default(gs))
        &&& grounds(self.reasons@) == deepest_first(or_default(gs))
        &&& self.reasons@.len() > 0
    }

    /// Resolve a set of reasons into a decision: the deepest wins.
    fn resolve(fired: Vec<DepthReason>) -> (r: DepthDecision)
        ensures
            r.follows_from(grounds(fired@)),
    {
        let mut reasons = fired;
        let ghost gs = or_default(grounds(fired@));
        if reasons.is_empty() {
            reasons.push(DepthReason::Default);
        }
        assert(grounds(reasons@) =~= gs);
        let mut deep: Vec<DepthReason> = Vec::new();
        let mut standard: Vec<DepthReason> = Vec::new();
        let mut summary: Vec<DepthReason> = Vec::new();
        let ghost mut done: int = 0;
        proof {
            assert(gs.take(0) =~= Seq::empty());
            assert(gs.skip(0) =~= gs);
            assert(grounds(deep@) =~= Seq::empty());
            assert(grounds(standard@) =~= Seq::empty());
            assert(grounds(summary@) =~= Seq::empty());
        }
        while !reasons.is_empty()
            invariant
                0 <= done <= gs.len(),
                grounds(reasons@) == gs.skip(done),
                grounds(deep@) == only(gs.take(done), Depth::Deep),
                grounds(standard@) == only(gs.take(done), Depth::Standard),
                grounds(summary@) == only(gs.take(done), Depth::Summary),
                deep.len() + standard.len() + summary.len() == done,
                deep.len() > 0 <==> exists|i: int|
                    0 <= i < done && (#[trigger] gs[i]).implied() == Depth::Deep,
                standard.len() > 0 <==> exists|i: int|
                    0 <= i < done && (#[trigger] gs[i]).implied() == Depth::Standard,
            decreases reasons.len(),
        {
            let ghost before = grounds(reasons@);
            let ghost deep_before = grounds(deep@);
            let ghost standard_before = grounds(standard@);
            let ghost summary_before = grounds(summary@);
            assert(before.len() == reasons@.len());
            let reason = reasons.remove(0);
            let ghost g = reason@;
            proof {
                assert(g == before[0]);
                assert(gs[done] == g);
                assert forall|j: int| 0 <= j < reasons@.len() implies #[trigger] grounds(reasons@)[j] == gs.skip(
                    done + 1,
                )[j] by {
                    assert(before[j + 1] == gs.skip(done)[j + 1]);
                    assert(grounds(reasons@)[j] == before[j + 1]);
                }
                assert(grounds(reasons@) =~= gs.skip(done + 1));
                assert(gs.take(done + 1).drop_last() =~= gs.take(done));
                assert(gs.take(done + 1).last() == g);
            }
            match reason.implies() {
                Depth::Deep => {
                    deep.push(reason);
                    assert(grounds(deep@) =~= deep_before.push(g));
                },
                Depth::Standard => {
                    standard.push(reason);
                    assert(grounds(standard@) =~= standard_before.push(g));
                },
                Depth::Summary => {
                    summary.push(reason);
                    assert(grounds(summary@) =~= summary_before.push(g));
                },
            }
            proof {
                done = done + 1;
            }
        }
        proof {
            assert(grounds(reasons@).len() == 0);
            assert(done == gs.len());
            assert(gs.take(done) =~= gs);
        }
        let depth = if !deep.is_empty() {
            Depth::Deep
        } else if !standard.is_empty() {
            Depth::Standard
        } else {
            Depth::Summary
        };
        let ghost a = deep@;
        let ghost b = standard@;
        let ghost c = summary@;
        let mut all = deep;
        let mut second = standard;
        let mut third = summary;
        all.append(&mut second);
        all.append(&mut third);
        proof {
            assert(all@ =~= a + b + c);
            assert(grounds(all@) =~= grounds(a) + grounds(b) + grounds(c));
        }
        DepthDecision { depth, reasons: all }
    }

    /// Whether some reason argued for another depth than the one chosen.
    pub open spec fn contested(self) -> bool {
        exists|i: int|
            0 <= i < self.reasons@.len() && (#[trigger] self.reasons@[i])@.implied() != self.depth
    }

    /// Whether any reason forced this depth against another: when the decision is worth
    /// explaining unprompted.
    pub fn is_contested(&self) -> (r: bool)
        ensures
            r == self.contested(),
    {
        let mut i: usize = 0;
        while i < self.reasons.len()
            invariant
                i <= self.reasons.len(),
                forall|j: int| 0 <= j < i ==> (#[trigger] self.reasons@[j])@.implied() == self.depth,
            decreases self.reasons.len() - i,
        {
            if self.reasons[i].implies() != self.depth {
                return true;
            }
            i += 1;
        }
        false
    }

    /// The reasons rendered for a human, deepest first.
    pub fn explain(&self) -> (r: Vec<String>)
        ensures
            texts(r@) == grounds(self.reasons@).map_values(|g: Ground| g.description()),
    {
        let mut r: Vec<String> = Vec::new();
        let mut i: usize = 0;
        while i < self.reasons.len()
            invariant
                i <= self.reasons.len(),
                r.len() == i,
                forall|j: int| 0 <= j < i ==> (#[trigger] r@[j])@ == self.reasons@[j]@.description(),
            decreases self.reasons.len() - i,
        {
            r.push(self.reasons[i].describe());
            i += 1;
        }
        assert(texts(r@) =~= grounds(self.reasons@).map_values(|g: Ground| g.description()));
        r
    }
}

// --- selection ---

/// Lines added and removed together, as many as can be counted.
pub open spec fn changed_lines(stat: DiffStat) -> nat {
    if stat.insertions + stat.deletions > u64::MAX {
        u64::MAX as nat
    } else {
        (stat.insertions + stat.deletions) as nat
    }
}

/// Whether a change is nothing but documentation and lockfiles. A change whose paths are not
/// known is not.
pub open spec fn docs_only(paths: Seq<Seq<char>>) -> bool {
    paths.len() > 0 && forall|i: int| 0 <= i < paths.len() ==> doc_or_lockfile(#[trigger] paths[i])
}

/// Whether a label is one of those that ask for a deep review, capitals aside.
pub open spec fn asks_deep(label: Seq<char>, deep_labels: Seq<Seq<char>>) -> bool {
    exists|i: int| 0 <= i < deep_labels.len() && lowered(#[trigger] deep_labels[i]) == lowered(label)
}

/// The grounds that size gives.
pub open spec fn size_grounds(stat: DiffStat, config: RepoConfig) -> Seq<Ground> {
    let files: Seq<Ground> = if stat.files > config.deep_file_limit {
        seq![Ground::TooManyFiles { files: stat.files as nat, limit: config.deep_file_limit as nat }]
    } else {
        seq![]
    };
    let lines: Seq<Ground> = if changed_lines(stat) > MAX_DEEP_LINES {
        seq![Ground::TooManyLines { lines: changed_lines(stat), limit: MAX_DEEP_LINES as nat }]
    } else {
        seq![]
    };
    files + lines
}

/// The ground that the kind of files gives.
pub open spec fn docs_ground(paths: Seq<Seq<char>>) -> Seq<Ground> {
    if docs_only(paths) {
        seq![Ground::DocsOrLockfilesOnly]
    } else {
        seq![]
    }
}

/// The ground that the repository's own sensitive globs give.
pub open spec fn sensitive_ground(paths: Seq<Seq<char>>, config: RepoConfig) -> Seq<Ground> {
    let globs = texts(config.sensitive_globs@);
    if patterns_usable(globs) {
        match first_index(paths, |p: Seq<char>| globset_hit(globs, p)) {
            Some(i) => seq![Ground::SensitivePath { path: paths[i] }],
            None => seq![],
        }
    } else {
        seq![Ground::SensitiveGlobsInvalid]
    }
}

/// The ground that the built-in security patterns give.
pub open spec fn security_ground(paths: Seq<Seq<char>>) -> Seq<Ground> {
    match first_index(paths, |p: Seq<char>| security_match(p) is Some) {
        Some(i) => seq![
            Ground::SecurityPattern { path: paths[i], pattern: security_match(paths[i])->0 },
        ],
        None => seq![],
    }
}

/// The ground that labels give.
pub open spec fn label_ground(labels: Seq<Seq<char>>, config: RepoConfig) -> Seq<Ground> {
    match first_index(labels, |l: Seq<char>| asks_deep(l, texts(config.deep_labels@))) {
        Some(i) => seq![Ground::DeepLabel { label: labels[i] }],
        None => seq![],
    }
}

/// Every ground that a change gives, in the order they are looked for.
pub open spec fn change_grounds(
    paths: Seq<Seq<char>>,
    stat: DiffStat,
    labels: Seq<Seq<char>>,
    config: RepoConfig,
) -> Seq<Ground> {
    size_grounds(stat, config) + docs_ground(paths) + sensitive_ground(paths, config) + security_ground(
        paths,
    ) + label_ground(labels, config)
}

fn all_docs(paths: &Vec<String>) -> (r: bool)
    ensures
        r == docs_only(texts(paths@)),
{
    let ghost t = texts(paths@);
    if paths.is_empty() {
        return false;
    }
    let mut i: usize = 0;
    while i < paths.len()
        invariant
            i <= paths.len(),
            t == texts(paths@),
            forall|j: int| 0 <= j < i ==> doc_or_lockfile(#[trigger] t[j]),
        decreases paths.len() - i,
    {
        if !is_doc_or_lockfile(paths[i].as_str()) {
            assert(!doc_or_lockfile(t[i as int]));
            return false;
        }
        assert(t[i as int] == paths@[i as int]@);
        i += 1;
    }
    true
}

fn first_sensitive(paths: &Vec<String>, config: &RepoConfig) -> (r: Vec<DepthReason>)
    ensures
        grounds(r@) == sensitive_ground(texts(paths@), *config),
{
    let ghost t = texts(paths@);
    let ghost globs = texts(config.sensitive_globs@);
    let ghost hits = |p: Seq<char>| globset_hit(globs, p);
    let mut r: Vec<DepthReason> = Vec::new();
    match build_globset(&config.sensitive_globs) {
        Some(set) => match first_match(&set, paths) {
            Some(i) => {
                proof {
                    assert forall|j: int| 0 <= j < i implies !hits(#[trigger] t[j]) by {
                        assert(!globset_hit(globs, paths@[j]@));
                    }
                    first_index_is(t, hits, i as int);
                }
                r.push(DepthReason::SensitivePath { path: paths[i].clone() });
            },
            None => {
                proof {
                    assert forall|j: int| 0 <= j < t.len() implies !hits(#[trigger] t[j]) by {
                        assert(!globset_hit(globs, paths@[j]@));
                    }
                    first_index_none(t, hits);
                }
            },
        },
        None => {
            r.push(DepthReason::SensitiveGlobsInvalid);
        },
    }
    assert(grounds(r@) =~= sensitive_ground(t, *config));
    r
}

fn first_security(paths: &Vec<String>) -> (r: Vec<DepthReason>)
    ensures
        grounds(r@) == security_ground(texts(paths@)),
{
    let ghost t = texts(paths@);
    let ghost matched = |p: Seq<char>| security_match(p) is Some;
    let mut r: Vec<DepthReason> = Vec::new();
    let mut i: usize = 0;
    while i < paths.len()
        invariant
            i <= paths.len(),
            t == texts(paths@),
            r@.len() == 0,
            matched == (|p: Seq<char>| security_match(p) is Some),
            forall|j: int| 0 <= j < i ==> !matched(#[trigger] t[j]),
        decreases paths.len() - i,
    {
        assert(t[i as int] == paths@[i as int]@);
        if let Some(pattern) = security_pattern(paths[i].as_str()) {
            proof {
                first_index_is(t, matched, i as int);
            }
            r.push(
                DepthReason::SecurityPattern { path: paths[i].clone(), pattern: pattern.to_owned() },
            );
            assert(grounds(r@) =~= security_ground(t));
            return r;
        }
        i += 1;
    }
    proof {
        first_index_none(t, matched);
    }
    assert(grounds(r@) =~= security_ground(t));
    r
}

fn label_asks_deep(label: &str, deep_labels: &Vec<String>) -> (r: bool)
    ensures
        r == asks_deep(label@, texts(deep_labels@)),
{
    let ghost t = texts(deep_labels@);
    let mine = lower_chars(label);
    let mine_text = text_of(&mine, 0, mine.len());
    assert(mine_text@ =~= lowered(label@));
    let mut i: usize = 0;
    while i < deep_labels.len()
        invariant
            i <= deep_labels.len(),
            t == texts(deep_labels@),
            mine_text@ == lowered(label@),
            forall|j: int| 0 <= j < i ==> lowered(#[trigger] t[j]) != lowered(label@),
        decreases deep_labels.len() - i,
    {
        let other = lower_chars(deep_labels[i].as_str());
        let other_text = text_of(&other, 0, other.len());
        assert(other_text@ =~= lowered(t[i as int]));
        if same(other_text.as_str(), mine_text.as_str()) {
            return true;
        }
        i += 1;
    }
    false
}

fn first_deep_label(labels: &Vec<String>, config: &RepoConfig) -> (r: Vec<DepthReason>)
    ensures
        grounds(r@) == label_ground(texts(labels@), *config),
{
    let ghost t = texts(labels@);
    let ghost asks = |l: Seq<char>| asks_deep(l, texts(config.deep_labels@));
    let mut r: Vec<DepthReason> = Vec::new();
    let mut i: usize = 0;
    while i < labels.len()
        invariant
            i <= labels.len(),
            t == texts(labels@),
            r@.len() == 0,
            asks == (|l: Seq<char>| asks_deep(l, texts(config.deep_labels@))),
            forall|j: int| 0 <= j < i ==> !asks(#[trigger] t[j]),
        decreases labels.len() - i,
    {
        assert(t[i as int] == labels@[i as int]@);
        if label_asks_deep(labels[i].as_str(), &config.deep_labels) {
            proof {
                first_index_is(t, asks, i as int);
            }
            r.push(DepthReason::DeepLabel { label: labels[i].clone() });
            assert(grounds(r@) =~= label_ground(t, *config));
            return r;
        }
        i += 1;
    }
    proof {
        first_index_none(t, asks);
    }
    assert(grounds(r@) =~= label_ground(t, *config));
    r
}

/// What argues for no more than a summary.
fn summary_reasons(paths: &Vec<String>, diff_stat: &DiffStat, config: &RepoConfig) -> (r: Vec<DepthReason>)
    ensures
        grounds(r@) == size_grounds(*diff_stat, *config) + docs_ground(texts(paths@)),
{
    let mut reasons: Vec<DepthReason> = Vec::new();
    if diff_stat.files > config.deep_file_limit {
        reasons.push(
            DepthReason::TooManyFiles { files: diff_stat.files, limit: config.deep_file_limit },
        );
    }
    let lines: u64 = diff_stat.insertions.saturating_add(diff_stat.deletions);
    if lines > MAX_DEEP_LINES {
        reasons.push(DepthReason::TooManyLines { lines, limit: MAX_DEEP_LINES });
    }
    assert(grounds(reasons@) =~= size_grounds(*diff_stat, *config));
    if all_docs(paths) {
        reasons.push(DepthReason::DocsOrLockfilesOnly);
    }
    assert(grounds(reasons@) =~= size_grounds(*diff_stat, *config) + docs_ground(texts(paths@)));
    reasons
}

proof fn grounds_of_sum(a: Seq<DepthReason>, b: Seq<DepthReason>)
    ensures
        grounds(a + b) == grounds(a) + grounds(b),
{
    assert(grounds(a + b) =~= grounds(a) + grounds(b));
}

/// Choose the depth for a change before it is reviewed.
///
/// `paths` are those that will actually be reviewed, ignored ones gone: two hundred vendored
/// files and one line of authentication code are a one-file change.
pub fn select(paths: &Vec<String>, diff_stat: &DiffStat, labels: &Vec<String>, config: &RepoConfig) -> (r:
    DepthDecision)
    ensures
        r.follows_from(change_grounds(texts(paths@), *diff_stat, texts(labels@), *config)),
{
    let mut reasons = summary_reasons(paths, diff_stat, config);
    let mut sensitive = first_sensitive(paths, config);
    let mut security = first_security(paths);
    let mut labelled = first_deep_label(labels, config);
    proof {
        grounds_of_sum(reasons@, sensitive@);
        grounds_of_sum(reasons@ + sensitive@, security@);
        grounds_of_sum(reasons@ + sensitive@ + security@, labelled@);
    }
    reasons.append(&mut sensitive);
    reasons.append(&mut security);
    reasons.append(&mut labelled);
    DepthDecision::resolve(reasons)
}

// --- escalation ---

/// Whether a severity calls for a deeper look.
pub open spec fn is_serious(severity: Severity) -> bool {
    severity == Severity::Critical || severity == Severity::High
}

/// Whether `i` is the finding that an escalation names: a serious one, none worse, and the
/// earliest among equals, so that the reason does not depend on what else was reported.
pub open spec fn worst_at(findings: Seq<Finding>, i: int) -> bool {
    &&& 0 <= i < findings.len()
    &&& is_serious(findings[i].severity)
    &&& forall|j: int|
        0 <= j < findings.len() ==> (#[trigger] findings[j]).severity.level()
            <= findings[i].severity.level()
    &&& forall|j: int|
        0 <= j < i ==> (#[trigger] findings[j]).severity.level() < findings[i].severity.level()
}

/// Whether a finished review is owed a deeper one.
pub open spec fn escalates(current: Depth, findings: Seq<Finding>) -> bool {
    current == Depth::Standard && exists|i: int|
        0 <= i < findings.len() && is_serious((#[trigger] findings[i]).severity)
}

/// Whether a completed run's findings require a deeper re-run.
///
/// Only a standard run escalates, which makes "exactly once" a matter of structure: a deep
/// run has nowhere deeper to go. A summary ran because the diff was too large or too dull to
/// read properly, and none of that changed because it noticed something.
pub fn escalate(current: Depth, findings: &Vec<Finding>) -> (r: Option<DepthDecision>)
    ensures
        r is Some == escalates(current, findings@),
        r matches Some(decision) ==> {
            &&& decision.depth == Depth::Deep
            &&& exists|i: int| #[trigger]
                worst_at(findings@, i) && grounds(decision.reasons@) == seq![
                    Ground::SeverityEscalation {
                        fingerprint: findings@[i].fingerprint@,
                        severity: findings@[i].severity,
                    },
                ]
        },
{
    if current != Depth::Standard {
        return None;
    }
    let mut worst: Option<usize> = None;
    let mut i: usize = 0;
    while i < findings.len()
        invariant
            i <= findings.len(),
            match worst {
                Some(w) => {
                    &&& w < i
                    &&& is_serious(findings@[w as int].severity)
                    &&& forall|j: int|
                        0 <= j < i ==> (#[trigger] findings@[j]).severity.level()
                            <= findings@[w as int].severity.level()
                    &&& forall|j: int|
                        0 <= j < w ==> (#[trigger] findings@[j]).severity.level()
                            < findings@[w as int].severity.level()
                },
                None => forall|j: int| 0 <= j < i ==> !is_serious((#[trigger] findings@[j]).severity),
            },
        decreases findings.len() - i,
    {
        let severity = findings[i].severity;
        match worst {
            Some(w) => {
                if severity.rank() > findings[w].severity.rank() {
                    worst = Some(i);
                }
            },
            None => {
                if severity == Severity::Critical || severity == Severity::High {
                    worst = Some(i);
                }
            },
        }
        i += 1;
    }
    match worst {
        Some(w) => {
            let mut reasons: Vec<DepthReason> = Vec::new();
            reasons.push(
                DepthReason::SeverityEscalation {
                    fingerprint: findings[w].fingerprint.clone(),
                    severity: findings[w].severity,
                },
            );
            let ghost g = reasons@[0]@;
            let ghost given = grounds(reasons@);
            let decision = DepthDecision::resolve(reasons);
            proof {
                assert(given =~= seq![g]);
                assert(given[0].implied() == Depth::Deep);
                assert(given.drop_last() =~= Seq::empty());
                assert(only(given.drop_last(), Depth::Deep) =~= Seq::empty());
                assert(only(given, Depth::Deep) =~= seq![g]);
                assert(only(given.drop_last(), Depth::Standard) =~= Seq::empty());
                assert(only(given, Depth::Standard) =~= Seq::empty());
                assert(only(given.drop_last(), Depth::Summary) =~= Seq::empty());
                assert(only(given, Depth::Summary) =~= Seq::empty());
                assert(deepest_first(given) =~= seq![g]);
                assert(worst_at(findings@, w as int));
            }
            Some(decision)
        },
        None => None,
    }
}

/// Whether a depth adds the self-refutation instruction to the prompt.
pub fn requires_self_verification(depth: Depth) -> (r: bool)
    ensures
        r == (depth == Depth::Deep),
{
    matches!(depth, Depth::Deep)
}

// --- what holds of every decision ---

/// Risk beats size: a change that touches something sensitive, or is labelled so, is read
/// deeply however large it is, and the reasons that its size gave are still recorded.
pub proof fn risk_beats_size(
    paths: Seq<Seq<char>>,
    stat: DiffStat,
    labels: Seq<Seq<char>>,
    config: RepoConfig,
    decision: DepthDecision,
    g: Ground,
)
    requires
        decision.follows_from(change_grounds(paths, stat, labels, config)),
        sensitive_ground(paths, config).len() > 0 || security_ground(paths).len() > 0 || label_ground(
            labels,
            config,
        ).len() > 0,
    ensures
        decision.depth == Depth::Deep,
        size_grounds(stat, config).contains(g) ==> grounds(decision.reasons@).contains(g),
{
    let size = size_grounds(stat, config);
    let a = size + docs_ground(paths);
    let b = a + sensitive_ground(paths, config);
    let c = b + security_ground(paths);
    let all = c + label_ground(labels, config);
    assert(all == change_grounds(paths, stat, labels, config));
    if sensitive_ground(paths, config).len() > 0 {
        assert(all[a.len() as int] == sensitive_ground(paths, config)[0]);
    } else if security_ground(paths).len() > 0 {
        assert(all[b.len() as int] == security_ground(paths)[0]);
    } else {
        assert(all[c.len() as int] == label_ground(labels, config)[0]);
    }
    if size.contains(g) {
        let k = choose|k: int| 0 <= k < size.len() && size[k] == g;
        assert(all[k] == g);
        every_ground_is_kept(all, g);
    }
}

/// Every ground that fired is among the reasons.
pub proof fn every_ground_is_kept(gs: Seq<Ground>, g: Ground)
    requires
        gs.contains(g),
    ensures
        deepest_first(gs).contains(g),
{
    only_keeps(gs, g);
    let a = only(gs, Depth::Deep);
    let b = only(gs, Depth::Standard);
    let c = only(gs, Depth::Summary);
    if g.implied() == Depth::Deep {
        let k = choose|k: int| 0 <= k < a.len() && a[k] == g;
        assert(deepest_first(gs)[k] == g);
    } else if g.implied() == Depth::Standard {
        let k = choose|k: int| 0 <= k < b.len() && b[k] == g;
        assert(deepest_first(gs)[a.len() + k] == g);
    } else {
        let k = choose|k: int| 0 <= k < c.len() && c[k] == g;
        assert(deepest_first(gs)[a.len() + b.len() + k] == g);
    }
}

proof fn only_keeps(gs: Seq<Ground>, g: Ground)
    requires
        gs.contains(g),
    ensures
        only(gs, g.implied()).contains(g),
    decreases gs.len(),
{
    let k = choose|k: int| 0 <= k < gs.len() && gs[k] == g;
    let before = only(gs.drop_last(), g.implied());
    if k == gs.len() - 1 {
        assert(before.push(g)[before.len() as int] == g);
    } else {
        assert(gs.drop_last()[k] == g);
        only_keeps(gs.drop_last(), g);
        let m = choose|m: int| 0 <= m < before.len() && before[m] == g;
        if gs.last().implied() == g.implied() {
            assert(before.push(gs.last())[m] == g);
        }
    }
}

/// Settings that cannot be read never reduce scrutiny: sensitive globs that do not compile
/// make every change sensitive.
pub proof fn broken_globs_review_deeply(
    paths: Seq<Seq<char>>,
    stat: DiffStat,
    labels: Seq<Seq<char>>,
    config: RepoConfig,
    decision: DepthDecision,
)
    requires
        decision.follows_from(change_grounds(paths, stat, labels, config)),
        !patterns_usable(texts(config.sensitive_globs@)),
    ensures
        decision.depth == Depth::Deep,
        grounds(decision.reasons@).contains(Ground::SensitiveGlobsInvalid),
{
    let a = size_grounds(stat, config) + docs_ground(paths);
    let all = change_grounds(paths, stat, labels, config);
    assert(all[a.len() as int] == Ground::SensitiveGlobsInvalid);
    every_ground_is_kept(all, Ground::SensitiveGlobsInvalid);
}

/// A review escalates at most once: what an escalation asks for never escalates again.
pub proof fn an_escalated_review_does_not_escalate(findings: Seq<Finding>)
    ensures
        !escalates(Depth::Deep, findings),
        !escalates(Depth::Summary, findings),
{
}

// --- what is decided, told from the change ---

proof fn only_is_among(gs: Seq<Ground>, depth: Depth, g: Ground)
    requires
        only(gs, depth).contains(g),
    ensures
        gs.contains(g),
        g.implied() == depth,
    decreases gs.len(),
{
    if gs.len() > 0 {
        let before = only(gs.drop_last(), depth);
        if before.contains(g) {
            only_is_among(gs.drop_last(), depth, g);
            let k = choose|k: int| 0 <= k < gs.drop_last().len() && gs.drop_last()[k] == g;
            assert(gs[k] == g);
        } else {
            push_contains(before, gs.last(), g);
            assert(gs[gs.len() - 1] == g);
        }
    }
}

proof fn sum_contains(a: Seq<Ground>, b: Seq<Ground>, g: Ground)
    ensures
        (a + b).contains(g) == (a.contains(g) || b.contains(g)),
{
    let all = a + b;
    if a.contains(g) {
        let k = choose|k: int| 0 <= k < a.len() && a[k] == g;
        assert(all[k] == g);
    }
    if b.contains(g) {
        let k = choose|k: int| 0 <= k < b.len() && b[k] == g;
        assert(all[a.len() + k] == g);
    }
    if all.contains(g) {
        let k = choose|k: int| 0 <= k < all.len() && all[k] == g;
        if k < a.len() {
            assert(a[k] == g);
        } else {
            assert(b[k - a.len()] == g);
        }
    }
}

proof fn ordered_contains(gs: Seq<Ground>, g: Ground)
    ensures
        deepest_first(gs).contains(g) == gs.contains(g),
{
    let a = only(gs, Depth::Deep);
    let b = only(gs, Depth::Standard);
    let c = only(gs, Depth::Summary);
    sum_contains(a + b, c, g);
    sum_contains(a, b, g);
    if gs.contains(g) {
        every_ground_is_kept(gs, g);
    }
    if a.contains(g) {
        only_is_among(gs, Depth::Deep, g);
    }
    if b.contains(g) {
        only_is_among(gs, Depth::Standard, g);
    }
    if c.contains(g) {
        only_is_among(gs, Depth::Summary, g);
    }
}

proof fn holds_one(g: Ground, other: Ground)
    ensures
        seq![g].contains(other) == (g == other),
        !Seq::<Ground>::empty().contains(other),
{
    assert(seq![g][0] == g);
}

proof fn change_contains(
    paths: Seq<Seq<char>>,
    stat: DiffStat,
    labels: Seq<Seq<char>>,
    config: RepoConfig,
    g: Ground,
)
    ensures
        change_grounds(paths, stat, labels, config).contains(g) == (size_grounds(stat, config).contains(g)
            || docs_ground(paths).contains(g) || sensitive_ground(paths, config).contains(g)
            || security_ground(paths).contains(g) || label_ground(labels, config).contains(g)),
{
    let a = size_grounds(stat, config) + docs_ground(paths);
    let b = a + sensitive_ground(paths, config);
    let c = b + security_ground(paths);
    sum_contains(c, label_ground(labels, config), g);
    sum_contains(b, security_ground(paths), g);
    sum_contains(a, sensitive_ground(paths, config), g);
    sum_contains(size_grounds(stat, config), docs_ground(paths), g);
}

proof fn reasons_of(
    paths: Seq<Seq<char>>,
    stat: DiffStat,
    labels: Seq<Seq<char>>,
    config: RepoConfig,
    decision: DepthDecision,
    g: Ground,
)
    requires
        decision.follows_from(change_grounds(paths, stat, labels, config)),
        g != Ground::Default,
    ensures
        grounds(decision.reasons@).contains(g) == (size_grounds(stat, config).contains(g) || docs_ground(
            paths,
        ).contains(g) || sensitive_ground(paths, config).contains(g) || security_ground(paths).contains(g)
            || label_ground(labels, config).contains(g)),
{
    let all = change_grounds(paths, stat, labels, config);
    change_contains(paths, stat, labels, config, g);
    ordered_contains(or_default(all), g);
    holds_one(Ground::Default, g);
}

/// A change is taken for documentation and lockfiles only where every path of it is one or the
/// other: one path that is neither makes it an ordinary change, unless its size or a risk says
/// otherwise.
pub proof fn code_among_documentation_is_read(
    paths: Seq<Seq<char>>,
    stat: DiffStat,
    labels: Seq<Seq<char>>,
    config: RepoConfig,
    decision: DepthDecision,
    i: int,
)
    requires
        decision.follows_from(change_grounds(paths, stat, labels, config)),
        0 <= i < paths.len(),
        !doc_or_lockfile(paths[i]),
    ensures
        !grounds(decision.reasons@).contains(Ground::DocsOrLockfilesOnly),
        stat.files <= config.deep_file_limit && stat.insertions + stat.deletions <= 20_000
            ==> decision.depth != Depth::Summary,
{
    reasons_of(paths, stat, labels, config, decision, Ground::DocsOrLockfilesOnly);
    let all = change_grounds(paths, stat, labels, config);
    single_grounds(paths, stat, labels, config, Ground::DocsOrLockfilesOnly);
    if stat.files <= config.deep_file_limit && stat.insertions + stat.deletions <= 20_000 {
        let gs = or_default(all);
        if decision.depth == Depth::Summary {
            let first = gs[0];
            assert(gs.contains(first));
            holds_one(Ground::Default, first);
            if all.len() == 0 {
                assert(gs[0].implied() == Depth::Standard);
            } else {
                change_contains(paths, stat, labels, config, first);
                single_grounds(paths, stat, labels, config, first);
                assert(first.implied() == Depth::Deep);
            }
        }
    }
}

/// What each kind of ground comes from.
proof fn single_grounds(
    paths: Seq<Seq<char>>,
    stat: DiffStat,
    labels: Seq<Seq<char>>,
    config: RepoConfig,
    g: Ground,
)
    ensures
        size_grounds(stat, config).contains(g) == ((stat.files > config.deep_file_limit && g == (
        Ground::TooManyFiles { files: stat.files as nat, limit: config.deep_file_limit as nat })) || (
        changed_lines(stat) > 20_000 && g == (Ground::TooManyLines {
            lines: changed_lines(stat),
            limit: 20_000,
        }))),
        docs_ground(paths).contains(g) == (g == Ground::DocsOrLockfilesOnly && docs_only(paths)),
        sensitive_ground(paths, config).contains(g) ==> g is SensitivePath || g is SensitiveGlobsInvalid,
        security_ground(paths).contains(g) ==> g is SecurityPattern,
        label_ground(labels, config).contains(g) ==> g is DeepLabel,
{
    let files = Ground::TooManyFiles { files: stat.files as nat, limit: config.deep_file_limit as nat };
    let lines = Ground::TooManyLines { lines: changed_lines(stat), limit: MAX_DEEP_LINES as nat };
    let a: Seq<Ground> = if stat.files > config.deep_file_limit {
        seq![files]
    } else {
        seq![]
    };
    let b: Seq<Ground> = if changed_lines(stat) > MAX_DEEP_LINES {
        seq![lines]
    } else {
        seq![]
    };
    sum_contains(a, b, g);
    holds_one(files, g);
    holds_one(lines, g);
    holds_one(Ground::DocsOrLockfilesOnly, g);
    holds_one(Ground::SensitiveGlobsInvalid, g);
    let s = sensitive_ground(paths, config);
    if s.len() > 0 {
        holds_one(s[0], g);
        assert(s =~= seq![s[0]]);
    }
    let t = security_ground(paths);
    if t.len() > 0 {
        holds_one(t[0], g);
        assert(t =~= seq![t[0]]);
    }
    let u = label_ground(labels, config);
    if u.len() > 0 {
        holds_one(u[0], g);
        assert(u =~= seq![u[0]]);
    }
}

/// How closely a change is read: deeply where it touches something sensitive, by the repository's
/// own globs or by what looks security-relevant, where those globs cannot be read or where a label
/// asks for it; as a summary where it is large or nothing but documentation and lockfiles; and
/// otherwise as usual.
pub proof fn risk_then_size_then_usual(
    paths: Seq<Seq<char>>,
    stat: DiffStat,
    labels: Seq<Seq<char>>,
    config: RepoConfig,
    decision: DepthDecision,
)
    requires
        decision.follows_from(change_grounds(paths, stat, labels, config)),
    ensures
        ({
            let globs = texts(config.sensitive_globs@);
            let risky = !patterns_usable(globs) || (exists|i: int|
                0 <= i < paths.len() && globset_hit(globs, #[trigger] paths[i])) || (exists|i: int|
                0 <= i < paths.len() && security_match(#[trigger] paths[i]) is Some) || (exists|i: int, j: int|
                0 <= i < labels.len() && 0 <= j < config.deep_labels@.len() && lowered(#[trigger] labels[i])
                    == lowered((#[trigger] config.deep_labels@[j])@));
            let large = stat.files > config.deep_file_limit || stat.insertions + stat.deletions > 20_000;
            let dull = paths.len() > 0 && forall|i: int|
                0 <= i < paths.len() ==> doc_or_lockfile(#[trigger] paths[i]);
            decision.depth == if risky {
                Depth::Deep
            } else if large || dull {
                Depth::Summary
            } else {
                Depth::Standard
            }
        }),
{
    let globs = texts(config.sensitive_globs@);
    let all = change_grounds(paths, stat, labels, config);
    let gs = or_default(all);
    let hit = |p: Seq<char>| globset_hit(globs, p);
    first_index_means(paths, hit);
    assert(sensitive_ground(paths, config).len() > 0 ==> (!patterns_usable(globs) || exists|i: int|
        0 <= i < paths.len() && globset_hit(globs, #[trigger] paths[i]))) by {
        if patterns_usable(globs) && first_index(paths, hit) is Some {
            let i = first_index(paths, hit)->0;
            assert(globset_hit(globs, paths[i]));
        }
    }
    assert forall|i: int| 0 <= i < paths.len() && globset_hit(globs, #[trigger] paths[i]) implies sensitive_ground(
        paths,
        config,
    ).len() > 0 by {
        assert(hit(paths[i]));
    }
    let secure = |p: Seq<char>| security_match(p) is Some;
    first_index_means(paths, secure);
    if first_index(paths, secure) is Some {
        assert(security_match(paths[first_index(paths, secure)->0]) is Some);
    }
    assert forall|i: int| 0 <= i < paths.len() && security_match(#[trigger] paths[i]) is Some implies security_ground(
        paths,
    ).len() > 0 by {
        assert(secure(paths[i]));
    }
    let deep = texts(config.deep_labels@);
    let asks = |l: Seq<char>| asks_deep(l, deep);
    first_index_means(labels, asks);
    if first_index(labels, asks) is Some {
        let i = first_index(labels, asks)->0;
        let j = choose|j: int| 0 <= j < deep.len() && lowered(#[trigger] deep[j]) == lowered(labels[i]);
        assert(lowered(labels[i]) == lowered(config.deep_labels@[j]@));
    }
    assert forall|i: int, j: int|
        0 <= i < labels.len() && 0 <= j < config.deep_labels@.len() && lowered(#[trigger] labels[i]) == lowered(
            (#[trigger] config.deep_labels@[j])@,
        ) implies label_ground(labels, config).len() > 0 by {
        assert(lowered(deep[j]) == lowered(labels[i]));
        assert(asks(labels[i]));
    }
    let risky = sensitive_ground(paths, config).len() > 0 || security_ground(paths).len() > 0 || label_ground(
        labels,
        config,
    ).len() > 0;
    if risky {
        risk_beats_size(paths, stat, labels, config, decision, Ground::Default);
    } else {
        assert(all =~= size_grounds(stat, config) + docs_ground(paths));
        assert forall|k: int| 0 <= k < gs.len() implies (#[trigger] gs[k]).implied() != Depth::Deep by {
            assert(gs.contains(gs[k]));
            if all.len() > 0 {
                change_contains(paths, stat, labels, config, gs[k]);
                single_grounds(paths, stat, labels, config, gs[k]);
            }
        }
        if all.len() == 0 {
            assert(gs[0].implied() == Depth::Standard);
        } else {
            assert forall|k: int| 0 <= k < gs.len() implies (#[trigger] gs[k]).implied() == Depth::Summary by {
                assert(gs.contains(gs[k]));
                change_contains(paths, stat, labels, config, gs[k]);
                single_grounds(paths, stat, labels, config, gs[k]);
            }
        }
    }
}

/// Every reason that is given holds of the change, with the figures and names it gives: what is
/// said of the size is the size and the limit it passes, and what is said to be sensitive, relevant
/// to security or labelled is the first of the change that is.
pub proof fn every_reason_holds(
    paths: Seq<Seq<char>>,
    stat: DiffStat,
    labels: Seq<Seq<char>>,
    config: RepoConfig,
    decision: DepthDecision,
    k: int,
)
    requires
        decision.follows_from(change_grounds(paths, stat, labels, config)),
        0 <= k < decision.reasons@.len(),
    ensures
        match decision.reasons@[k]@ {
            Ground::TooManyFiles { files, limit } => files == stat.files && limit == config.deep_file_limit
                && files > limit,
            Ground::TooManyLines { lines, limit } => limit == 20_000 && lines > limit && (stat.insertions
                + stat.deletions <= u64::MAX ==> lines == stat.insertions + stat.deletions),
            Ground::DocsOrLockfilesOnly => paths.len() > 0 && forall|i: int|
                0 <= i < paths.len() ==> doc_or_lockfile(#[trigger] paths[i]),
            Ground::SensitivePath { path } => patterns_usable(texts(config.sensitive_globs@)) && exists|i: int|
                0 <= i < paths.len() && path == #[trigger] paths[i] && globset_hit(
                    texts(config.sensitive_globs@),
                    path,
                ) && forall|j: int|
                    0 <= j < i ==> !globset_hit(texts(config.sensitive_globs@), #[trigger] paths[j]),
            Ground::SecurityPattern { path, pattern } => security_match(path) == Some(pattern) && exists|i: int|
                0 <= i < paths.len() && path == #[trigger] paths[i] && forall|j: int|
                    0 <= j < i ==> security_match(#[trigger] paths[j]) is None,
            Ground::DeepLabel { label } => labels.contains(label) && exists|j: int|
                0 <= j < config.deep_labels@.len() && lowered((#[trigger] config.deep_labels@[j])@) == lowered(
                    label,
                ),
            Ground::SeverityEscalation { .. } => false,
            Ground::SensitiveGlobsInvalid => !patterns_usable(texts(config.sensitive_globs@)),
            Ground::Default => decision.reasons@.len() == 1,
        },
{
    let g = decision.reasons@[k]@;
    let all = change_grounds(paths, stat, labels, config);
    let seen = grounds(decision.reasons@);
    assert(seen[k] == g);
    assert(seen.contains(g));
    ordered_contains(or_default(all), g);
    holds_one(Ground::Default, g);
    change_contains(paths, stat, labels, config, g);
    single_grounds(paths, stat, labels, config, g);
    let globs = texts(config.sensitive_globs@);
    let hit = |p: Seq<char>| globset_hit(globs, p);
    first_index_means(paths, hit);
    let secure = |p: Seq<char>| security_match(p) is Some;
    first_index_means(paths, secure);
    let deep = texts(config.deep_labels@);
    let asks = |l: Seq<char>| asks_deep(l, deep);
    first_index_means(labels, asks);
    match g {
        Ground::SensitivePath { path } => {
            let i = first_index(paths, hit)->0;
            assert(sensitive_ground(paths, config)[0] == (Ground::SensitivePath { path: paths[i] }));
            holds_one(sensitive_ground(paths, config)[0], g);
            assert(sensitive_ground(paths, config) =~= seq![sensitive_ground(paths, config)[0]]);
            assert(hit(paths[i]));
            assert forall|j: int| 0 <= j < i implies !globset_hit(globs, #[trigger] paths[j]) by {
                assert(!hit(paths[j]));
            }
        },
        Ground::SecurityPattern { path, pattern } => {
            let i = first_index(paths, secure)->0;
            holds_one(security_ground(paths)[0], g);
            assert(security_ground(paths) =~= seq![security_ground(paths)[0]]);
            assert(secure(paths[i]));
            assert forall|j: int| 0 <= j < i implies security_match(#[trigger] paths[j]) is None by {
                assert(!secure(paths[j]));
            }
        },
        Ground::DeepLabel { label } => {
            let i = first_index(labels, asks)->0;
            holds_one(label_ground(labels, config)[0], g);
            assert(label_ground(labels, config) =~= seq![label_ground(labels, config)[0]]);
            assert(asks(labels[i]));
            let j = choose|j: int| 0 <= j < deep.len() && lowered(#[trigger] deep[j]) == lowered(labels[i]);
            assert(lowered(config.deep_labels@[j]@) == lowered(label));
        },
        Ground::Default => {
            assert(all.len() == 0);
            only_of_one(Ground::Default);
            assert(seen.len() == 1);
            assert(seen.len() == decision.reasons@.len());
        },
        _ => {},
    }
}

proof fn only_of_one(g: Ground)
    ensures
        deepest_first(seq![g]).len() == 1,
{
    let gs = seq![g];
    assert(gs.drop_last() =~= Seq::empty());
    assert(only(gs.drop_last(), Depth::Deep) =~= Seq::empty());
    assert(only(gs.drop_last(), Depth::Standard) =~= Seq::empty());
    assert(only(gs.drop_last(), Depth::Summary) =~= Seq::empty());
}

/// What argues for the depth that was chosen is told first.
pub proof fn the_deciding_reason_is_told_first(decision: DepthDecision, gs: Seq<Ground>)
    requires
        decision.follows_from(gs),
    ensures
        decision.reasons@.len() > 0,
        decision.reasons@[0]@.implied() == decision.depth,
{
    let all = or_default(gs);
    let a = only(all, Depth::Deep);
    let b = only(all, Depth::Standard);
    let c = only(all, Depth::Summary);
    let seen = grounds(decision.reasons@);
    assert(seen.len() == decision.reasons@.len());
    let first = seen[0];
    assert(first == decision.reasons@[0]@);
    let depth = decision.depth;
    let i = if depth == Depth::Summary {
        0
    } else {
        choose|i: int| 0 <= i < all.len() && (#[trigger] all[i]).implied() == depth
    };
    let g = all[i];
    assert(all.contains(g));
    only_keeps(all, g);
    if depth == Depth::Deep {
        assert(first == a[0]);
        assert(a.contains(a[0]));
        only_is_among(all, Depth::Deep, a[0]);
    } else {
        if a.len() > 0 {
            assert(a.contains(a[0]));
            only_is_among(all, Depth::Deep, a[0]);
            let k = choose|k: int| 0 <= k < all.len() && all[k] == a[0];
            assert(all[k].implied() == Depth::Deep);
        }
        if depth == Depth::Standard {
            assert(first == b[0]);
            assert(b.contains(b[0]));
            only_is_among(all, Depth::Standard, b[0]);
        } else {
            if b.len() > 0 {
                assert(b.contains(b[0]));
                only_is_among(all, Depth::Standard, b[0]);
                let k = choose|k: int| 0 <= k < all.len() && all[k] == b[0];
                assert(all[k].implied() == Depth::Standard);
            }
            assert(first == c[0]);
            assert(c.contains(c[0]));
            only_is_among(all, Depth::Summary, c[0]);
        }
    }
}

/// What each reason argues for on its own: size and dullness for a summary, risk for a deep review.
pub proof fn what_a_reason_argues_for(g: Ground)
    ensures
        g is TooManyFiles || g is TooManyLines || g is DocsOrLockfilesOnly ==> g.implied() == Depth::Summary,
        g is SensitivePath || g is SecurityPattern || g is DeepLabel || g is SeverityEscalation
            || g is SensitiveGlobsInvalid ==> g.implied() == Depth::Deep,
        g is Default ==> g.implied() == Depth::Standard,
{
}

/// What a review escalates for: a standard one that reported something critical or high. It names
/// a critical finding where there is one, and the first of those that are equally bad.
pub proof fn an_escalation_names_the_worst(current: Depth, findings: Seq<Finding>, i: int)
    ensures
        escalates(current, findings) == (current == Depth::Standard && exists|k: int|
            0 <= k < findings.len() && ((#[trigger] findings[k]).severity == Severity::Critical
                || findings[k].severity == Severity::High)),
        worst_at(findings, i) ==> {
            &&& findings[i].severity == Severity::Critical || findings[i].severity == Severity::High
            &&& forall|k: int|
                0 <= k < findings.len() && (#[trigger] findings[k]).severity == Severity::Critical
                    ==> findings[i].severity == Severity::Critical && i <= k
            &&& forall|k: int|
                0 <= k < i ==> (#[trigger] findings[k]).severity != findings[i].severity
        },
{
}

// --- which paths are which ---

proof fn lower_literals()
    ensures
        lowered(".md"@) == ".md"@,
        lowered(".rst"@) == ".rst"@,
        lowered(".txt"@) == ".txt"@,
        lowered(".adoc"@) == ".adoc"@,
        lowered(".markdown"@) == ".markdown"@,
{
    reveal_strlit(".md");
    reveal_strlit(".rst");
    reveal_strlit(".txt");
    reveal_strlit(".adoc");
    reveal_strlit(".markdown");
    assert(lowered(".md"@) =~= ".md"@);
    assert(lowered(".rst"@) =~= ".rst"@);
    assert(lowered(".txt"@) =~= ".txt"@);
    assert(lowered(".adoc"@) =~= ".adoc"@);
    assert(lowered(".markdown"@) =~= ".markdown"@);
}

/// The extension of a path that ends with a dot and a few characters.
proof fn extension_of(stem: Seq<char>, ext: Seq<char>)
    requires
        !ext.contains('.'),
        !ext.contains('/'),
    ensures
        file_name(stem.push('.') + ext).contains('.'),
        after_last(file_name(stem.push('.') + ext), '.') == ext,
{
    let path = stem.push('.') + ext;
    let name = file_name(path);
    after_last_means(path, '/');
    let n = path.len() - name.len();
    assert(name =~= path.subrange(n, path.len() as int));
    let m = stem.len() as int;
    if n > m {
        assert(path.contains('/')) by {
            if !path.contains('/') {
                assert(name == path);
            }
        }
        assert(path[n - 1] == '/');
        assert(ext.contains(ext[n - 1 - m - 1])) by {
            if n - 1 == m {
                assert(path[m] == '.');
            }
        }
    }
    let front = path.subrange(n, m);
    assert(name =~= front.push('.') + ext);
    assert(name[m - n] == '.');
    after_last_of_sum(front, '.', ext);
}

/// A path that ends as documentation does is documentation, whatever stands before.
pub proof fn documentation_is_told_by_its_ending(stem: Seq<char>)
    ensures
        doc_or_lockfile(stem + ".md"@),
        doc_or_lockfile(stem + ".rst"@),
        doc_or_lockfile(stem + ".txt"@),
        doc_or_lockfile(stem + ".adoc"@),
        doc_or_lockfile(stem + ".markdown"@),
{
    lower_literals();
    reveal_strlit(".md");
    reveal_strlit(".rst");
    reveal_strlit(".txt");
    reveal_strlit(".adoc");
    reveal_strlit(".markdown");
    reveal_strlit("md");
    reveal_strlit("rst");
    reveal_strlit("txt");
    reveal_strlit("adoc");
    reveal_strlit("markdown");
    doc_ending(stem, "md"@, 0);
    assert(".md"@ =~= Seq::empty().push('.') + "md"@);
    assert(stem + ".md"@ =~= stem.push('.') + "md"@);
    doc_ending(stem, "rst"@, 1);
    assert(stem + ".rst"@ =~= stem.push('.') + "rst"@);
    doc_ending(stem, "txt"@, 2);
    assert(stem + ".txt"@ =~= stem.push('.') + "txt"@);
    doc_ending(stem, "adoc"@, 3);
    assert(stem + ".adoc"@ =~= stem.push('.') + "adoc"@);
    doc_ending(stem, "markdown"@, 4);
    assert(stem + ".markdown"@ =~= stem.push('.') + "markdown"@);
}

proof fn doc_ending(stem: Seq<char>, ext: Seq<char>, k: int)
    requires
        0 <= k < doc_extensions().len(),
        doc_extensions()[k] == ext,
        forall|i: int| 0 <= i < ext.len() ==> 97 <= (#[trigger] ext[i] as u32) <= 122,
    ensures
        doc_or_lockfile(stem.push('.') + ext),
{
    let path = stem.push('.') + ext;
    assert forall|i: int| 0 <= i < ext.len() implies lower_char(ext[i]) == ext[i] by {}
    assert(lowered(path) =~= lowered(stem).push('.') + ext) by {
        assert(lower_char('.') == '.');
    }
    assert(!ext.contains('.') && !ext.contains('/')) by {
        assert forall|i: int| 0 <= i < ext.len() implies ext[i] != '.' && ext[i] != '/' by {
            assert(97 <= (ext[i] as u32));
        }
    }
    extension_of(lowered(stem), ext);
    assert(doc_extensions().contains(ext));
}

/// A path that ends with `.lock` is a lockfile, whatever stands before.
pub proof fn a_lockfile_is_told_by_its_ending(stem: Seq<char>)
    ensures
        doc_or_lockfile(stem + ".lock"@),
{
    reveal_strlit(".lock");
    assert(lowered(".lock"@) =~= ".lock"@);
    lowered_of_sum(stem, ".lock"@);
    let lower = lowered(stem + ".lock"@);
    assert(lower.subrange(lower.len() - 5, lower.len() as int) =~= ".lock"@);
}

/// A path without a dot is code: neither documentation nor a lockfile.
pub proof fn what_has_no_ending_is_code(path: Seq<char>)
    requires
        !path.contains('.'),
    ensures
        !doc_or_lockfile(path),
{
    let lower = lowered(path);
    assert forall|i: int| 0 <= i < lower.len() implies lower[i] != '.' by {
        lowered_means(path, i);
        assert(path.contains(path[i]));
    }
    after_last_means(lower, '/');
    let name = file_name(lower);
    assert forall|i: int| 0 <= i < name.len() implies name[i] != '.' by {
        assert(name =~= lower.subrange(lower.len() - name.len(), lower.len() as int));
        assert(name[i] == lower[lower.len() - name.len() + i]);
    }
    reveal_strlit(".lock");
    if ".lock"@.is_suffix_of(lower) {
        assert(".lock"@ =~= lower.subrange(lower.len() - 5, lower.len() as int));
        assert(lower.subrange(lower.len() - 5, lower.len() as int)[0] == lower[lower.len() - 5]);
    }
    lockfile_names_are_dotted();
    if lockfile_names().contains(name) {
        let k = choose|k: int| 0 <= k < lockfile_names().len() && lockfile_names()[k] == name;
        assert(lockfile_names()[k].contains('.'));
    }
}

proof fn lockfile_names_are_dotted()
    ensures
        forall|k: int| 0 <= k < lockfile_names().len() ==> (#[trigger] lockfile_names()[k]).contains('.'),
{
    reveal_strlit("package-lock.json");
    reveal_strlit("yarn.lock");
    reveal_strlit("pnpm-lock.yaml");
    reveal_strlit("npm-shrinkwrap.json");
    reveal_strlit("composer.lock");
    reveal_strlit("gemfile.lock");
    reveal_strlit("poetry.lock");
    reveal_strlit("pipfile.lock");
    reveal_strlit("go.sum");
    reveal_strlit("cargo.lock");
    assert("package-lock.json"@[12] == '.');
    assert("yarn.lock"@[4] == '.');
    assert("pnpm-lock.yaml"@[9] == '.');
    assert("npm-shrinkwrap.json"@[14] == '.');
    assert("composer.lock"@[8] == '.');
    assert("gemfile.lock"@[7] == '.');
    assert("poetry.lock"@[6] == '.');
    assert("pipfile.lock"@[7] == '.');
    assert("go.sum"@[2] == '.');
    assert("cargo.lock"@[5] == '.');
}

/// Documentation and lockfiles are told apart from code by the end of a path alone: another ending
/// than theirs makes it code, whatever its directories are called.
pub proof fn another_ending_is_code(stem: Seq<char>, ext: Seq<char>)
    requires
        !ext.contains('.'),
        !ext.contains('/'),
        lowered(ext) != "md"@,
        lowered(ext) != "rst"@,
        lowered(ext) != "txt"@,
        lowered(ext) != "adoc"@,
        lowered(ext) != "markdown"@,
        lowered(ext) != "lock"@,
        lowered(ext) != "json"@,
        lowered(ext) != "yaml"@,
        lowered(ext) != "sum"@,
    ensures
        !doc_or_lockfile(stem.push('.') + ext),
{
    let path = stem.push('.') + ext;
    let lower = lowered(path);
    let low = lowered(ext);
    assert(lower =~= lowered(stem).push('.') + low) by {
        assert(lower_char('.') == '.');
    }
    assert forall|i: int| 0 <= i < low.len() implies low[i] != '.' && low[i] != '/' by {
        lowered_means(ext, i);
        assert(ext.contains(ext[i]));
    }
    extension_of(lowered(stem), low);
    let name = file_name(lower);
    reveal_strlit(".lock");
    reveal_strlit("lock");
    if ".lock"@.is_suffix_of(lower) {
        let n = lower.len() as int;
        assert(".lock"@ =~= lower.subrange(n - 5, n));
        assert(lower =~= lower.take(n - 5).push('.') + "lock"@) by {
            assert(lower.subrange(n - 5, n)[0] == lower[n - 5]);
            assert forall|i: int| n - 5 <= i < n implies lower[i] == ".lock"@[i - (n - 5)] by {
                assert(lower.subrange(n - 5, n)[i - (n - 5)] == lower[i]);
            }
        }
        assert(!"lock"@.contains('.') && !"lock"@.contains('/'));
        extension_of(lower.take(n - 5), "lock"@);
    }
    lockfile_endings();
    if lockfile_names().contains(name) {
        let k = choose|k: int| 0 <= k < lockfile_names().len() && lockfile_names()[k] == name;
        assert(after_last(lockfile_names()[k], '.') == low);
    }
}

proof fn ending_is(whole: Seq<char>, front: Seq<char>, ext: Seq<char>)
    requires
        whole == front.push('.') + ext,
        !ext.contains('.'),
    ensures
        after_last(whole, '.') == ext,
{
    after_last_of_sum(front, '.', ext);
}

proof fn lockfile_endings()
    ensures
        forall|k: int|
            0 <= k < lockfile_names().len() ==> {
                let ext = after_last(#[trigger] lockfile_names()[k], '.');
                ext == "lock"@ || ext == "json"@ || ext == "yaml"@ || ext == "sum"@
            },
{
    reveal_strlit("package-lock.json");
    reveal_strlit("yarn.lock");
    reveal_strlit("pnpm-lock.yaml");
    reveal_strlit("npm-shrinkwrap.json");
    reveal_strlit("composer.lock");
    reveal_strlit("gemfile.lock");
    reveal_strlit("poetry.lock");
    reveal_strlit("pipfile.lock");
    reveal_strlit("go.sum");
    reveal_strlit("cargo.lock");
    reveal_strlit("lock");
    reveal_strlit("json");
    reveal_strlit("yaml");
    reveal_strlit("sum");
    assert(!"lock"@.contains('.') && !"json"@.contains('.') && !"yaml"@.contains('.') && !"sum"@.contains('.'));
    assert("package-lock.json"@ =~= "package-lock.json"@.take(12).push('.') + "json"@);
    ending_is("package-lock.json"@, "package-lock.json"@.take(12), "json"@);
    assert("yarn.lock"@ =~= "yarn.lock"@.take(4).push('.') + "lock"@);
    ending_is("yarn.lock"@, "yarn.lock"@.take(4), "lock"@);
    assert("pnpm-lock.yaml"@ =~= "pnpm-lock.yaml"@.take(9).push('.') + "yaml"@);
    ending_is("pnpm-lock.yaml"@, "pnpm-lock.yaml"@.take(9), "yaml"@);
    assert("npm-shrinkwrap.json"@ =~= "npm-shrinkwrap.json"@.take(14).push('.') + "json"@);
    ending_is("npm-shrinkwrap.json"@, "npm-shrinkwrap.json"@.take(14), "json"@);
    assert("composer.lock"@ =~= "composer.lock"@.take(8).push('.') + "lock"@);
    ending_is("composer.lock"@, "composer.lock"@.take(8), "lock"@);
    assert("gemfile.lock"@ =~= "gemfile.lock"@.take(7).push('.') + "lock"@);
    ending_is("gemfile.lock"@, "gemfile.lock"@.take(7), "lock"@);
    assert("poetry.lock"@ =~= "poetry.lock"@.take(6).push('.') + "lock"@);
    ending_is("poetry.lock"@, "poetry.lock"@.take(6), "lock"@);
    assert("pipfile.lock"@ =~= "pipfile.lock"@.take(7).push('.') + "lock"@);
    ending_is("pipfile.lock"@, "pipfile.lock"@.take(7), "lock"@);
    assert("go.sum"@ =~= "go.sum"@.take(2).push('.') + "sum"@);
    ending_is("go.sum"@, "go.sum"@.take(2), "sum"@);
    assert("cargo.lock"@ =~= "cargo.lock"@.take(5).push('.') + "lock"@);
    ending_is("cargo.lock"@, "cargo.lock"@.take(5), "lock"@);
}

/// Capitals make no difference to what a path is taken for.
pub proof fn capitals_make_no_difference(path: Seq<char>)
    ensures
        doc_or_lockfile(lowered(path)) == doc_or_lockfile(path),
        security_match(lowered(path)) == security_match(path),
{
    lowered_twice(path);
}

/// A path is relevant to security where a word of that kind stands anywhere in it, where it is a
/// database script, or where it says how changes are built; and nowhere else.
pub proof fn what_is_relevant_to_security(path: Seq<char>)
    ensures
        ({
            let lower = lowered(path);
            security_match(path) is Some == (".sql"@.is_suffix_of(lower) || ".github/workflows/"@.is_prefix_of(lower)
                || ".github/actions/"@.is_prefix_of(lower) || ".circleci/"@.is_prefix_of(lower)
                || ".gitlab-ci.yml"@.is_prefix_of(lower) || "azure-pipelines.yml"@.is_prefix_of(lower)
                || "jenkinsfile"@.is_prefix_of(lower) || ".buildkite/"@.is_prefix_of(lower)
                || ".drone.yml"@.is_prefix_of(lower) || after_last(lower, '/') == "jenkinsfile"@ || within(
                lower,
                "auth"@,
            ) || within(lower, "crypto"@) || within(lower, "payment"@) || within(lower, "passwd"@) || within(
                lower,
                "password"@,
            ) || within(lower, "secret"@))
        }),
{
    let lower = lowered(path);
    let begins = |w: Seq<char>| w.is_prefix_of(lower);
    let holds = |w: Seq<char>| within(lower, w);
    first_index_means(ci_prefixes(), begins);
    first_index_means(security_words(), holds);
    let p = ci_prefixes();
    let w = security_words();
    if first_index(p, begins) is None {
        assert(!begins(p[0]) && !begins(p[1]) && !begins(p[2]) && !begins(p[3]));
        assert(!begins(p[4]) && !begins(p[5]) && !begins(p[6]) && !begins(p[7]));
    } else {
        let i = first_index(p, begins)->0;
        assert(begins(p[i]));
    }
    if first_index(w, holds) is None {
        assert(!holds(w[0]) && !holds(w[1]) && !holds(w[2]) && !holds(w[3]) && !holds(w[4]) && !holds(w[5]));
    } else {
        let i = first_index(w, holds)->0;
        assert(holds(w[i]));
    }
}

/// A reason names what it is about.
pub proof fn a_reason_names_what_it_is_about(g: Ground)
    ensures
        match g {
            Ground::TooManyFiles { files, limit } => decimal(files).is_prefix_of(g.description()) && decimal(
                limit,
            ).is_suffix_of(g.description()),
            Ground::TooManyLines { lines, limit } => decimal(lines).is_prefix_of(g.description()) && decimal(
                limit,
            ).is_suffix_of(g.description()),
            Ground::SensitivePath { path } => within(g.description(), path),
            Ground::SecurityPattern { path, pattern } => within(g.description(), path) && within(
                g.description(),
                pattern,
            ),
            Ground::DeepLabel { label } => within(g.description(), label),
            Ground::SeverityEscalation { fingerprint, severity } => within(g.description(), fingerprint) && within(
                g.description(),
                severity.word(),
            ),
            _ => g.description().len() > 0,
        },
{
    match g {
        Ground::TooManyFiles { files, limit } => {
            let all = g.description();
            assert(all.subrange(0, decimal(files).len() as int) =~= decimal(files));
            assert(all.subrange(all.len() - decimal(limit).len(), all.len() as int) =~= decimal(limit));
        },
        Ground::TooManyLines { lines, limit } => {
            let all = g.description();
            assert(all.subrange(0, decimal(lines).len() as int) =~= decimal(lines));
            assert(all.subrange(all.len() - decimal(limit).len(), all.len() as int) =~= decimal(limit));
        },
        Ground::SensitivePath { path } => {
            stands_inside("`"@, path, "` matches this repo's sensitive_globs"@);
        },
        Ground::SecurityPattern { path, pattern } => {
            let rest = "` looks security-relevant (matched `"@ + pattern + "`)"@;
            stands_inside("`"@, path, rest);
            assert("`"@ + path + rest =~= g.description());
            stands_inside("`"@ + path + "` looks security-relevant (matched `"@, pattern, "`)"@);
        },
        Ground::DeepLabel { label } => {
            stands_inside("labelled `"@, label, "`"@);
        },
        Ground::SeverityEscalation { fingerprint, severity } => {
            let rest = " issue ("@ + fingerprint + ")"@;
            stands_inside("the standard review found a "@, severity.word(), rest);
            assert("the standard review found a "@ + severity.word() + rest =~= g.description());
            stands_inside("the standard review found a "@ + severity.word() + " issue ("@, fingerprint, ")"@);
        },
        Ground::DocsOrLockfilesOnly => {
            reveal_strlit("only documentation and lockfiles changed");
        },
        Ground::SensitiveGlobsInvalid => {
            reveal_strlit("sensitive_globs did not compile, so every path is treated as sensitive");
        },
        Ground::Default => {
            reveal_strlit("no rule applied");
        },
    }
}

/// A depth is contested where one of its reasons argues for another, and only there.
pub proof fn when_a_depth_is_contested(d: DepthDecision, i: int)
    ensures
        0 <= i < d.reasons@.len() && d.reasons@[i]@.implied() != d.depth ==> d.contested(),
        (forall|k: int| 0 <= k < d.reasons@.len() ==> (#[trigger] d.reasons@[k])@.implied() == d.depth)
            ==> !d.contested(),
{
}

} // verus!
