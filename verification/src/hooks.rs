//! The git hooks that tell the daemon of a change.
//!
//! # A commit never fails because of them
//!
//! The script that is written ends with `exit 0`, and every path reaches it. `set -e` is absent
//! and the status of `curl` is discarded. A receiver that is down is a commit that succeeds and a
//! review that does not happen, which is the right trade in both directions.
//!
//! # Never clobber a hook somebody else wrote
//!
//! The block is delimited, put where it runs, and removed by exactly its markers. Installing
//! twice is the same as installing once: the natural response to "did that work?" is to run it
//! again.
//!
//! # Line endings matter
//!
//! A script whose first line ends `\r\n` is never run, silently. Every file that is written has
//! `\n`, on every platform.

use vstd::prelude::*;

use crate::text::{
    cat3, chars_of, decimal, find, first_at, is_blank, is_space, join, join_path, joined, joined_path,
    line_len, line_len_bounds, num, opt_str, opt_text, pieces, same, split_lines, stands_at, stands_inside,
    starts_with, text_of, texts, trim, trim_start, trimmed, trimmed_start, trimming_takes_off_blanks,
    what_is_blank, within,
};

verus! {

/// Where a block starts.
pub const BEGIN_MARKER: &'static str = "# >>> rev-local begin (managed block; do not edit) >>>";

/// Where a block ends.
pub const END_MARKER: &'static str = "# <<< rev-local end <<<";

/// How long a hook waits for the receiver before it gives up.
pub const HOOK_TIMEOUT_SECS: u32 = 2;

/// Which hooks to install.
#[derive(Clone, Copy, Debug, PartialEq, Eq, Structural)]
pub enum HookMode {
    /// A developer's own clone.
    Reference,
    /// A bare mirror that developers push to: the only way to see every pushed ref.
    BareMirror,
}

impl HookMode {
    /// The names of the hook files.
    pub open spec fn files(self) -> Seq<Seq<char>> {
        match self {
            Self::Reference => seq!["post-commit"@, "post-merge"@, "post-checkout"@],
            Self::BareMirror => seq!["post-receive"@],
        }
    }

    /// The names of the hook files that this mode installs.
    pub fn hook_names(self) -> (r: Vec<&'static str>)
        ensures
            crate::text::strs(r@) == self.files(),
    {
        let r: Vec<&'static str> = match self {
            Self::Reference => vec!["post-commit", "post-merge", "post-checkout"],
            Self::BareMirror => vec!["post-receive"],
        };
        assert(crate::text::strs(r@) =~= self.files());
        r
    }

    /// How this reads on the command line.
    pub fn as_str(self) -> (r: &'static str)
        ensures
            r@ == match self {
                Self::Reference => "reference"@,
                Self::BareMirror => "bare-mirror"@,
            },
    {
        match self {
            Self::Reference => "reference",
            Self::BareMirror => "bare-mirror",
        }
    }
}

/// What became of one file.
#[derive(Clone, Debug, PartialEq, Eq)]
pub enum HookOutcome {
    /// The file was not there; a whole hook was written.
    Created(String),
    /// A block was put into a hook that somebody else owns.
    Appended(String),
    /// A block was there and was replaced, leaving one block.
    Replaced(String),
    /// A block was removed and the rest of the file kept.
    Removed(String),
    /// A file that was written entirely here was deleted.
    Deleted(String),
    /// Nothing to do.
    Untouched(String),
}

impl HookOutcome {
    /// The file this concerns.
    pub open spec fn file(self) -> Seq<char> {
        match self {
            Self::Created(path) => path@,
            Self::Appended(path) => path@,
            Self::Replaced(path) => path@,
            Self::Removed(path) => path@,
            Self::Deleted(path) => path@,
            Self::Untouched(path) => path@,
        }
    }

    /// The file this concerns.
    pub fn path(&self) -> (r: &str)
        ensures
            r@ == self.file(),
    {
        match self {
            Self::Created(path) => path.as_str(),
            Self::Appended(path) => path.as_str(),
            Self::Replaced(path) => path.as_str(),
            Self::Removed(path) => path.as_str(),
            Self::Deleted(path) => path.as_str(),
            Self::Untouched(path) => path.as_str(),
        }
    }
}

/// Why hooks could not be installed.
#[derive(Clone, Debug, PartialEq, Eq)]
pub enum HookError {
    /// The path given is not a git repository.
    NotARepo {
        /// What was given.
        path: String,
    },
    /// A hook file could not be read or written.
    Io {
        /// Which file.
        path: String,
        /// Why.
        source: String,
    },
}

impl HookError {
    /// The error in words.
    pub fn describe(&self) -> (r: String)
        ensures
            r@ == match *self {
                Self::NotARepo { path } => path@
                    + " does not look like a git repository (no hooks directory)\n  try: point --repo at a working copy, or at the bare mirror itself for --mode bare-mirror"@,
                Self::Io { path, source } => "could not write "@ + path@ + ": "@ + source@,
            },
    {
        match self {
            Self::NotARepo { path } => crate::text::cat2(
                path.as_str(),
                " does not look like a git repository (no hooks directory)\n  try: point --repo at a working copy, or at the bare mirror itself for --mode bare-mirror",
            ),
            Self::Io { path, source } => crate::text::cat4(
                "could not write ",
                path.as_str(),
                ": ",
                source.as_str(),
            ),
        }
    }
}

/// The places where a repository's hooks may be: of a working copy, and of a bare repository.
pub fn hooks_candidates(repo_path: &str) -> (r: (String, String))
    ensures
        r.0@ == joined_path(joined_path(repo_path@, ".git"@), "hooks"@),
        r.1@ == joined_path(repo_path@, "hooks"@),
{
    (join_path(join_path(repo_path, ".git").as_str(), "hooks"), join_path(repo_path, "hooks"))
}

/// Where a repository's hooks are, given which of the two places are directories. A `.git` file
/// is a worktree or a submodule: making the directory would put hooks where nobody reads them.
pub fn hooks_dir(repo_path: &str, working_copy: bool, bare: bool) -> (r: Result<String, HookError>)
    ensures
        match r {
            Ok(dir) => dir@ == if working_copy {
                joined_path(joined_path(repo_path@, ".git"@), "hooks"@)
            } else {
                joined_path(repo_path@, "hooks"@)
            } && (working_copy || bare),
            Err(e) => !working_copy && !bare && e is NotARepo && e->NotARepo_path@ == repo_path@,
        },
{
    let (own, mirror) = hooks_candidates(repo_path);
    if working_copy {
        Ok(own)
    } else if bare {
        Ok(mirror)
    } else {
        Err(HookError::NotARepo { path: repo_path.to_owned() })
    }
}

// --- the block ---

/// What a block holds before the line that ends it.
pub open spec fn block_body(repo: Seq<char>, port: nat, secret_env: Seq<char>) -> Seq<char> {
    BEGIN_MARKER@ + "\n# Notifies rev-local that "@ + repo
        + " changed. Installed by:\n#   revlocal hooks install --repo "@ + repo
        + "\n# Remove with `revlocal hooks uninstall`, or delete these lines.\n#\n# This block must never fail your commit. It has no `set -e`, it ignores\n"@
        + "# curl's exit status, and the hook ends in `exit 0`. If rev-local is not\n# running, your commit succeeds and no review happens.\n"@
        + "if command -v curl >/dev/null 2>&1; then\n  curl --silent --show-error --output /dev/null \\\n       --max-time "@
        + decimal(HOOK_TIMEOUT_SECS as nat)
        + " \\\n       --header 'content-type: application/json' \\\n       --header \"x-revlocal-secret: ${"@
        + secret_env + ":-}\" \\\n       --data '{\"repo\":\""@ + repo
        + "\"}' \\\n       http://127.0.0.1:"@ + decimal(port) + "/trigger >/dev/null 2>&1 || true\nfi\n"@
}

/// The block for one hook.
pub open spec fn block_for(repo: Seq<char>, port: nat, secret_env: Seq<char>) -> Seq<char> {
    block_body(repo, port, secret_env) + END_MARKER@ + "\n"@
}

/// The block for one hook. It explains itself: a developer who finds a `curl` in their own hook
/// is entitled to be alarmed. The secret is not in it, only the name of the variable that holds
/// it.
pub fn managed_block(repo_name: &str, port: u16, secret_env: &str) -> (r: String)
    ensures
        r@ == block_for(repo_name@, port as nat, secret_env@),
{
    let mut out = BEGIN_MARKER.to_owned();
    out.append("\n# Notifies rev-local that ");
    out.append(repo_name);
    out.append(" changed. Installed by:\n#   revlocal hooks install --repo ");
    out.append(repo_name);
    out.append(
        "\n# Remove with `revlocal hooks uninstall`, or delete these lines.\n#\n# This block must never fail your commit. It has no `set -e`, it ignores\n",
    );
    out.append(
        "# curl's exit status, and the hook ends in `exit 0`. If rev-local is not\n# running, your commit succeeds and no review happens.\n",
    );
    out.append(
        "if command -v curl >/dev/null 2>&1; then\n  curl --silent --show-error --output /dev/null \\\n       --max-time ",
    );
    out.append(num(HOOK_TIMEOUT_SECS as u64).as_str());
    out.append(
        " \\\n       --header 'content-type: application/json' \\\n       --header \"x-revlocal-secret: ${",
    );
    out.append(secret_env);
    out.append(":-}\" \\\n       --data '{\"repo\":\"");
    out.append(repo_name);
    out.append("\"}' \\\n       http://127.0.0.1:");
    out.append(num(port as u64).as_str());
    out.append("/trigger >/dev/null 2>&1 || true\nfi\n");
    out.append(END_MARKER);
    out.append("\n");
    out
}

/// What stands before the block of a hook written here.
pub open spec fn hook_head() -> Seq<char> {
    "#!/bin/sh\n# Written by rev-local. Safe to edit outside the managed block below.\n\n"@
}

/// What stands after it.
pub open spec fn hook_foot() -> Seq<char> {
    "\n# rev-local's block must never be the reason this hook fails.\nexit 0\n"@
}

/// A complete hook, for where there was none.
pub open spec fn hook_with(block: Seq<char>) -> Seq<char> {
    hook_head() + block + hook_foot()
}

/// A complete hook, for where there was none.
pub fn whole_hook(block: &str) -> (r: String)
    ensures
        r@ == hook_with(block@),
{
    cat3(
        "#!/bin/sh\n# Written by rev-local. Safe to edit outside the managed block below.\n\n",
        block,
        "\n# rev-local's block must never be the reason this hook fails.\nexit 0\n",
    )
}

// --- lines ---

/// A line without what ends it.
pub open spec fn line_body(piece: Seq<char>) -> Seq<char> {
    if piece.len() > 0 && piece.last() == '\n' {
        if piece.len() > 1 && piece[piece.len() - 2] == '\r' {
            piece.take(piece.len() - 2)
        } else {
            piece.take(piece.len() - 1)
        }
    } else {
        piece
    }
}

/// The lines of a text, without what ends them.
pub open spec fn lines_of(s: Seq<char>) -> Seq<Seq<char>> {
    pieces(s).map_values(|p: Seq<char>| line_body(p))
}

/// Lines, each with a newline after it.
pub open spec fn ended(lines: Seq<Seq<char>>) -> Seq<char>
    decreases lines.len(),
{
    if lines.len() == 0 {
        Seq::empty()
    } else {
        ended(lines.drop_last()) + lines.last().push('\n')
    }
}

fn lines(s: &str) -> (r: Vec<String>)
    ensures
        texts(r@) == lines_of(s@),
{
    let parts = split_lines(s);
    let mut r: Vec<String> = Vec::new();
    let mut i: usize = 0;
    while i < parts.len()
        invariant
            i <= parts.len(),
            r@.len() == i,
            forall|j: int| 0 <= j < i ==> (#[trigger] r@[j])@ == line_body(parts@[j]@),
        decreases parts.len() - i,
    {
        let v = chars_of(parts[i].as_str());
        let mut n: usize = v.len();
        if n > 0 && v[n - 1] == '\n' {
            n = n - 1;
            if n > 0 && v[n - 1] == '\r' {
                n = n - 1;
            }
        }
        assert(v@.subrange(0, n as int) =~= line_body(v@));
        r.push(text_of(&v, 0, n));
        i += 1;
    }
    assert(texts(parts@).len() == parts@.len());
    assert(texts(r@) =~= lines_of(s@));
    r
}

/// Whether a line does something: it is neither blank nor a comment.
pub open spec fn does_something(line: Seq<char>) -> bool {
    trimmed(line).len() > 0 && trimmed(line)[0] != '#'
}

/// The last line that does something.
pub open spec fn last_doing(lines: Seq<Seq<char>>) -> Option<int>
    decreases lines.len(),
{
    if lines.len() == 0 {
        None
    } else if does_something(lines.last()) {
        Some(lines.len() - 1)
    } else {
        last_doing(lines.drop_last())
    }
}

/// Where a block goes so that it runs: before the `exit` that a script ends with, or at the end.
pub open spec fn insertion(lines: Seq<Seq<char>>) -> int {
    match last_doing(lines) {
        Some(i) => if "exit"@.is_prefix_of(trimmed_start(lines[i])) {
            i
        } else {
            lines.len() as int
        },
        None => lines.len() as int,
    }
}

/// A script with a block put where it runs.
pub open spec fn inserted(base: Seq<char>, block: Seq<char>) -> Seq<char> {
    let all = lines_of(base);
    let at = insertion(all);
    joined(all.take(at) + lines_of(block) + all.skip(at), "\n"@) + "\n"@
}

fn insertion_point(lines: &Vec<String>) -> (r: usize)
    ensures
        r == insertion(texts(lines@)),
        r <= lines@.len(),
{
    let ghost all = texts(lines@);
    let mut i: usize = lines.len();
    assert(all.take(all.len() as int) =~= all);
    while i > 0
        invariant
            i <= lines@.len() == all.len(),
            all == texts(lines@),
            last_doing(all) == last_doing(all.take(i as int)),
        decreases i,
    {
        assert(all.take(i as int).drop_last() =~= all.take(i - 1));
        assert(all.take(i as int).last() == lines@[i - 1]@);
        let line = trim(lines[i - 1].as_str());
        let v = chars_of(line.as_str());
        if v.len() > 0 && v[0] != '#' {
            let own = chars_of(lines[i - 1].as_str());
            let start = trim_start(&own);
            let text = text_of(&start, 0, start.len());
            assert(start@.subrange(0, start@.len() as int) =~= start@);
            if starts_with(text.as_str(), "exit") {
                return i - 1;
            }
            return lines.len();
        }
        i -= 1;
    }
    assert(all.take(0) =~= Seq::empty());
    lines.len()
}

/// Put a block into a script, where it runs. Hooks commonly end with `exit 0`, and a block after
/// it is one that never runs while it looks right everywhere somebody would check.
pub fn insert_block(base: &str, block: &str) -> (r: String)
    ensures
        r@ == inserted(base@, block@),
{
    let own = lines(base);
    let new = lines(block);
    let at = insertion_point(&own);
    let mut all: Vec<String> = Vec::new();
    let mut i: usize = 0;
    while i < at
        invariant
            i <= at <= own@.len(),
            texts(all@) =~= texts(own@).take(i as int),
        decreases at - i,
    {
        let ghost was = all@;
        all.push(own[i].clone());
        assert(texts(all@) =~= texts(was).push(own@[i as int]@));
        i += 1;
    }
    let mut k: usize = 0;
    while k < new.len()
        invariant
            at <= own@.len(),
            k <= new@.len(),
            texts(all@) =~= texts(own@).take(at as int) + texts(new@).take(k as int),
        decreases new.len() - k,
    {
        let ghost was = all@;
        all.push(new[k].clone());
        assert(texts(all@) =~= texts(was).push(new@[k as int]@));
        k += 1;
    }
    assert(texts(new@).take(new@.len() as int) =~= texts(new@));
    let mut m: usize = at;
    while m < own.len()
        invariant
            at <= m <= own@.len(),
            texts(all@) =~= texts(own@).take(at as int) + texts(new@) + texts(own@).subrange(
                at as int,
                m as int,
            ),
        decreases own.len() - m,
    {
        let ghost was = all@;
        all.push(own[m].clone());
        assert(texts(all@) =~= texts(was).push(own@[m as int]@));
        m += 1;
    }
    assert(texts(own@).subrange(at as int, own@.len() as int) =~= texts(own@).skip(at as int));
    let mut out = join(&all, "\n");
    out.append("\n");
    out
}

// --- taking a block out, and putting another in its place ---

/// Where a text first stands in another.
pub open spec fn place(hay: Seq<char>, needle: Seq<char>) -> Option<int> {
    if exists|i: int| first_at(hay, needle, i) {
        Some(choose|i: int| first_at(hay, needle, i))
    } else {
        None
    }
}

proof fn place_is(hay: Seq<char>, needle: Seq<char>, i: int)
    requires
        first_at(hay, needle, i),
    ensures
        place(hay, needle) == Some(i),
{
    let k = choose|k: int| first_at(hay, needle, k);
    assert(first_at(hay, needle, k));
    if k < i {
        assert(!stands_at(hay, needle, k));
    } else if i < k {
        assert(!stands_at(hay, needle, i));
    }
}

proof fn place_none(hay: Seq<char>, needle: Seq<char>)
    requires
        !within(hay, needle),
    ensures
        place(hay, needle) is None,
{
}

fn find_place(hay: &Vec<char>, needle: &str) -> (r: Option<usize>)
    ensures
        place(hay@, needle@) == match r {
            Some(i) => Some(i as int),
            None => None::<int>,
        },
        r matches Some(i) ==> i + needle@.len() <= hay@.len(),
{
    let r = find(hay, &chars_of(needle));
    proof {
        match r {
            Some(i) => place_is(hay@, needle@, i as int),
            None => place_none(hay@, needle@),
        }
    }
    r
}

/// A text without the newline that it begins with.
pub open spec fn past_newline(s: Seq<char>) -> Seq<char> {
    if s.len() > 0 && s[0] == '\n' {
        s.drop_first()
    } else {
        s
    }
}

/// What stands before the block of a text, and what stands after it. The newline after the end
/// marker belongs to the block: otherwise every round of installing and removing would leave the
/// file a line longer.
pub open spec fn around_block(text: Seq<char>) -> Option<(Seq<char>, Seq<char>)> {
    match (place(text, BEGIN_MARKER@), place(text, END_MARKER@)) {
        (Some(begin), Some(end)) => if end < begin {
            None
        } else {
            Some((text.take(begin), past_newline(text.skip(end + END_MARKER@.len()))))
        },
        _ => None,
    }
}

/// A text without its block, if it has one.
pub open spec fn unblocked(text: Seq<char>) -> Option<Seq<char>> {
    match around_block(text) {
        Some(p) => Some(p.0 + p.1),
        None => None,
    }
}

/// A text with another block where its own was; put in afresh where it has none.
pub open spec fn replaced(text: Seq<char>, block: Seq<char>) -> Seq<char> {
    match around_block(text) {
        Some(p) => p.0 + block + p.1,
        None => inserted(text, block),
    }
}

fn split_at_block(text: &str) -> (r: Option<(String, String)>)
    ensures
        around_block(text@) == match r {
            Some(p) => Some((p.0@, p.1@)),
            None => None::<(Seq<char>, Seq<char>)>,
        },
{
    let v = chars_of(text);
    let first = find_place(&v, BEGIN_MARKER);
    let last = find_place(&v, END_MARKER);
    match (first, last) {
        (Some(begin), Some(end)) => {
            if end < begin {
                return None;
            }
            let marker = chars_of(END_MARKER);
            let size: usize = v.len();
            assert(end + marker@.len() <= size);
            let mut after: usize = end + marker.len();
            let ghost rest = v@.skip(after as int);
            if after < size && v[after] == '\n' {
                after = after + 1;
            }
            assert(v@.subrange(0, begin as int) =~= v@.take(begin as int));
            assert(v@.subrange(after as int, v@.len() as int) =~= past_newline(rest));
            Some((text_of(&v, 0, begin), text_of(&v, after, v.len())))
        },
        _ => None,
    }
}

/// Remove the block from a hook's text. Nothing where there is none, so that a caller can tell
/// "nothing to do" from "removed something".
pub fn strip_block(text: &str) -> (r: Option<String>)
    ensures
        opt_text(r) == unblocked(text@),
{
    match split_at_block(text) {
        Some(p) => Some(crate::text::cat2(p.0.as_str(), p.1.as_str())),
        None => None,
    }
}

/// Put a new block where the old one was.
pub fn replace_block_in_place(text: &str, block: &str) -> (r: String)
    ensures
        r@ == replaced(text@, block@),
{
    match split_at_block(text) {
        Some(p) => cat3(p.0.as_str(), block, p.1.as_str()),
        None => insert_block(text, block),
    }
}

/// Whether a line is one that is written around a block here.
pub open spec fn line_of_ours(line: Seq<char>) -> bool {
    !does_something(line) || trimmed(line) == "exit 0"@
}

/// Whether a hook was written here in its entirety: nothing but comments and `exit 0` is left
/// without the block. A mistake one way leaves an inert hook behind; the other way it deletes
/// somebody's script.
pub open spec fn ours_entirely(text: Seq<char>) -> bool {
    unblocked(text) is Some && forall|i: int|
        0 <= i < lines_of(unblocked(text)->0).len() ==> line_of_ours(
            #[trigger] lines_of(unblocked(text)->0)[i],
        )
}

/// Whether a hook was written here in its entirety.
pub fn is_ours_entirely(text: &str) -> (r: bool)
    ensures
        r == ours_entirely(text@),
{
    let stripped = match strip_block(text) {
        Some(stripped) => stripped,
        None => {
            return false;
        },
    };
    let all = lines(stripped.as_str());
    let ghost seen = lines_of(stripped@);
    let mut i: usize = 0;
    while i < all.len()
        invariant
            i <= all.len(),
            seen == texts(all@),
            unblocked(text@) == Some(stripped@),
            seen == lines_of(stripped@),
            forall|j: int| 0 <= j < i ==> line_of_ours(#[trigger] seen[j]),
        decreases all.len() - i,
    {
        let line = trim(all[i].as_str());
        let v = chars_of(line.as_str());
        assert(seen[i as int] == all@[i as int]@);
        if v.len() > 0 && v[0] != '#' && !same(line.as_str(), "exit 0") {
            assert(!line_of_ours(lines_of(unblocked(text@)->0)[i as int]));
            return false;
        }
        i += 1;
    }
    true
}

/// A text with plain line ends.
pub open spec fn plain_ends(s: Seq<char>) -> Seq<char>
    decreases s.len(),
{
    if s.len() == 0 {
        Seq::empty()
    } else if s.len() >= 2 && s[0] == '\r' && s[1] == '\n' {
        seq!['\n'] + plain_ends(s.skip(2))
    } else {
        seq![s[0]] + plain_ends(s.skip(1))
    }
}

/// A text with plain line ends.
pub fn to_plain_ends(s: &str) -> (r: String)
    ensures
        r@ == plain_ends(s@),
{
    let v = chars_of(s);
    let mut out: Vec<char> = Vec::new();
    let mut i: usize = 0;
    assert(v@.skip(0) =~= s@);
    assert(out@ + plain_ends(v@.skip(0)) =~= plain_ends(s@));
    while i < v.len()
        invariant
            i <= v.len(),
            out@ + plain_ends(v@.skip(i as int)) == plain_ends(s@),
        decreases v.len() - i,
    {
        let ghost rest = v@.skip(i as int);
        let ghost was = out@;
        if v[i] == '\r' && i + 1 < v.len() && v[i + 1] == '\n' {
            assert(rest.skip(2) =~= v@.skip(i + 2));
            assert(rest[0] == v@[i as int] && rest[1] == v@[i + 1]);
            out.push('\n');
            assert(was + (seq!['\n'] + plain_ends(rest.skip(2))) =~= out@ + plain_ends(rest.skip(2)));
            i += 2;
        } else {
            assert(rest.skip(1) =~= v@.skip(i + 1));
            assert(rest[0] == v@[i as int]);
            if i + 1 < v.len() {
                assert(rest[1] == v@[i + 1]);
            }
            out.push(v[i]);
            assert(was + (seq![rest[0]] + plain_ends(rest.skip(1))) =~= out@ + plain_ends(rest.skip(1)));
            i += 1;
        }
    }
    assert(v@.skip(v@.len() as int) =~= Seq::empty());
    assert(out@ =~= plain_ends(s@));
    assert(out@.subrange(0, out@.len() as int) =~= out@);
    text_of(&out, 0, out.len())
}

// --- one file ---

/// What a hook file holds after installing.
pub open spec fn installed(existing: Option<Seq<char>>, block: Seq<char>) -> Seq<char> {
    plain_ends(
        match existing {
            None => hook_with(block),
            Some(text) => if within(text, BEGIN_MARKER@) {
                replaced(text, block)
            } else {
                inserted(text, block)
            },
        },
    )
}

/// Whether a hook file holds a block, as far as installing goes: its begin marker stands in it.
pub fn holds_block(text: &str) -> (r: bool)
    ensures
        r == within(text@, BEGIN_MARKER@),
{
    crate::text::contains(text, BEGIN_MARKER)
}

/// Install into one hook file, given what it holds: what is to be written, and what that does.
pub fn install_one(path: &str, existing: Option<&str>, block: &str) -> (r: (String, HookOutcome))
    ensures
        r.0@ == installed(opt_str(existing), block@),
        r.1.file() == path@,
        match existing {
            None => r.1 is Created,
            Some(text) => if within(text@, BEGIN_MARKER@) {
                r.1 is Replaced
            } else {
                r.1 is Appended
            },
        },
{
    match existing {
        None => (to_plain_ends(whole_hook(block).as_str()), HookOutcome::Created(path.to_owned())),
        Some(text) => {
            if holds_block(text) {
                (
                    to_plain_ends(replace_block_in_place(text, block).as_str()),
                    HookOutcome::Replaced(path.to_owned()),
                )
            } else {
                (
                    to_plain_ends(insert_block(text, block).as_str()),
                    HookOutcome::Appended(path.to_owned()),
                )
            }
        },
    }
}

/// What uninstalling comes to, of one hook file.
pub enum Uninstalled {
    /// There was nothing to do.
    Untouched,
    /// The file is gone.
    Deleted,
    /// The block is gone, and this is what the file holds.
    Removed(Seq<char>),
}

/// What uninstalling comes to, given what a hook file holds when it can be read.
pub open spec fn uninstalled(existing: Option<Seq<char>>) -> Uninstalled {
    match existing {
        None => Uninstalled::Untouched,
        Some(text) => match unblocked(text) {
            None => Uninstalled::Untouched,
            Some(stripped) => if ours_entirely(text) {
                Uninstalled::Deleted
            } else {
                Uninstalled::Removed(plain_ends(stripped))
            },
        },
    }
}

/// Remove the block from one hook file, given what it holds when it can be read: what that does,
/// and what is to be written where the file is kept.
pub fn uninstall_one(path: &str, existing: Option<&str>) -> (r: (HookOutcome, Option<String>))
    ensures
        r.0.file() == path@,
        match uninstalled(opt_str(existing)) {
            Uninstalled::Untouched => r.0 is Untouched && r.1 is None,
            Uninstalled::Deleted => r.0 is Deleted && r.1 is None,
            Uninstalled::Removed(text) => r.0 is Removed && opt_text(r.1) == Some(text),
        },
{
    match existing {
        None => (HookOutcome::Untouched(path.to_owned()), None),
        Some(text) => match strip_block(text) {
            None => (HookOutcome::Untouched(path.to_owned()), None),
            Some(stripped) => {
                if is_ours_entirely(text) {
                    (HookOutcome::Deleted(path.to_owned()), None)
                } else {
                    (
                        HookOutcome::Removed(path.to_owned()),
                        Some(to_plain_ends(stripped.as_str())),
                    )
                }
            },
        },
    }
}

// --- a repository ---

/// The hook files of a mode, in a directory.
pub open spec fn hook_files(dir: Seq<char>, mode: HookMode) -> Seq<Seq<char>> {
    mode.files().map_values(|name: Seq<char>| joined_path(dir, name))
}

fn hook_paths(dir: &str, mode: HookMode) -> (r: Vec<String>)
    ensures
        texts(r@) == hook_files(dir@, mode),
{
    let names = mode.hook_names();
    let mut r: Vec<String> = Vec::new();
    let mut i: usize = 0;
    while i < names.len()
        invariant
            i <= names@.len(),
            r@.len() == i,
            forall|j: int| 0 <= j < i ==> (#[trigger] r@[j])@ == joined_path(dir@, names@[j]@),
        decreases names@.len() - i,
    {
        r.push(join_path(dir, names[i]));
        i += 1;
    }
    assert(crate::text::strs(names@).len() == names@.len());
    assert(texts(r@) =~= hook_files(dir@, mode));
    r
}

/// Where the hooks of a repository are, of which a place or none was found.
pub open spec fn hooks_place(repo_path: Seq<char>, working_copy: bool, bare: bool) -> Option<Seq<char>> {
    if working_copy {
        Some(joined_path(joined_path(repo_path, ".git"@), "hooks"@))
    } else if bare {
        Some(joined_path(repo_path, "hooks"@))
    } else {
        None
    }
}

/// Install hooks into a repository: the files to install into, in order, and the block that goes
/// into each of them.
///
/// `secret_env` names the environment variable the hook reads its shared secret from. The secret
/// is never written into the hook: an environment variable's name is no secret, a secret in a
/// file is one.
pub fn install(
    repo_path: &str,
    working_copy: bool,
    bare: bool,
    repo_name: &str,
    mode: HookMode,
    port: u16,
    secret_env: &str,
) -> (r: Result<(Vec<String>, String), HookError>)
    ensures
        match r {
            Ok(plan) => {
                &&& hooks_place(repo_path@, working_copy, bare) matches Some(dir)
                &&& texts(plan.0@) == hook_files(dir, mode)
                &&& plan.1@ == block_for(repo_name@, port as nat, secret_env@)
            },
            Err(e) => {
                &&& hooks_place(repo_path@, working_copy, bare) is None
                &&& e is NotARepo
                &&& e->NotARepo_path@ == repo_path@
            },
        },
{
    match hooks_dir(repo_path, working_copy, bare) {
        Ok(dir) => Ok((hook_paths(dir.as_str(), mode), managed_block(repo_name, port, secret_env))),
        Err(e) => Err(e),
    }
}

/// Remove the hooks from a repository: the files to look at, in order.
pub fn uninstall(repo_path: &str, working_copy: bool, bare: bool, mode: HookMode) -> (r: Result<
    Vec<String>,
    HookError,
>)
    ensures
        match r {
            Ok(files) => {
                &&& hooks_place(repo_path@, working_copy, bare) matches Some(dir)
                &&& texts(files@) == hook_files(dir, mode)
            },
            Err(e) => {
                &&& hooks_place(repo_path@, working_copy, bare) is None
                &&& e is NotARepo
                &&& e->NotARepo_path@ == repo_path@
            },
        },
{
    match hooks_dir(repo_path, working_copy, bare) {
        Ok(dir) => Ok(hook_paths(dir.as_str(), mode)),
        Err(e) => Err(e),
    }
}

// --- what holds of every hook ---

/// Whether a block can be found again: it begins with its begin marker and ends with its end
/// marker on a line of its own, which stands nowhere else in it.
pub open spec fn well_marked(block: Seq<char>) -> bool {
    let n = block.len() - END_MARKER@.len() - 1;
    &&& n > 0
    &&& block[n - 1] == '\n'
    &&& block.skip(n) == END_MARKER@ + "\n"@
    &&& BEGIN_MARKER@.is_prefix_of(block.take(n))
    &&& !within(block.take(n), END_MARKER@)
}

/// Whether a block begins with the only begin marker in it.
pub open spec fn begins_once(block: Seq<char>) -> bool {
    !within(block.skip(1), BEGIN_MARKER@)
}

/// Whether a text is one of the two markers.
spec fn is_marker(m: Seq<char>) -> bool {
    m == BEGIN_MARKER@ || m == END_MARKER@
}

/// The markers, as texts: no newline and no carriage return stands in them, their first character
/// stands there alone, and they are told apart.
proof fn markers()
    ensures
        BEGIN_MARKER@.len() == 54,
        END_MARKER@.len() == 23,
        forall|i: int| 0 <= i < 54 ==> #[trigger] BEGIN_MARKER@[i] != '\n' && BEGIN_MARKER@[i] != '\r',
        forall|i: int| 0 <= i < 23 ==> #[trigger] END_MARKER@[i] != '\n' && END_MARKER@[i] != '\r',
        forall|i: int| 0 <= i < 54 ==> (#[trigger] BEGIN_MARKER@[i] == '#') == (i == 0),
        forall|i: int| 0 <= i < 23 ==> (#[trigger] END_MARKER@[i] == '#') == (i == 0),
        BEGIN_MARKER@[2] == '>',
        END_MARKER@[2] == '<',
{
    reveal_strlit("# >>> rev-local begin (managed block; do not edit) >>>");
    reveal_strlit("# <<< rev-local end <<<");
}

proof fn newline_is_one()
    ensures
        "\n"@ == seq!['\n'],
{
    reveal_strlit("\n");
    assert("\n"@ =~= seq!['\n']);
}

proof fn joined_is_ended(lines: Seq<Seq<char>>)
    requires
        lines.len() > 0,
    ensures
        joined(lines, "\n"@) + "\n"@ == ended(lines),
    decreases lines.len(),
{
    newline_is_one();
    if lines.len() == 1 {
        assert(ended(lines.drop_last()) =~= Seq::empty());
        assert(joined(lines, "\n"@) + "\n"@ =~= ended(lines));
    } else {
        joined_is_ended(lines.drop_last());
        assert(joined(lines, "\n"@) + "\n"@ =~= ended(lines));
    }
}

proof fn ended_of_sum(a: Seq<Seq<char>>, b: Seq<Seq<char>>)
    ensures
        ended(a + b) == ended(a) + ended(b),
    decreases b.len(),
{
    if b.len() == 0 {
        assert(a + b =~= a);
        assert(ended(a + b) =~= ended(a) + ended(b));
    } else {
        assert((a + b).drop_last() =~= a + b.drop_last());
        ended_of_sum(a, b.drop_last());
        assert(ended(a + b) =~= ended(a) + ended(b));
    }
}

proof fn ended_ends(lines: Seq<Seq<char>>)
    requires
        lines.len() > 0,
    ensures
        ended(lines).len() > 0,
        ended(lines).last() == '\n',
{
}

/// Whether a text can stand in lines at all: it is not empty, and no newline is in it.
spec fn one_line(s: Seq<char>) -> bool {
    s.len() > 0 && forall|i: int| 0 <= i < s.len() ==> #[trigger] s[i] != '\n'
}

proof fn part_of(hay: Seq<char>, needle: Seq<char>, from: int, to: int, i: int)
    requires
        0 <= from <= to <= hay.len(),
        stands_at(hay.subrange(from, to), needle, i),
    ensures
        stands_at(hay, needle, from + i),
{
    assert(hay.subrange(from + i, from + i + needle.len()) =~= hay.subrange(from, to).subrange(
        i,
        i + needle.len(),
    ));
}

proof fn stands_in_part(hay: Seq<char>, needle: Seq<char>, from: int, to: int, i: int)
    requires
        0 <= from <= i,
        i + needle.len() <= to <= hay.len(),
        stands_at(hay, needle, i),
    ensures
        stands_at(hay.subrange(from, to), needle, i - from),
{
    assert(hay.subrange(from, to).subrange(i - from, i - from + needle.len()) =~= hay.subrange(
        i,
        i + needle.len(),
    ));
}

/// What stands in lines stands in one of them.
proof fn stands_in_a_line(lines: Seq<Seq<char>>, needle: Seq<char>, i: int)
    requires
        one_line(needle),
        stands_at(ended(lines), needle, i),
    ensures
        exists|k: int| 0 <= k < lines.len() && within(#[trigger] lines[k], needle),
    decreases lines.len(),
{
    if lines.len() > 0 {
        let init = ended(lines.drop_last());
        let all = ended(lines);
        let last = lines.last();
        assert(forall|j: int| 0 <= j < needle.len() ==> all[i + j] == #[trigger] all.subrange(i, i + needle.len())[j]);
        if i + needle.len() <= init.len() {
            stands_in_part(all, needle, 0, init.len() as int, i);
            assert(all.subrange(0, init.len() as int) =~= init);
            stands_in_a_line(lines.drop_last(), needle, i);
            let k = choose|k: int|
                0 <= k < lines.drop_last().len() && within(#[trigger] lines.drop_last()[k], needle);
            assert(within(lines[k], needle));
        } else if i >= init.len() {
            if i + needle.len() == all.len() {
                assert(all[i + (needle.len() - 1)] == needle[needle.len() - 1]);
                assert(all.last() == '\n');
            }
            stands_in_part(all, needle, init.len() as int, all.len() - 1, i);
            assert(all.subrange(init.len() as int, all.len() - 1) =~= last);
            assert(within(lines[lines.len() - 1], needle));
        } else {
            ended_ends(lines.drop_last());
            let j = init.len() - 1 - i;
            assert(all[i + j] == init.last());
            assert(needle[j] == '\n');
        }
    }
}

/// What stands in a line stands in the text.
proof fn stands_in_the_text(s: Seq<char>, needle: Seq<char>, k: int)
    requires
        0 <= k < lines_of(s).len(),
        within(lines_of(s)[k], needle),
    ensures
        within(s, needle),
    decreases s.len(),
{
    if s.len() > 0 {
        line_len_bounds(s);
        let n = line_len(s) as int;
        let first = s.take(n);
        let rest = s.skip(n);
        assert(pieces(s) =~= seq![first] + pieces(rest));
        if k == 0 {
            assert(lines_of(s)[0] == line_body(first));
            let i = choose|i: int| stands_at(line_body(first), needle, i);
            let m = line_body(first).len() as int;
            assert(line_body(first) =~= s.subrange(0, m));
            part_of(s, needle, 0, m, i);
        } else {
            assert(lines_of(rest)[k - 1] == lines_of(s)[k]);
            stands_in_the_text(rest, needle, k - 1);
            let i = choose|i: int| stands_at(rest, needle, i);
            assert(rest =~= s.subrange(n, s.len() as int));
            part_of(s, needle, n, s.len() as int, i);
        }
    }
}

/// No marker begins in a text and ends in what follows it, where that begins with a marker.
proof fn none_before(before: Seq<char>, more: Seq<char>, marker: Seq<char>, j: int)
    requires
        is_marker(marker),
        more.len() > 0,
        more[0] == '#',
        0 <= j < before.len(),
        !within(before, marker),
    ensures
        !stands_at(before + more, marker, j),
{
    markers();
    let all = before + more;
    if stands_at(all, marker, j) {
        let n = before.len() as int;
        if j + marker.len() > n {
            assert(all.subrange(j, j + marker.len())[n - j] == all[n]);
            assert(marker[n - j] == '#');
        }
        stands_in_part(all, marker, 0, n, j);
        assert(all.subrange(0, n) =~= before);
    }
}

proof fn begins_with_its_marker(block: Seq<char>)
    requires
        well_marked(block),
    ensures
        block.len() >= 78,
        block.last() == '\n',
        block[0] == '#',
        stands_at(block, BEGIN_MARKER@, 0),
        stands_at(block, END_MARKER@, block.len() - 24),
{
    markers();
    newline_is_one();
    let n = block.len() - 24;
    let body = block.take(n);
    let foot = block.skip(n);
    assert(body.len() >= 54);
    assert(body.subrange(0, 54) =~= BEGIN_MARKER@);
    assert(block.subrange(0, 54) =~= body.subrange(0, 54));
    assert(BEGIN_MARKER@[0] == block.subrange(0, 54)[0]);
    assert(foot[23] == '\n');
    assert(block.subrange(n, n + 23) =~= foot.subrange(0, 23));
    assert(foot.subrange(0, 23) =~= END_MARKER@);
}

/// The begin marker of a block is found where the block begins, if none stands before it.
proof fn begin_is_found(before: Seq<char>, block: Seq<char>, after: Seq<char>)
    requires
        well_marked(block),
        !within(before, BEGIN_MARKER@),
    ensures
        stands_at(before + block + after, BEGIN_MARKER@, before.len() as int),
        place(before + block + after, BEGIN_MARKER@) == Some(before.len() as int),
{
    markers();
    begins_with_its_marker(block);
    let all = before + block + after;
    let n = before.len() as int;
    assert(all =~= before + (block + after));
    assert(block =~= all.subrange(n, n + block.len()));
    part_of(all, BEGIN_MARKER@, n, n + block.len(), 0);
    assert forall|j: int| j < n implies !#[trigger] stands_at(all, BEGIN_MARKER@, j) by {
        if stands_at(all, BEGIN_MARKER@, j) {
            none_before(before, block + after, BEGIN_MARKER@, j);
        }
    }
    place_is(all, BEGIN_MARKER@, n);
}

/// The end marker of a block is found where the block ends, if none stands before it.
proof fn end_is_found(before: Seq<char>, block: Seq<char>, after: Seq<char>)
    requires
        well_marked(block),
        !within(before, END_MARKER@),
    ensures
        place(before + block + after, END_MARKER@) == Some(
            before.len() + block.len() - END_MARKER@.len() - 1,
        ),
{
    markers();
    begins_with_its_marker(block);
    let all = before + block + after;
    let n = before.len() as int;
    let m = n + block.len();
    let e = block.len() - 24;
    assert(block =~= all.subrange(n, m));
    part_of(all, END_MARKER@, n, m, e);
    assert(all =~= before + (block + after));
    assert forall|j: int| j < n + e implies !#[trigger] stands_at(all, END_MARKER@, j) by {
        if stands_at(all, END_MARKER@, j) {
            if j < n {
                none_before(before, block + after, END_MARKER@, j);
            } else {
                if j + 23 > n + e {
                    let at = n + e - 1 - j;
                    assert(all.subrange(j, j + 23)[at] == all[n + e - 1]);
                    assert(all[n + e - 1] == block[e - 1]);
                    assert(END_MARKER@[at] == '\n');
                }
                stands_in_part(all, END_MARKER@, n, n + e, j);
                assert(all.subrange(n, n + e) =~= block.take(e));
                assert(stands_at(block.take(e), END_MARKER@, j - n));
            }
        }
    }
    place_is(all, END_MARKER@, n + e);
}

/// A block in a text without markers before it is found: it begins where it begins, and ends
/// where it ends.
proof fn block_is_found(before: Seq<char>, block: Seq<char>, after: Seq<char>)
    requires
        well_marked(block),
        !within(before, BEGIN_MARKER@),
        !within(before, END_MARKER@),
    ensures
        around_block(before + block + after) == Some((before, after)),
        within(before + block + after, BEGIN_MARKER@),
{
    markers();
    begins_with_its_marker(block);
    let all = before + block + after;
    let n = before.len() as int;
    begin_is_found(before, block, after);
    end_is_found(before, block, after);
    assert(all.take(n) =~= before);
    let rest = all.skip(n + block.len() - 1);
    assert(rest[0] == block.last());
    assert(rest.drop_first() =~= after);
}

// --- plain line ends ---

proof fn return_newline()
    ensures
        "\r\n"@ == seq!['\r', '\n'],
{
    reveal_strlit("\r\n");
    assert("\r\n"@ =~= seq!['\r', '\n']);
}

proof fn stands_pair(s: Seq<char>, i: int)
    requires
        0 <= i,
        i + 1 < s.len(),
        s[i] == '\r',
        s[i + 1] == '\n',
    ensures
        within(s, "\r\n"@),
{
    return_newline();
    assert(s.subrange(i, i + 2) =~= "\r\n"@);
    assert(stands_at(s, "\r\n"@, i));
}

proof fn not_in_the_rest(s: Seq<char>, needle: Seq<char>, n: int)
    requires
        0 <= n <= s.len(),
        !within(s, needle),
    ensures
        !within(s.skip(n), needle),
{
    if within(s.skip(n), needle) {
        let i = choose|i: int| stands_at(s.skip(n), needle, i);
        assert(s.skip(n) =~= s.subrange(n, s.len() as int));
        part_of(s, needle, n, s.len() as int, i);
    }
}

proof fn plain_is_same(s: Seq<char>)
    requires
        !within(s, "\r\n"@),
    ensures
        plain_ends(s) == s,
    decreases s.len(),
{
    if s.len() > 0 {
        if s.len() >= 2 && s[0] == '\r' && s[1] == '\n' {
            stands_pair(s, 0);
        }
        not_in_the_rest(s, "\r\n"@, 1);
        plain_is_same(s.skip(1));
        assert(plain_ends(s) =~= s);
    }
}

proof fn plain_sum(a: Seq<char>, b: Seq<char>)
    requires
        a.len() == 0 || a.last() != '\r' || b.len() == 0 || b[0] != '\n',
    ensures
        plain_ends(a + b) == plain_ends(a) + plain_ends(b),
    decreases a.len(),
{
    let all = a + b;
    if a.len() == 0 {
        assert(all =~= b);
        assert(plain_ends(all) =~= plain_ends(a) + plain_ends(b));
    } else if a.len() >= 2 && a[0] == '\r' && a[1] == '\n' {
        assert(all.skip(2) =~= a.skip(2) + b);
        plain_sum(a.skip(2), b);
        assert(plain_ends(all) =~= plain_ends(a) + plain_ends(b));
    } else {
        assert(all[0] == a[0]);
        if a.len() > 1 {
            assert(all[1] == a[1]);
        } else if b.len() > 0 {
            assert(all[1] == b[0]);
        }
        assert(all.skip(1) =~= a.skip(1) + b);
        plain_sum(a.skip(1), b);
        assert(plain_ends(all) =~= plain_ends(a) + plain_ends(b));
    }
}

proof fn plain_keeps_the_end(s: Seq<char>)
    requires
        s.len() > 0,
        s.last() == '\n',
    ensures
        plain_ends(s).len() > 0,
        plain_ends(s).last() == '\n',
    decreases s.len(),
{
    assert(plain_ends(Seq::<char>::empty()) =~= Seq::empty());
    if s.len() >= 2 && s[0] == '\r' && s[1] == '\n' {
        let rest = s.skip(2);
        assert(plain_ends(s) =~= seq!['\n'] + plain_ends(rest));
        if s.len() > 2 {
            plain_keeps_the_end(rest);
        } else {
            assert(rest =~= Seq::empty());
        }
    } else {
        let rest = s.skip(1);
        assert(plain_ends(s) =~= seq![s[0]] + plain_ends(rest));
        if s.len() > 1 {
            plain_keeps_the_end(rest);
        } else {
            assert(rest =~= Seq::empty());
        }
    }
}

/// What a text with plain ends begins with, if it is of one line, the text begins with.
proof fn plain_begins(s: Seq<char>, needle: Seq<char>)
    requires
        forall|i: int| 0 <= i < needle.len() ==> #[trigger] needle[i] != '\n',
        needle.is_prefix_of(plain_ends(s)),
    ensures
        needle.is_prefix_of(s),
    decreases s.len(),
{
    let plain = plain_ends(s);
    assert(needle =~= plain.subrange(0, needle.len() as int));
    if needle.len() > 0 {
        assert(needle[0] == plain[0]);
        let rest = needle.skip(1);
        assert(forall|i: int| 0 <= i < rest.len() ==> #[trigger] rest[i] == needle[i + 1]);
        let more = plain_ends(s.skip(1));
        assert(plain =~= seq![s[0]] + more);
        assert(rest =~= more.subrange(0, rest.len() as int)) by {
            assert(forall|i: int| 0 <= i < rest.len() ==> #[trigger] more[i] == plain[i + 1]);
        }
        plain_begins(s.skip(1), rest);
        assert(rest =~= s.skip(1).subrange(0, rest.len() as int));
        assert forall|i: int| 0 <= i < needle.len() implies needle[i] == #[trigger] s[i] by {
            if i > 0 {
                assert(rest[i - 1] == s.skip(1)[i - 1]);
            }
        }
        assert(needle =~= s.subrange(0, needle.len() as int));
    } else {
        assert(needle =~= s.subrange(0, 0));
    }
}

/// What stands in a text with plain ends, if it is of one line, stands in the text.
proof fn plain_holds_no_more(s: Seq<char>, needle: Seq<char>)
    requires
        one_line(needle),
        !within(s, needle),
    ensures
        !within(plain_ends(s), needle),
    decreases s.len(),
{
    let plain = plain_ends(s);
    if within(plain, needle) {
        let i = choose|i: int| stands_at(plain, needle, i);
        let cut: int = if s.len() >= 2 && s[0] == '\r' && s[1] == '\n' {
            2
        } else {
            1
        };
        if i == 0 {
            assert(needle =~= plain.subrange(0, needle.len() as int));
            plain_begins(s, needle);
            assert(stands_at(s, needle, 0));
        } else {
            let more = plain_ends(s.skip(cut));
            assert(more =~= plain.subrange(1, plain.len() as int));
            stands_in_part(plain, needle, 1, plain.len() as int, i);
            not_in_the_rest(s, needle, cut);
            plain_holds_no_more(s.skip(cut), needle);
        }
    }
}

/// A text without carriage returns has plain ends.
proof fn no_return_is_plain(s: Seq<char>)
    requires
        forall|i: int| 0 <= i < s.len() ==> #[trigger] s[i] != '\r',
    ensures
        !within(s, "\r\n"@),
        plain_ends(s) == s,
{
    return_newline();
    if within(s, "\r\n"@) {
        let i = choose|i: int| stands_at(s, "\r\n"@, i);
        assert(s.subrange(i, i + 2)[0] == s[i]);
    }
    plain_is_same(s);
}

/// Making ends plain leaves a text as it is exactly where there is nothing to make plain.
proof fn plain_is_shorter(s: Seq<char>)
    ensures
        plain_ends(s).len() <= s.len(),
        within(s, "\r\n"@) ==> plain_ends(s).len() < s.len(),
    decreases s.len(),
{
    return_newline();
    if s.len() == 0 {
        assert(!within(s, "\r\n"@));
    } else if s.len() >= 2 && s[0] == '\r' && s[1] == '\n' {
        plain_is_shorter(s.skip(2));
    } else {
        plain_is_shorter(s.skip(1));
        if within(s, "\r\n"@) {
            let i = choose|i: int| stands_at(s, "\r\n"@, i);
            let found = s.subrange(i, i + 2);
            assert(found[0] == s[i] && found[1] == s[i + 1]);
            assert(i > 0);
            stands_in_part(s, "\r\n"@, 1, s.len() as int, i);
            assert(s.skip(1) =~= s.subrange(1, s.len() as int));
        }
    }
}

/// Where a text ends its lines plainly, and no two carriage returns stand together before the end
/// of one, making the ends plain leaves nothing to be made plain.
proof fn plain_ends_are_plain(s: Seq<char>)
    requires
        forall|i: int|
            #![trigger s[i]]
            0 <= i && i + 2 < s.len() && s[i] == '\r' && s[i + 1] == '\r' ==> s[i + 2] != '\n',
    ensures
        !within(plain_ends(s), "\r\n"@),
    decreases s.len(),
{
    return_newline();
    let plain = plain_ends(s);
    if within(plain, "\r\n"@) {
        let i = choose|i: int| stands_at(plain, "\r\n"@, i);
        let found = plain.subrange(i, i + 2);
        assert(found[0] == plain[i] && found[1] == plain[i + 1]);
        let cut: int = if s.len() >= 2 && s[0] == '\r' && s[1] == '\n' {
            2
        } else {
            1
        };
        let rest = s.skip(cut);
        let more = plain_ends(rest);
        assert(plain =~= seq![plain[0]] + more);
        assert forall|k: int|
            #![trigger rest[k]]
            0 <= k && k + 2 < rest.len() && rest[k] == '\r' && rest[k + 1] == '\r' implies rest[k + 2] != '\n' by {
            assert(rest[k] == s[k + cut]);
        }
        if i == 0 {
            assert(more[0] == '\n');
            assert(rest.len() > 0);
            assert(rest[0] == s[1]);
            if rest.len() >= 2 {
                assert(rest[1] == s[2]);
            }
            assert(s[0] == '\r');
        } else {
            stands_in_part(plain, "\r\n"@, 1, plain.len() as int, i);
            assert(plain.subrange(1, plain.len() as int) =~= more);
            plain_ends_are_plain(rest);
        }
    }
}

proof fn first_line(s: Seq<char>)
    requires
        s.len() > 0,
        s.last() == '\n',
    ensures
        0 < line_len(s) <= s.len(),
        s[line_len(s) - 1] == '\n',
        forall|i: int| 0 <= i < line_len(s) - 1 ==> #[trigger] s[i] != '\n',
    decreases s.len(),
{
    if s[0] != '\n' {
        let rest = s.drop_first();
        first_line(rest);
        assert forall|i: int| 0 <= i < line_len(s) - 1 implies #[trigger] s[i] != '\n' by {
            if i > 0 {
                assert(rest[i - 1] == s[i]);
            }
        }
    }
}

/// One line with a plain end.
proof fn plain_line(line: Seq<char>)
    requires
        line.len() > 0,
        line.last() == '\n',
        forall|i: int| 0 <= i < line.len() - 1 ==> #[trigger] line[i] != '\n',
    ensures
        plain_ends(line) == line_body(line).push('\n'),
    decreases line.len(),
{
    assert(plain_ends(Seq::<char>::empty()) =~= Seq::empty());
    if line.len() == 1 {
        assert(line.skip(1) =~= Seq::empty());
        assert(plain_ends(line) =~= line_body(line).push('\n'));
    } else if line.len() == 2 && line[0] == '\r' {
        assert(line.skip(2) =~= Seq::empty());
        assert(plain_ends(line) =~= line_body(line).push('\n'));
    } else {
        let rest = line.skip(1);
        assert(forall|i: int| 0 <= i < rest.len() ==> #[trigger] rest[i] == line[i + 1]);
        plain_line(rest);
        assert(line_body(line) =~= seq![line[0]] + line_body(rest));
        assert(plain_ends(line) =~= line_body(line).push('\n'));
    }
}

/// The lines of a text that ends with one, each with a newline after it, are the text with plain
/// ends.
proof fn lines_with_plain_ends(s: Seq<char>)
    requires
        s.len() == 0 || s.last() == '\n',
    ensures
        ended(lines_of(s)) == plain_ends(s),
    decreases s.len(),
{
    if s.len() == 0 {
        assert(lines_of(s) =~= Seq::empty());
    } else {
        first_line(s);
        let n = line_len(s) as int;
        let first = s.take(n);
        let rest = s.skip(n);
        assert(forall|i: int| 0 <= i < n ==> #[trigger] first[i] == s[i]);
        plain_line(first);
        lines_with_plain_ends(rest);
        assert(lines_of(s) =~= seq![line_body(first)] + lines_of(rest));
        let one = seq![line_body(first)];
        ended_of_sum(one, lines_of(rest));
        assert(one.drop_last() =~= Seq::empty());
        assert(ended(one.drop_last()) =~= Seq::empty());
        assert(ended(one) =~= line_body(first).push('\n'));
        plain_sum(first, rest);
        assert(first + rest =~= s);
    }
}

/// A block that can be found again still can with plain ends.
proof fn plain_stays_well_marked(block: Seq<char>)
    requires
        well_marked(block),
    ensures
        well_marked(plain_ends(block)),
{
    markers();
    newline_is_one();
    begins_with_its_marker(block);
    let n = block.len() - 24;
    let body = block.take(n);
    let foot = block.skip(n);
    assert(forall|i: int| 0 <= i < foot.len() ==> #[trigger] foot[i] != '\r');
    no_return_is_plain(foot);
    assert(body.last() == '\n');
    plain_sum(body, foot);
    assert(body + foot =~= block);
    let plain = plain_ends(block);
    let front = plain_ends(body);
    assert(plain =~= front + foot);
    plain_keeps_the_end(body);
    plain_holds_no_more(body, END_MARKER@);
    assert(plain.take(plain.len() - 24) =~= front);
    assert(plain.skip(plain.len() - 24) =~= foot);
    let begin = body.take(54);
    assert(begin =~= BEGIN_MARKER@);
    no_return_is_plain(begin);
    assert(begin.last() == BEGIN_MARKER@[53]);
    plain_sum(begin, body.skip(54));
    assert(begin + body.skip(54) =~= body);
    assert(front =~= BEGIN_MARKER@ + plain_ends(body.skip(54)));
    assert(front.subrange(0, 54) =~= BEGIN_MARKER@);
}

// --- where a block stands ---

/// Whether neither marker stands in a text.
pub open spec fn unmarked(s: Seq<char>) -> bool {
    !within(s, BEGIN_MARKER@) && !within(s, END_MARKER@)
}

/// Whether a text stands in another, and in one place only.
pub open spec fn stands_once(hay: Seq<char>, needle: Seq<char>) -> bool {
    &&& within(hay, needle)
    &&& forall|i: int, j: int| #[trigger]
        stands_at(hay, needle, i) && #[trigger] stands_at(hay, needle, j) ==> i == j
}

/// Whether a hook file is absent, holds no marker, or holds one block.
pub open spec fn one_block_at_most(existing: Option<Seq<char>>) -> bool {
    match existing {
        None => true,
        Some(text) => if within(text, BEGIN_MARKER@) {
            around_block(text) matches Some(p) && !within(p.1, BEGIN_MARKER@)
        } else {
            !within(text, END_MARKER@)
        },
    }
}

proof fn begin_stands_once(before: Seq<char>, block: Seq<char>, after: Seq<char>)
    requires
        well_marked(block),
        begins_once(block),
        !within(before, BEGIN_MARKER@),
        !within(after, BEGIN_MARKER@),
    ensures
        stands_once(before + block + after, BEGIN_MARKER@),
{
    markers();
    begins_with_its_marker(block);
    begin_is_found(before, block, after);
    let all = before + block + after;
    let n = before.len() as int;
    let m = n + block.len();
    assert(all =~= before + (block + after));
    assert forall|j: int| #[trigger] stands_at(all, BEGIN_MARKER@, j) implies j == n by {
        if j < n {
            none_before(before, block + after, BEGIN_MARKER@, j);
        } else if n < j && j + 54 <= m {
            stands_in_part(all, BEGIN_MARKER@, n + 1, m, j);
            assert(all.subrange(n + 1, m) =~= block.skip(1));
        } else if n < j && j < m {
            assert(all.subrange(j, j + 54)[m - 1 - j] == all[m - 1]);
            assert(BEGIN_MARKER@[m - 1 - j] == '\n');
        } else if j >= m {
            stands_in_part(all, BEGIN_MARKER@, m, all.len() as int, j);
            assert(all.subrange(m, all.len() as int) =~= after);
        }
    }
}

proof fn not_in_lines(base: Seq<char>, some: Seq<Seq<char>>, needle: Seq<char>)
    requires
        one_line(needle),
        !within(base, needle),
        forall|k: int| 0 <= k < some.len() ==> lines_of(base).contains(#[trigger] some[k]),
    ensures
        !within(ended(some), needle),
{
    if within(ended(some), needle) {
        let i = choose|i: int| stands_at(ended(some), needle, i);
        stands_in_a_line(some, needle, i);
        let k = choose|k: int| 0 <= k < some.len() && within(#[trigger] some[k], needle);
        let m = choose|m: int| 0 <= m < lines_of(base).len() && lines_of(base)[m] == some[k];
        stands_in_the_text(base, needle, m);
    }
}

proof fn insertion_in_range(lines: Seq<Seq<char>>)
    ensures
        0 <= insertion(lines) <= lines.len(),
{
    last_doing_in_range(lines);
}

proof fn last_doing_in_range(lines: Seq<Seq<char>>)
    ensures
        last_doing(lines) matches Some(i) ==> 0 <= i < lines.len() && does_something(lines[i]) && forall|
            j: int,
        | i < j < lines.len() ==> !does_something(#[trigger] lines[j]),
    decreases lines.len(),
{
    if lines.len() > 0 {
        last_doing_in_range(lines.drop_last());
        if last_doing(lines) is Some && !does_something(lines.last()) {
            let i = last_doing(lines)->0;
            assert(lines.drop_last()[i] == lines[i]);
            assert forall|j: int| i < j < lines.len() implies !does_something(#[trigger] lines[j]) by {
                if j < lines.len() - 1 {
                    assert(lines.drop_last()[j] == lines[j]);
                }
            }
        }
    }
}

/// A block is put before the `exit` that a script ends with: every line from there on that does
/// something is that one.
pub proof fn a_block_runs_before_the_exit(lines: Seq<Seq<char>>)
    ensures
        0 <= insertion(lines) <= lines.len(),
        insertion(lines) < lines.len() ==> "exit"@.is_prefix_of(trimmed_start(lines[insertion(lines)])),
        forall|j: int| insertion(lines) < j < lines.len() ==> !does_something(#[trigger] lines[j]),
{
    last_doing_in_range(lines);
}

/// A script with a block put into it: what stands before the block, and what stands after it.
proof fn inserted_parts(base: Seq<char>, block: Seq<char>) -> (r: (Seq<char>, Seq<char>))
    requires
        well_marked(block),
    ensures
        inserted(base, block) == r.0 + plain_ends(block) + r.1,
        r.0 + r.1 == ended(lines_of(base)),
        r.0.len() == 0 || r.0.last() == '\n',
        r.0 == ended(lines_of(base).take(insertion(lines_of(base)))),
        r.1 == ended(lines_of(base).skip(insertion(lines_of(base)))),
{
    begins_with_its_marker(block);
    let all = lines_of(base);
    let at = insertion(all);
    insertion_in_range(all);
    let head = all.take(at);
    let foot = all.skip(at);
    let own = lines_of(block);
    lines_with_plain_ends(block);
    plain_keeps_the_end(block);
    if own.len() == 0 {
        assert(ended(own) =~= Seq::empty());
    }
    joined_is_ended(head + own + foot);
    ended_of_sum(head + own, foot);
    ended_of_sum(head, own);
    assert(all =~= head + foot);
    ended_of_sum(head, foot);
    if head.len() > 0 {
        ended_ends(head);
    } else {
        assert(ended(head) =~= Seq::empty());
    }
    (ended(head), ended(foot))
}

/// What does not stand in a script stands neither before a block that is put into it nor after.
proof fn not_in_the_parts(base: Seq<char>, needle: Seq<char>)
    requires
        one_line(needle),
        !within(base, needle),
    ensures
        !within(ended(lines_of(base).take(insertion(lines_of(base)))), needle),
        !within(ended(lines_of(base).skip(insertion(lines_of(base)))), needle),
{
    let all = lines_of(base);
    let at = insertion(all);
    insertion_in_range(all);
    let head = all.take(at);
    let foot = all.skip(at);
    assert(forall|k: int| 0 <= k < head.len() ==> #[trigger] head[k] == all[k]);
    assert(forall|k: int| 0 <= k < foot.len() ==> #[trigger] foot[k] == all[k + at]);
    not_in_lines(base, head, needle);
    not_in_lines(base, foot, needle);
}

/// Nothing marked stands before the block of a text.
proof fn unmarked_before(text: Seq<char>)
    requires
        around_block(text) is Some,
    ensures
        unmarked((around_block(text)->0).0),
{
    let begin = place(text, BEGIN_MARKER@)->0;
    let end = place(text, END_MARKER@)->0;
    assert(first_at(text, BEGIN_MARKER@, begin));
    assert(first_at(text, END_MARKER@, end));
    let before = text.take(begin);
    markers();
    assert(text.subrange(0, begin) =~= before);
    if within(before, BEGIN_MARKER@) {
        let i = choose|i: int| stands_at(before, BEGIN_MARKER@, i);
        part_of(text, BEGIN_MARKER@, 0, begin, i);
    }
    if within(before, END_MARKER@) {
        let i = choose|i: int| stands_at(before, END_MARKER@, i);
        part_of(text, END_MARKER@, 0, begin, i);
    }
}

proof fn no_returns_in_a_hook()
    ensures
        forall|i: int| 0 <= i < hook_head().len() ==> #[trigger] hook_head()[i] != '\r',
        forall|i: int| 0 <= i < hook_foot().len() ==> #[trigger] hook_foot()[i] != '\r',
        hook_head().last() == '\n',
        unmarked(hook_head()),
        unmarked(hook_foot()),
{
    markers();
    let head = hook_head();
    let foot = hook_foot();
    reveal_strlit("#!/bin/sh\n# Written by rev-local. Safe to edit outside the managed block below.\n\n");
    reveal_strlit("\n# rev-local's block must never be the reason this hook fails.\nexit 0\n");
    assert forall|i: int| 0 <= i < head.len() implies head[i] != '<' && head[i] != '>' by {}
    assert forall|i: int| 0 <= i < foot.len() implies foot[i] != '<' && foot[i] != '>' by {}
    no_angles(head);
    no_angles(foot);
}

proof fn no_angles(s: Seq<char>)
    requires
        forall|i: int| 0 <= i < s.len() ==> s[i] != '<' && #[trigger] s[i] != '>',
    ensures
        unmarked(s),
{
    markers();
    if within(s, BEGIN_MARKER@) {
        let i = choose|i: int| stands_at(s, BEGIN_MARKER@, i);
        assert(s.subrange(i, i + 54)[2] == s[i + 2]);
    }
    if within(s, END_MARKER@) {
        let i = choose|i: int| stands_at(s, END_MARKER@, i);
        assert(s.subrange(i, i + 23)[2] == s[i + 2]);
    }
}

/// A text around a block, with plain ends.
proof fn plain_around(before: Seq<char>, block: Seq<char>, after: Seq<char>)
    requires
        well_marked(block),
    ensures
        plain_ends(before + block + after) == plain_ends(before) + plain_ends(block) + plain_ends(after),
{
    begins_with_its_marker(block);
    assert(before + block + after =~= before + (block + after));
    plain_sum(before, block + after);
    plain_sum(block, after);
    assert(plain_ends(before) + (plain_ends(block) + plain_ends(after)) =~= plain_ends(before) + plain_ends(block)
        + plain_ends(after));
}

/// What installing writes: what stands before the block, the block, and what stands after it.
proof fn installed_parts(existing: Option<Seq<char>>, block: Seq<char>) -> (r: (Seq<char>, Seq<char>, Seq<char>))
    requires
        well_marked(block),
        one_block_at_most(existing),
    ensures
        installed(existing, block) == r.0 + r.1 + r.2,
        well_marked(r.1),
        unmarked(r.0),
        !within(r.2, BEGIN_MARKER@),
        !within(block, "\r\n"@) ==> r.1 == block,
        match existing {
            None => r.0 == hook_head() && r.2 == hook_foot(),
            Some(base) => unmarked(base) ==> r.0 + r.2 == plain_ends(ended(lines_of(base))),
        },
{
    markers();
    plain_stays_well_marked(block);
    let once = plain_ends(block);
    plain_stays_well_marked(once);
    if !within(block, "\r\n"@) {
        plain_is_same(block);
    }
    match existing {
        None => {
            no_returns_in_a_hook();
            no_return_is_plain(hook_head());
            no_return_is_plain(hook_foot());
            plain_around(hook_head(), block, hook_foot());
            (hook_head(), once, hook_foot())
        },
        Some(text) => if within(text, BEGIN_MARKER@) {
            let p = around_block(text)->0;
            unmarked_before(text);
            plain_holds_no_more(p.0, BEGIN_MARKER@);
            plain_holds_no_more(p.0, END_MARKER@);
            plain_holds_no_more(p.1, BEGIN_MARKER@);
            plain_around(p.0, block, p.1);
            (plain_ends(p.0), once, plain_ends(p.1))
        } else {
            let p = inserted_parts(text, block);
            not_in_the_parts(text, BEGIN_MARKER@);
            not_in_the_parts(text, END_MARKER@);
            plain_holds_no_more(p.0, BEGIN_MARKER@);
            plain_holds_no_more(p.0, END_MARKER@);
            plain_holds_no_more(p.1, BEGIN_MARKER@);
            plain_around(p.0, once, p.1);
            plain_sum(p.0, p.1);
            (plain_ends(p.0), plain_ends(once), plain_ends(p.1))
        },
    }
}

// --- installing twice, and uninstalling ---

/// Removing a block gives the script back, of a script that has neither marker: its lines, with a
/// newline after each of them, and so byte for byte where they all end plainly. Of a script
/// without a block there is nothing to remove.
pub proof fn removing_a_block_gives_the_script_back(base: Seq<char>, block: Seq<char>)
    requires
        well_marked(block),
        unmarked(base),
    ensures
        unblocked(inserted(base, block)) == Some(ended(lines_of(base))),
        (base.len() == 0 || base.last() == '\n') && !within(base, "\r\n"@) ==> unblocked(
            inserted(base, block),
        ) == Some(base),
        unblocked(base) is None,
{
    markers();
    let p = inserted_parts(base, block);
    not_in_the_parts(base, BEGIN_MARKER@);
    not_in_the_parts(base, END_MARKER@);
    plain_stays_well_marked(block);
    block_is_found(p.0, plain_ends(block), p.1);
    if (base.len() == 0 || base.last() == '\n') && !within(base, "\r\n"@) {
        lines_with_plain_ends(base);
        plain_is_same(base);
    }
    place_none(base, BEGIN_MARKER@);
}

/// Installing twice is installing once: into a hook file that is absent, that holds no marker or
/// that holds one block. The block that the first time wrote is found by the second and replaced
/// by itself, and its begin marker stands there once. What the second time writes is what the first wrote with
/// plain line ends, which is the same text exactly where the first left no carriage return before
/// the end of a line.
pub proof fn installing_twice_is_installing_once(existing: Option<Seq<char>>, block: Seq<char>)
    requires
        well_marked(block),
        !within(block, "\r\n"@),
        one_block_at_most(existing),
    ensures
        within(installed(existing, block), BEGIN_MARKER@),
        begins_once(block) ==> stands_once(installed(existing, block), BEGIN_MARKER@),
        installed(Some(installed(existing, block)), block) == plain_ends(installed(existing, block)),
        (installed(Some(installed(existing, block)), block) == installed(existing, block)) == !within(
            installed(existing, block),
            "\r\n"@,
        ),
{
    let once = installed(existing, block);
    let p = installed_parts(existing, block);
    if begins_once(block) {
        begin_stands_once(p.0, block, p.2);
    }
    block_is_found(p.0, block, p.2);
    if !within(once, "\r\n"@) {
        plain_is_same(once);
    } else {
        plain_is_shorter(once);
    }
}

/// So it is of every hook file in which no two carriage returns stand together: the second time
/// writes the same text.
pub proof fn an_ordinary_script_settles(existing: Option<Seq<char>>, block: Seq<char>)
    requires
        well_marked(block),
        forall|i: int| 0 <= i < block.len() ==> #[trigger] block[i] != '\r',
        one_block_at_most(existing),
        existing matches Some(text) ==> !within(text, "\r\r"@),
    ensures
        installed(Some(installed(existing, block)), block) == installed(existing, block),
        begins_once(block) ==> stands_once(installed(existing, block), BEGIN_MARKER@),
{
    no_return_is_plain(block);
    installing_twice_is_installing_once(existing, block);
    reveal_strlit("\r\r");
    match existing {
        None => {
            no_returns_in_a_hook();
            if within(hook_head(), "\r\r"@) {
                let i = choose|i: int| stands_at(hook_head(), "\r\r"@, i);
                assert(hook_head().subrange(i, i + 2)[0] == hook_head()[i]);
            }
            if within(hook_foot(), "\r\r"@) {
                let i = choose|i: int| stands_at(hook_foot(), "\r\r"@, i);
                assert(hook_foot().subrange(i, i + 2)[0] == hook_foot()[i]);
            }
            no_pair_of_returns(hook_head(), block, hook_foot());
        },
        Some(text) => if within(text, BEGIN_MARKER@) {
            let p = around_block(text)->0;
            markers();
            let begin = place(text, BEGIN_MARKER@)->0;
            let end = place(text, END_MARKER@)->0;
            assert(first_at(text, BEGIN_MARKER@, begin));
            assert(first_at(text, END_MARKER@, end));
            if within(p.0, "\r\r"@) {
                let i = choose|i: int| stands_at(p.0, "\r\r"@, i);
                assert(text.subrange(0, begin) =~= p.0);
                part_of(text, "\r\r"@, 0, begin, i);
            }
            let from = text.len() - p.1.len();
            assert(text.skip(from) =~= p.1);
            not_in_the_rest(text, "\r\r"@, from);
            no_pair_of_returns(p.0, block, p.1);
        } else {
            let p = inserted_parts(text, block);
            not_in_the_parts(text, "\r\r"@);
            no_pair_of_returns(p.0, block, p.1);
        },
    }
}

proof fn no_pair_of_returns(before: Seq<char>, block: Seq<char>, after: Seq<char>)
    requires
        block.len() > 0,
        forall|i: int| 0 <= i < block.len() ==> #[trigger] block[i] != '\r',
        !within(before, "\r\r"@),
        !within(after, "\r\r"@),
    ensures
        !within(plain_ends(before + block + after), "\r\n"@),
{
    reveal_strlit("\r\r");
    let all = before + block + after;
    assert forall|i: int| #![trigger all[i]]
        0 <= i && i + 2 < all.len() && all[i] == '\r' && all[i + 1] == '\r' implies all[i + 2] != '\n' by {
        let n = before.len() as int;
        let m = n + block.len();
        if i + 1 < n {
            assert(before.subrange(i, i + 2) =~= "\r\r"@);
            assert(stands_at(before, "\r\r"@, i));
        } else if i < n {
            assert(all[i + 1] == block[i + 1 - n]);
        } else if i < m {
            assert(all[i] == block[i - n]);
        } else {
            assert(after.subrange(i - m, i - m + 2) =~= "\r\r"@);
            assert(stands_at(after, "\r\r"@, i - m));
        }
    }
    plain_ends_are_plain(all);
}

proof fn length_of_a_line(line: Seq<char>, more: Seq<char>)
    requires
        forall|i: int| 0 <= i < line.len() ==> #[trigger] line[i] != '\n',
    ensures
        line_len(line.push('\n') + more) == line.len() + 1,
    decreases line.len(),
{
    let all = line.push('\n') + more;
    if line.len() > 0 {
        let rest = line.drop_first();
        assert(forall|i: int| 0 <= i < rest.len() ==> #[trigger] rest[i] == line[i + 1]);
        length_of_a_line(rest, more);
        assert(all.drop_first() =~= rest.push('\n') + more);
        assert(all[0] == line[0]);
    } else {
        assert(all[0] == '\n');
    }
}

/// Whether neither a newline nor a carriage return stands in a text.
spec fn unbroken(s: Seq<char>) -> bool {
    forall|i: int| 0 <= i < s.len() ==> #[trigger] s[i] != '\n' && s[i] != '\r'
}

/// Lines with no break in them come back as they were.
proof fn lines_come_back(lines: Seq<Seq<char>>)
    requires
        forall|k: int| 0 <= k < lines.len() ==> unbroken(#[trigger] lines[k]),
    ensures
        lines_of(ended(lines)) == lines,
    decreases lines.len(),
{
    if lines.len() == 0 {
        assert(lines_of(ended(lines)) =~= lines);
    } else {
        let first = lines[0];
        let rest = lines.drop_first();
        let one = seq![first];
        assert(lines =~= one + rest);
        ended_of_sum(one, rest);
        assert(one.drop_last() =~= Seq::empty());
        assert(ended(one.drop_last()) =~= Seq::empty());
        assert(ended(one) =~= first.push('\n'));
        let s = ended(lines);
        length_of_a_line(first, ended(rest));
        let n = first.len() + 1;
        assert(s.take(n as int) =~= first.push('\n'));
        assert(s.skip(n as int) =~= ended(rest));
        assert(forall|k: int| 0 <= k < rest.len() ==> #[trigger] rest[k] == lines[k + 1]);
        lines_come_back(rest);
        assert(unbroken(first));
        assert(line_body(first.push('\n')) =~= first);
        assert(lines_of(s) =~= one + lines_of(ended(rest)));
    }
}

proof fn nothing_to_trim(line: Seq<char>)
    requires
        line.len() > 0,
        !is_space(line[0]),
        !is_space(line.last()),
    ensures
        trimmed(line) == line,
{
}

/// The lines around a block in a hook that was written here.
spec fn lines_around() -> Seq<Seq<char>> {
    seq![
        "#!/bin/sh"@,
        "# Written by rev-local. Safe to edit outside the managed block below."@,
        ""@,
        ""@,
        "# rev-local's block must never be the reason this hook fails."@,
        "exit 0"@,
    ]
}

proof fn lines_of_a_hook()
    ensures
        hook_head() + hook_foot() == ended(lines_around()),
        lines_of(hook_head() + hook_foot()) == lines_around(),
{
    let l = lines_around();
    reveal_strlit("#!/bin/sh\n# Written by rev-local. Safe to edit outside the managed block below.\n\n");
    reveal_strlit("\n# rev-local's block must never be the reason this hook fails.\nexit 0\n");
    reveal_strlit("#!/bin/sh");
    reveal_strlit("# Written by rev-local. Safe to edit outside the managed block below.");
    reveal_strlit("");
    reveal_strlit("# rev-local's block must never be the reason this hook fails.");
    reveal_strlit("exit 0");
    let l1 = l.drop_last();
    let l2 = l1.drop_last();
    let l3 = l2.drop_last();
    let l4 = l3.drop_last();
    let l5 = l4.drop_last();
    assert(l5.drop_last() =~= Seq::empty());
    assert(ended(l5.drop_last()) =~= Seq::empty());
    assert(ended(l5) =~= "#!/bin/sh"@.push('\n'));
    assert(ended(l4) == ended(l5) + "# Written by rev-local. Safe to edit outside the managed block below."@.push('\n'));
    assert(ended(l3) == ended(l4) + ""@.push('\n'));
    assert(ended(l3) =~= hook_head());
    assert(ended(l2) == ended(l3) + ""@.push('\n'));
    assert(ended(l1) == ended(l2) + "# rev-local's block must never be the reason this hook fails."@.push('\n'));
    assert(ended(l) == ended(l1) + "exit 0"@.push('\n'));
    let foot = ""@.push('\n') + "# rev-local's block must never be the reason this hook fails."@.push('\n')
        + "exit 0"@.push('\n');
    assert(foot =~= hook_foot());
    assert(ended(l) =~= ended(l3) + foot);
    assert(unbroken("#!/bin/sh"@));
    assert(unbroken("# Written by rev-local. Safe to edit outside the managed block below."@));
    assert(unbroken(""@));
    assert(unbroken("# rev-local's block must never be the reason this hook fails."@));
    assert(unbroken("exit 0"@));
    lines_come_back(l);
}

/// A hook written here is told from one that somebody else owns: nothing around its block does
/// anything but end it.
proof fn a_hook_is_ours(text: Seq<char>)
    requires
        unblocked(text) == Some(hook_head() + hook_foot()),
    ensures
        ours_entirely(text),
{
    lines_of_a_hook();
    let l = lines_around();
    reveal_strlit("#!/bin/sh");
    reveal_strlit("# Written by rev-local. Safe to edit outside the managed block below.");
    reveal_strlit("");
    reveal_strlit("# rev-local's block must never be the reason this hook fails.");
    reveal_strlit("exit 0");
    assert forall|i: int| 0 <= i < l.len() implies line_of_ours(#[trigger] l[i]) by {
        if i == 0 || i == 1 || i == 4 || i == 5 {
            nothing_to_trim(l[i]);
        } else {
            assert(l[i].len() == 0);
        }
    }
}

/// Uninstalling undoes installing. A hook file that was absent is deleted again, and a script that
/// has neither marker, whose lines all end plainly and one of which is its own (it is not blank,
/// no comment and not `exit 0`) is left as it was, byte for byte.
pub proof fn uninstalling_undoes_installing(existing: Option<Seq<char>>, block: Seq<char>)
    requires
        well_marked(block),
        existing matches Some(base) ==> {
            &&& unmarked(base)
            &&& base.len() > 0 && base.last() == '\n'
            &&& !within(base, "\r\n"@)
            &&& exists|i: int| 0 <= i < lines_of(base).len() && !line_of_ours(#[trigger] lines_of(base)[i])
        },
    ensures
        uninstalled(Some(installed(existing, block))) == match existing {
            None => Uninstalled::Deleted,
            Some(base) => Uninstalled::Removed(base),
        },
{
    let once = installed(existing, block);
    let p = installed_parts(existing, block);
    block_is_found(p.0, p.1, p.2);
    match existing {
        None => {
            a_hook_is_ours(once);
        },
        Some(base) => {
            lines_with_plain_ends(base);
            plain_is_same(base);
            assert(unblocked(once) == Some(base));
            let i = choose|i: int| 0 <= i < lines_of(base).len() && !line_of_ours(#[trigger] lines_of(base)[i]);
            assert(!ours_entirely(once)) by {
                assert(!line_of_ours(lines_of(unblocked(once)->0)[i]));
            }
        },
    }
}

/// A hook written here ends with `exit 0`.
pub proof fn a_hook_of_ours_ends_well(block: Seq<char>)
    requires
        well_marked(block),
    ensures
        "exit 0\n"@.is_suffix_of(installed(None, block)),
{
    reveal_strlit("\n# rev-local's block must never be the reason this hook fails.\nexit 0\n");
    reveal_strlit("exit 0\n");
    let p = installed_parts(None, block);
    let whole = p.0 + p.1 + p.2;
    assert(whole.subrange(whole.len() - 7, whole.len() as int) =~= "exit 0\n"@);
}

// --- the block for a repository ---

/// Whether a text differs from a marker that would begin at `j`, in its `k`th character.
spec fn differs(s: Seq<char>, marker: Seq<char>, j: int, k: int) -> bool {
    0 < k < marker.len() && j + k < s.len() && s[j + k] != marker[k]
}

/// Whether no marker begins in a text, from `from` on, whatever follows the text.
spec fn settled(s: Seq<char>, marker: Seq<char>, from: int) -> bool {
    forall|j: int|
        from <= j < s.len() && #[trigger] s[j] == '#' ==> exists|k: int| #[trigger] differs(s, marker, j, k)
}

/// Whether no marker begins in a text, from `from` on; and no carriage return is in it, where that
/// is asked for.
spec fn fits(s: Seq<char>, marker: Seq<char>, from: int, unreturned: bool) -> bool {
    &&& settled(s, marker, from)
    &&& unreturned ==> forall|i: int| 0 <= i < s.len() ==> #[trigger] s[i] != '\r'
}

proof fn fits_sum(a: Seq<char>, b: Seq<char>, marker: Seq<char>, from: int, unreturned: bool)
    requires
        0 <= from,
        fits(a, marker, from, unreturned),
        fits(b, marker, 0, unreturned),
    ensures
        fits(a + b, marker, from, unreturned),
{
    let s = a + b;
    let n = a.len() as int;
    assert forall|j: int| from <= j < s.len() && #[trigger] s[j] == '#' implies exists|k: int| #[trigger]
        differs(s, marker, j, k) by {
        if j < n {
            assert(a[j] == '#');
            let k = choose|k: int| #[trigger] differs(a, marker, j, k);
            assert(differs(s, marker, j, k));
        } else {
            assert(b[j - n] == '#');
            let k = choose|k: int| #[trigger] differs(b, marker, j - n, k);
            assert(differs(s, marker, j, k));
        }
    }
    if unreturned {
        assert forall|i: int| 0 <= i < s.len() implies #[trigger] s[i] != '\r' by {
            if i < n {
                assert(s[i] == a[i]);
            } else {
                assert(s[i] == b[i - n]);
            }
        }
    }
}

/// Whether no part of a marker but its first character can be followed by a text.
spec fn blunt(s: Seq<char>, marker: Seq<char>) -> bool {
    &&& s.len() >= 2
    &&& forall|k: int|
        0 < k < marker.len() && #[trigger] marker[k] == s[0] ==> k + 1 < marker.len() && marker[k + 1] != s[1]
}

/// A name that does not hold a marker, and a text after it that completes none.
proof fn name_fits(name: Seq<char>, next: Seq<char>, marker: Seq<char>, unreturned: bool)
    requires
        is_marker(marker),
        !within(name, marker),
        blunt(next, marker),
        fits(next, marker, 0, unreturned),
        unreturned ==> forall|i: int| 0 <= i < name.len() ==> #[trigger] name[i] != '\r',
    ensures
        fits(name + next, marker, 0, unreturned),
{
    markers();
    let s = name + next;
    let n = name.len() as int;
    assert forall|j: int| 0 <= j < s.len() && #[trigger] s[j] == '#' implies exists|k: int| #[trigger] differs(
        s,
        marker,
        j,
        k,
    ) by {
        if j >= n {
            assert(next[j - n] == '#');
            let k = choose|k: int| #[trigger] differs(next, marker, j - n, k);
            assert(differs(s, marker, j, k));
        } else if exists|k: int| #[trigger] differs(name, marker, j, k) {
            let k = choose|k: int| #[trigger] differs(name, marker, j, k);
            assert(differs(s, marker, j, k));
        } else if j + marker.len() <= n {
            assert forall|k: int| 0 <= k < marker.len() implies name.subrange(j, j + marker.len())[k]
                == #[trigger] marker[k] by {
                assert(!differs(name, marker, j, k));
                assert(name[j] == s[j]);
            }
            assert(name.subrange(j, j + marker.len()) =~= marker);
            assert(stands_at(name, marker, j));
        } else {
            let k = n - j;
            assert(s[j + k] == next[0]);
            assert(s[j + k + 1] == next[1]);
            if marker[k] != next[0] {
                assert(differs(s, marker, j, k));
            } else {
                assert(differs(s, marker, j, k + 1));
            }
        }
    }
    if unreturned {
        assert forall|i: int| 0 <= i < s.len() implies #[trigger] s[i] != '\r' by {
            if i < n {
                assert(s[i] == name[i]);
            } else {
                assert(s[i] == next[i - n]);
            }
        }
    }
}

/// Whether nothing in a text looks like the start of a marker, and no carriage return is in it.
spec fn quiet(s: Seq<char>) -> bool {
    forall|i: int|
        0 <= i < s.len() ==> (#[trigger] s[i] != '\r' && (s[i] == '#' ==> i + 2 < s.len() && s[i + 2] != '<'
            && s[i + 2] != '>'))
}

proof fn quiet_fits(s: Seq<char>, marker: Seq<char>, unreturned: bool)
    requires
        is_marker(marker),
        quiet(s),
    ensures
        fits(s, marker, 0, unreturned),
{
    markers();
    assert forall|j: int| 0 <= j < s.len() && #[trigger] s[j] == '#' implies exists|k: int| #[trigger] differs(
        s,
        marker,
        j,
        k,
    ) by {
        assert(differs(s, marker, j, 2));
    }
}

proof fn digits_are_quiet(n: nat)
    ensures
        forall|i: int| 0 <= i < decimal(n).len() ==> '0' <= #[trigger] decimal(n)[i] <= '9',
        quiet(decimal(n)),
    decreases n,
{
    if n >= 10 {
        digits_are_quiet(n / 10);
        digits_are_quiet(n % 10);
        let (a, b) = (decimal(n / 10), decimal(n % 10));
        assert(decimal(n) =~= a + b);
        assert forall|i: int| 0 <= i < decimal(n).len() implies '0' <= #[trigger] decimal(n)[i] <= '9' by {
            if i < a.len() {
                assert(decimal(n)[i] == a[i]);
            } else {
                assert(decimal(n)[i] == b[i - a.len()]);
            }
        }
    }
}

/// The opening of a block: its begin marker is the only one in it.
proof fn opening_fits(marker: Seq<char>, from: int, unreturned: bool)
    requires
        is_marker(marker),
        from == if marker == BEGIN_MARKER@ {
            1int
        } else {
            0
        },
    ensures
        fits(BEGIN_MARKER@, marker, from, unreturned),
{
    markers();
    let s = BEGIN_MARKER@;
    assert forall|j: int| from <= j < s.len() && #[trigger] s[j] == '#' implies exists|k: int| #[trigger]
        differs(s, marker, j, k) by {
        assert(j == 0);
        assert(differs(s, marker, j, 2));
    }
}

/// The closing of a block, where a begin marker is looked for.
proof fn closing_fits()
    ensures
        fits(END_MARKER@ + "\n"@, BEGIN_MARKER@, 0, false),
{
    markers();
    newline_is_one();
    let s = END_MARKER@ + "\n"@;
    assert forall|j: int| 0 <= j < s.len() && #[trigger] s[j] == '#' implies exists|k: int| #[trigger] differs(
        s,
        BEGIN_MARKER@,
        j,
        k,
    ) by {
        if j < 23 {
            assert(s[j] == END_MARKER@[j]);
        }
        assert(differs(s, BEGIN_MARKER@, 0, 2));
    }
}

proof fn explanation_is_quiet()
    ensures
        quiet("\n# Notifies rev-local that "@),
        quiet(" changed. Installed by:\n#   revlocal hooks install --repo "@),
        quiet(
            "\n# Remove with `revlocal hooks uninstall`, or delete these lines.\n#\n# This block must never fail your commit. It has no `set -e`, it ignores\n"@,
        ),
        quiet(
            "# curl's exit status, and the hook ends in `exit 0`. If rev-local is not\n# running, your commit succeeds and no review happens.\n"@,
        ),
{
    reveal_strlit("\n# Notifies rev-local that ");
    reveal_strlit(" changed. Installed by:\n#   revlocal hooks install --repo ");
    reveal_strlit(
        "\n# Remove with `revlocal hooks uninstall`, or delete these lines.\n#\n# This block must never fail your commit. It has no `set -e`, it ignores\n",
    );
    reveal_strlit(
        "# curl's exit status, and the hook ends in `exit 0`. If rev-local is not\n# running, your commit succeeds and no review happens.\n",
    );
}

proof fn command_is_quiet()
    ensures
        quiet(
            "if command -v curl >/dev/null 2>&1; then\n  curl --silent --show-error --output /dev/null \\\n       --max-time "@,
        ),
        quiet(
            " \\\n       --header 'content-type: application/json' \\\n       --header \"x-revlocal-secret: ${"@,
        ),
        quiet(":-}\" \\\n       --data '{\"repo\":\""@),
        quiet("\"}' \\\n       http://127.0.0.1:"@),
        quiet("/trigger >/dev/null 2>&1 || true\nfi\n"@),
{
    reveal_strlit(
        "if command -v curl >/dev/null 2>&1; then\n  curl --silent --show-error --output /dev/null \\\n       --max-time ",
    );
    reveal_strlit(
        " \\\n       --header 'content-type: application/json' \\\n       --header \"x-revlocal-secret: ${",
    );
    reveal_strlit(":-}\" \\\n       --data '{\"repo\":\"");
    reveal_strlit("\"}' \\\n       http://127.0.0.1:");
    reveal_strlit("/trigger >/dev/null 2>&1 || true\nfi\n");
}

/// What follows a name in a block completes no marker.
proof fn what_follows_is_blunt(marker: Seq<char>)
    requires
        is_marker(marker),
    ensures
        blunt(" changed. Installed by:\n#   revlocal hooks install --repo "@, marker),
        blunt(
            "\n# Remove with `revlocal hooks uninstall`, or delete these lines.\n#\n# This block must never fail your commit. It has no `set -e`, it ignores\n"@,
            marker,
        ),
        blunt(":-}\" \\\n       --data '{\"repo\":\""@, marker),
        blunt("\"}' \\\n       http://127.0.0.1:"@, marker),
{
    reveal_strlit("# >>> rev-local begin (managed block; do not edit) >>>");
    reveal_strlit("# <<< rev-local end <<<");
    reveal_strlit(" changed. Installed by:\n#   revlocal hooks install --repo ");
    reveal_strlit(
        "\n# Remove with `revlocal hooks uninstall`, or delete these lines.\n#\n# This block must never fail your commit. It has no `set -e`, it ignores\n",
    );
    reveal_strlit(":-}\" \\\n       --data '{\"repo\":\"");
    reveal_strlit("\"}' \\\n       http://127.0.0.1:");
}

/// What a block holds before the line that ends it: no marker but the one that it begins with, and
/// no carriage return unless a name has one.
proof fn body_fits(
    repo: Seq<char>,
    port: nat,
    secret_env: Seq<char>,
    marker: Seq<char>,
    from: int,
    unreturned: bool,
)
    requires
        is_marker(marker),
        from == if marker == BEGIN_MARKER@ {
            1int
        } else {
            0
        },
        !within(repo, marker),
        !within(secret_env, marker),
        unreturned ==> forall|i: int| 0 <= i < repo.len() ==> #[trigger] repo[i] != '\r',
        unreturned ==> forall|i: int| 0 <= i < secret_env.len() ==> #[trigger] secret_env[i] != '\r',
    ensures
        fits(block_body(repo, port, secret_env), marker, from, unreturned),
{
    opening_fits(marker, from, unreturned);
    explanation_is_quiet();
    command_is_quiet();
    what_follows_is_blunt(marker);
    digits_are_quiet(HOOK_TIMEOUT_SECS as nat);
    digits_are_quiet(port);
    let p0 = "\n# Notifies rev-local that "@;
    let p1 = " changed. Installed by:\n#   revlocal hooks install --repo "@;
    let p2 =
        "\n# Remove with `revlocal hooks uninstall`, or delete these lines.\n#\n# This block must never fail your commit. It has no `set -e`, it ignores\n"@;
    let p3 =
        "# curl's exit status, and the hook ends in `exit 0`. If rev-local is not\n# running, your commit succeeds and no review happens.\n"@;
    let p4 =
        "if command -v curl >/dev/null 2>&1; then\n  curl --silent --show-error --output /dev/null \\\n       --max-time "@;
    let d4 = decimal(HOOK_TIMEOUT_SECS as nat);
    let p5 =
        " \\\n       --header 'content-type: application/json' \\\n       --header \"x-revlocal-secret: ${"@;
    let p6 = ":-}\" \\\n       --data '{\"repo\":\""@;
    let p7 = "\"}' \\\n       http://127.0.0.1:"@;
    let d7 = decimal(port);
    let p8 = "/trigger >/dev/null 2>&1 || true\nfi\n"@;
    let a = BEGIN_MARKER@ + p0;
    quiet_fits(p0, marker, unreturned);
    fits_sum(BEGIN_MARKER@, p0, marker, from, unreturned);
    let b = name_and(a, repo, p1, marker, from, unreturned);
    let c = name_and(b, repo, p2, marker, from, unreturned);
    quiet_fits(p3, marker, unreturned);
    fits_sum(c, p3, marker, from, unreturned);
    quiet_fits(p4, marker, unreturned);
    fits_sum(c + p3, p4, marker, from, unreturned);
    quiet_fits(d4, marker, unreturned);
    fits_sum(c + p3 + p4, d4, marker, from, unreturned);
    quiet_fits(p5, marker, unreturned);
    let d = c + p3 + p4 + d4 + p5;
    fits_sum(c + p3 + p4 + d4, p5, marker, from, unreturned);
    let e = name_and(d, secret_env, p6, marker, from, unreturned);
    let f = name_and(e, repo, p7, marker, from, unreturned);
    quiet_fits(d7, marker, unreturned);
    fits_sum(f, d7, marker, from, unreturned);
    quiet_fits(p8, marker, unreturned);
    fits_sum(f + d7, p8, marker, from, unreturned);
}

proof fn name_and(
    a: Seq<char>,
    name: Seq<char>,
    next: Seq<char>,
    marker: Seq<char>,
    from: int,
    unreturned: bool,
) -> (r: Seq<char>)
    requires
        is_marker(marker),
        0 <= from,
        fits(a, marker, from, unreturned),
        !within(name, marker),
        blunt(next, marker),
        quiet(next),
        unreturned ==> forall|i: int| 0 <= i < name.len() ==> #[trigger] name[i] != '\r',
    ensures
        r == a + name + next,
        fits(r, marker, from, unreturned),
{
    quiet_fits(next, marker, unreturned);
    name_fits(name, next, marker, unreturned);
    fits_sum(a, name + next, marker, from, unreturned);
    assert(a + (name + next) =~= a + name + next);
    a + name + next
}

proof fn no_marker_where_it_fits(s: Seq<char>, marker: Seq<char>, from: int, j: int)
    requires
        is_marker(marker),
        settled(s, marker, from),
        from <= j,
    ensures
        !stands_at(s, marker, j),
{
    markers();
    if stands_at(s, marker, j) {
        let found = s.subrange(j, j + marker.len());
        assert(found[0] == s[j]);
        let k = choose|k: int| #[trigger] differs(s, marker, j, k);
        assert(found[k] == s[j + k]);
    }
}

proof fn body_ends(repo: Seq<char>, port: nat, secret_env: Seq<char>)
    ensures
        block_body(repo, port, secret_env).len() > 54,
        block_body(repo, port, secret_env).subrange(0, 54) == BEGIN_MARKER@,
        block_body(repo, port, secret_env).last() == '\n',
{
    markers();
    reveal_strlit("/trigger >/dev/null 2>&1 || true\nfi\n");
    assert(block_body(repo, port, secret_env).subrange(0, 54) =~= BEGIN_MARKER@);
}

/// The block written for a repository can be found again, unless a name holds an end marker itself;
/// and it holds one begin marker, unless a name holds another.
pub proof fn the_block_for_a_repository_is_well_marked(repo: Seq<char>, port: nat, secret_env: Seq<char>)
    requires
        !within(repo, END_MARKER@),
        !within(secret_env, END_MARKER@),
    ensures
        well_marked(block_for(repo, port, secret_env)),
        unmarked(repo) && unmarked(secret_env) ==> begins_once(block_for(repo, port, secret_env)),
{
    markers();
    newline_is_one();
    let body = block_body(repo, port, secret_env);
    let block = block_for(repo, port, secret_env);
    let foot = END_MARKER@ + "\n"@;
    let n = body.len() as int;
    body_ends(repo, port, secret_env);
    body_fits(repo, port, secret_env, END_MARKER@, 0, false);
    assert(block =~= body + foot);
    assert(block.take(n) =~= body);
    assert(block.skip(n) =~= foot);
    assert(body =~= BEGIN_MARKER@ + body.skip(54));
    if within(body, END_MARKER@) {
        let j = choose|j: int| stands_at(body, END_MARKER@, j);
        no_marker_where_it_fits(body, END_MARKER@, 0, j);
    }
    if unmarked(repo) && unmarked(secret_env) && within(block.skip(1), BEGIN_MARKER@) {
        body_fits(repo, port, secret_env, BEGIN_MARKER@, 1, false);
        closing_fits();
        fits_sum(body, foot, BEGIN_MARKER@, 1, false);
        let j = choose|j: int| stands_at(block.skip(1), BEGIN_MARKER@, j);
        assert(block.skip(1) =~= block.subrange(1, block.len() as int));
        part_of(block, BEGIN_MARKER@, 1, block.len() as int, j);
        no_marker_where_it_fits(block, BEGIN_MARKER@, 1, j + 1);
    }
}

/// No carriage return is in the block written for a repository, unless a name holds one.
proof fn the_block_has_no_return(repo: Seq<char>, port: nat, secret_env: Seq<char>)
    requires
        !within(repo, END_MARKER@),
        !within(secret_env, END_MARKER@),
        !repo.contains('\r'),
        !secret_env.contains('\r'),
    ensures
        forall|i: int|
            0 <= i < block_for(repo, port, secret_env).len() ==> #[trigger] block_for(repo, port, secret_env)[i]
                != '\r',
{
    let body = block_body(repo, port, secret_env);
    let block = block_for(repo, port, secret_env);
    let foot = END_MARKER@ + "\n"@;
    markers();
    newline_is_one();
    body_fits(repo, port, secret_env, END_MARKER@, 0, true);
    assert(block =~= body + foot);
    assert forall|i: int| 0 <= i < block.len() implies #[trigger] block[i] != '\r' by {
        if i < body.len() {
            assert(block[i] == body[i]);
        } else {
            assert(block[i] == foot[i - body.len()]);
        }
    }
}

/// Installing hooks twice is installing them once, for every repository and variable whose names
/// hold neither an end marker nor a carriage return, into a hook file that is absent, that holds no
/// marker or that holds one block: the second time finds the block of the first and writes what the
/// first wrote, unless that has a carriage return before the end of a line. Its begin marker
/// stands there once, unless a name holds another.
pub proof fn a_second_install_changes_nothing(
    existing: Option<Seq<char>>,
    repo: Seq<char>,
    port: nat,
    secret_env: Seq<char>,
)
    requires
        one_block_at_most(existing),
        !within(repo, END_MARKER@),
        !within(secret_env, END_MARKER@),
        !repo.contains('\r'),
        !secret_env.contains('\r'),
    ensures
        ({
            let block = block_for(repo, port, secret_env);
            let once = installed(existing, block);
            &&& within(once, BEGIN_MARKER@)
            &&& unmarked(repo) && unmarked(secret_env) ==> stands_once(once, BEGIN_MARKER@)
            &&& !within(once, "\r\n"@) ==> installed(Some(once), block) == once
            &&& (existing matches Some(text) ==> !within(text, "\r\r"@)) ==> !within(once, "\r\n"@)
                && installed(Some(once), block) == once
        }),
{
    let block = block_for(repo, port, secret_env);
    the_block_for_a_repository_is_well_marked(repo, port, secret_env);
    the_block_has_no_return(repo, port, secret_env);
    no_return_is_plain(block);
    installing_twice_is_installing_once(existing, block);
    if existing matches Some(text) ==> !within(text, "\r\r"@) {
        an_ordinary_script_settles(existing, block);
    }
}

/// Uninstalling hooks undoes installing them, for every repository and variable whose names hold no
/// end marker: a hook file that was absent is deleted again, and a script that has neither marker,
/// whose lines all end plainly and one of which is its own is left as it was.
pub proof fn uninstalling_leaves_what_was_there(
    existing: Option<Seq<char>>,
    repo: Seq<char>,
    port: nat,
    secret_env: Seq<char>,
)
    requires
        !within(repo, END_MARKER@),
        !within(secret_env, END_MARKER@),
        existing matches Some(base) ==> {
            &&& unmarked(base)
            &&& base.len() > 0 && base.last() == '\n'
            &&& !within(base, "\r\n"@)
            &&& exists|i: int| 0 <= i < lines_of(base).len() && !line_of_ours(#[trigger] lines_of(base)[i])
        },
    ensures
        uninstalled(Some(installed(existing, block_for(repo, port, secret_env)))) == match existing {
            None => Uninstalled::Deleted,
            Some(base) => Uninstalled::Removed(base),
        },
{
    the_block_for_a_repository_is_well_marked(repo, port, secret_env);
    uninstalling_undoes_installing(existing, block_for(repo, port, secret_env));
}

/// Removing the block of a repository gives a script back byte for byte, for every repository and
/// variable whose names hold no end marker: of a script that has neither marker and whose lines all end
/// plainly. Of one without a block there is nothing to remove.
pub proof fn stripping_leaves_what_was_there(base: Seq<char>, repo: Seq<char>, port: nat, secret_env: Seq<char>)
    requires
        !within(repo, END_MARKER@),
        !within(secret_env, END_MARKER@),
        unmarked(base),
        base.len() == 0 || base.last() == '\n',
        !within(base, "\r\n"@),
    ensures
        unblocked(inserted(base, block_for(repo, port, secret_env))) == Some(base),
        unblocked(base) is None,
{
    the_block_for_a_repository_is_well_marked(repo, port, secret_env);
    removing_a_block_gives_the_script_back(base, block_for(repo, port, secret_env));
}

/// Which files are hooked: those that run after a commit, a merge and a checkout of a working copy,
/// and the one that runs after a push of a bare one, in the directory of hooks.
pub proof fn which_files_are_hooked(dir: Seq<char>)
    ensures
        hook_files(dir, HookMode::Reference) == seq![
            joined_path(dir, "post-commit"@),
            joined_path(dir, "post-merge"@),
            joined_path(dir, "post-checkout"@),
        ],
        hook_files(dir, HookMode::BareMirror) == seq![joined_path(dir, "post-receive"@)],
{
    assert(hook_files(dir, HookMode::Reference) =~= seq![
        joined_path(dir, "post-commit"@),
        joined_path(dir, "post-merge"@),
        joined_path(dir, "post-checkout"@),
    ]);
    assert(hook_files(dir, HookMode::BareMirror) =~= seq![joined_path(dir, "post-receive"@)]);
}

/// Where hooks are: below what git keeps of a working copy, in a bare repository itself, and nowhere
/// else.
pub proof fn where_hooks_are(repo_path: Seq<char>, bare: bool)
    ensures
        hooks_place(repo_path, true, bare) == Some(joined_path(joined_path(repo_path, ".git"@), "hooks"@)),
        hooks_place(repo_path, false, true) == Some(joined_path(repo_path, "hooks"@)),
        hooks_place(repo_path, false, false) is None,
{
}

/// A block tells of its repository, at the port it was given, with the secret that the variable holds,
/// gives up after a while, and never fails.
pub proof fn a_block_tells_of_its_repository(repo: Seq<char>, port: nat, secret_env: Seq<char>)
    ensures
        ({
            let block = block_for(repo, port, secret_env);
            &&& within(block, "--max-time "@ + decimal(2))
            &&& within(block, "x-revlocal-secret: ${"@ + secret_env + ":-}"@)
            &&& within(block, "--data '{\"repo\":\""@ + repo + "\"}'"@)
            &&& within(block, "http://127.0.0.1:"@ + decimal(port) + "/trigger"@)
            &&& within(block, "|| true"@)
        }),
{
    let block = block_for(repo, port, secret_env);
    let top = BEGIN_MARKER@ + "\n# Notifies rev-local that "@ + repo
        + " changed. Installed by:\n#   revlocal hooks install --repo "@ + repo
        + "\n# Remove with `revlocal hooks uninstall`, or delete these lines.\n#\n# This block must never fail your commit. It has no `set -e`, it ignores\n"@
        + "# curl's exit status, and the hook ends in `exit 0`. If rev-local is not\n# running, your commit succeeds and no review happens.\n"@;
    let call =
        "if command -v curl >/dev/null 2>&1; then\n  curl --silent --show-error --output /dev/null \\\n       --max-time "@;
    let wait = decimal(HOOK_TIMEOUT_SECS as nat);
    let header =
        " \\\n       --header 'content-type: application/json' \\\n       --header \"x-revlocal-secret: ${"@;
    let data = ":-}\" \\\n       --data '{\"repo\":\""@;
    let at = "\"}' \\\n       http://127.0.0.1:"@;
    let end = "/trigger >/dev/null 2>&1 || true\nfi\n"@;
    let foot = END_MARKER@ + "\n"@;
    reveal_strlit(
        "if command -v curl >/dev/null 2>&1; then\n  curl --silent --show-error --output /dev/null \\\n       --max-time ",
    );
    reveal_strlit(
        " \\\n       --header 'content-type: application/json' \\\n       --header \"x-revlocal-secret: ${",
    );
    reveal_strlit(":-}\" \\\n       --data '{\"repo\":\"");
    reveal_strlit("\"}' \\\n       http://127.0.0.1:");
    reveal_strlit("/trigger >/dev/null 2>&1 || true\nfi\n");
    reveal_strlit("--max-time ");
    reveal_strlit("x-revlocal-secret: ${");
    reveal_strlit(":-}");
    reveal_strlit("--data '{\"repo\":\"");
    reveal_strlit("\"}'");
    reveal_strlit("http://127.0.0.1:");
    reveal_strlit("/trigger");
    reveal_strlit("|| true");
    assert(block =~= top + call + wait + (header + secret_env + data + repo + at + decimal(port) + end + foot));
    between(top, call, wait, header + secret_env + data + repo + at + decimal(port) + end + foot, 11, 0);
    assert(call.skip(call.len() - 11) =~= "--max-time "@);
    let b = top + call + wait;
    assert(block =~= b + header + secret_env + (data + repo + at + decimal(port) + end + foot));
    between(b, header, secret_env, data + repo + at + decimal(port) + end + foot, 21, 3);
    assert(header.skip(header.len() - 21) =~= "x-revlocal-secret: ${"@);
    assert((data + repo + at + decimal(port) + end + foot).take(3) =~= ":-}"@);
    let c = b + header + secret_env;
    assert(block =~= c + data + repo + (at + decimal(port) + end + foot));
    between(c, data, repo, at + decimal(port) + end + foot, 17, 3);
    assert(data.skip(data.len() - 17) =~= "--data '{\"repo\":\""@);
    assert((at + decimal(port) + end + foot).take(3) =~= "\"}'"@);
    let d = c + data + repo;
    assert(block =~= d + at + decimal(port) + (end + foot));
    between(d, at, decimal(port), end + foot, 17, 8);
    assert(at.skip(at.len() - 17) =~= "http://127.0.0.1:"@);
    assert((end + foot).take(8) =~= "/trigger"@);
    let e = d + at + decimal(port);
    assert(end =~= end.take(25) + "|| true"@ + end.skip(32));
    stands_inside(e + end.take(25), "|| true"@, end.skip(32) + foot);
    assert(e + end.take(25) + "|| true"@ + (end.skip(32) + foot) =~= block);
    assert("--max-time "@ + wait + Seq::<char>::empty() =~= "--max-time "@ + decimal(2));
}

/// Around a text stand the end of what is before it and the beginning of what is after it.
proof fn between(a: Seq<char>, b: Seq<char>, c: Seq<char>, d: Seq<char>, m: int, n: int)
    requires
        0 <= m <= b.len(),
        0 <= n <= d.len(),
    ensures
        within(a + b + c + d, b.skip(b.len() - m) + c + d.take(n)),
{
    let part = b.skip(b.len() - m) + c + d.take(n);
    let before = a + b.take(b.len() - m);
    stands_inside(before, part, d.skip(n));
    assert(before + part + d.skip(n) =~= a + b + c + d);
}

/// What is installed holds the block as it is.
pub proof fn what_is_installed_holds_the_block(existing: Option<Seq<char>>, block: Seq<char>)
    requires
        well_marked(block),
        !within(block, "\r\n"@),
        one_block_at_most(existing),
    ensures
        within(installed(existing, block), block),
{
    let p = installed_parts(existing, block);
    stands_inside(p.0, block, p.2);
}

/// A line does something unless it is blank or a remark.
pub proof fn what_a_line_does(line: Seq<char>)
    ensures
        is_blank(line) ==> !does_something(line),
        line.len() > 0 && line[0] == '#' ==> !does_something(line),
        line.len() > 0 && line[0] != '#' && !is_space(line[0]) ==> does_something(line),
{
    let r = trimming_takes_off_blanks(line);
    let t = trimmed(line);
    if is_blank(line) && t.len() > 0 {
        assert(line[r.0.len() as int] == t[0]);
        assert(is_space(line[r.0.len() as int]));
    }
    if line.len() > 0 && !is_space(line[0]) {
        if r.0.len() > 0 {
            assert(r.0[0] == line[0]);
        }
        if t.len() == 0 {
            assert(r.1[0] == line[0]);
        }
        assert(t[0] == line[0]);
    }
    what_is_blank('#');
}

/// What becomes of a hook: one without a block is left, one with nothing else that does something
/// goes, and of any other only the block does.
pub proof fn what_becomes_of_a_hook(text: Seq<char>, i: int)
    ensures
        uninstalled(None) is Untouched,
        unblocked(text) is None <==> uninstalled(Some(text)) is Untouched,
        unblocked(text) is Some && 0 <= i < lines_of(unblocked(text)->0).len() && does_something(
            lines_of(unblocked(text)->0)[i],
        ) && trimmed(lines_of(unblocked(text)->0)[i]) != "exit 0"@ ==> uninstalled(Some(text))
            == Uninstalled::Removed(plain_ends(unblocked(text)->0)),
        uninstalled(Some(text)) is Deleted ==> forall|k: int|
            0 <= k < lines_of(unblocked(text)->0).len() ==> !does_something(
                #[trigger] lines_of(unblocked(text)->0)[k],
            ) || trimmed(lines_of(unblocked(text)->0)[k]) == "exit 0"@,
{
    if unblocked(text) is Some && 0 <= i < lines_of(unblocked(text)->0).len() && does_something(
        lines_of(unblocked(text)->0)[i],
    ) && trimmed(lines_of(unblocked(text)->0)[i]) != "exit 0"@ {
        assert(!line_of_ours(lines_of(unblocked(text)->0)[i]));
    }
    if uninstalled(Some(text)) is Deleted {
        assert forall|k: int| 0 <= k < lines_of(unblocked(text)->0).len() implies !does_something(
            #[trigger] lines_of(unblocked(text)->0)[k],
        ) || trimmed(lines_of(unblocked(text)->0)[k]) == "exit 0"@ by {
            assert(line_of_ours(lines_of(unblocked(text)->0)[k]));
        }
    }
}

} // verus!
