//! Diff truncation that never hides a file.
//!
//! Two caps, in this order:
//!
//! 1. **Per file.** A file whose diff is larger than the per-file cap, and any binary
//!    file, is shown as a stat line. It stays in the diff and says what happened to it.
//! 2. **In total.** While the diff is larger than the total cap, whole files are dropped,
//!    the least interesting first (data, then configuration, then tests, then source) and
//!    among equals the latest in the diff first.
//!
//! A dropped file is invisible in the diff, so it is named outside it: the list of omitted
//! files is complete, and is never itself cut.

use vstd::prelude::*;

use crate::model::{FileDiff, RepoConfig};
use crate::text::{
    a_piece_is_a_part, after_last, any_within, byte_len, bytes_in, cat2, chars_of, concat, count, decimal,
    encode_utf8_of_sum, few_are_sorted, first_piece, has_text, in_order, is_at, is_space, lower_chars, lowered, num,
    one_of, pieces, pieces_make_the_text, push_contains, same, sort_texts, sorted_texts, sorted_texts_means,
    split_lines, stands_at, stands_inside, strs, tail_after, text_of, texts, trim_end, trimmed_end, within,
    word_within,
};

verus! {

/// How interesting a file is to a reader, least first.
#[derive(Clone, Copy, Debug, PartialEq, Eq, PartialOrd, Ord, Structural)]
pub enum Interest {
    /// Not code and not about code: docs, fixtures, snapshots, binaries.
    Data,
    /// Files that configure the build, the tooling, or the deployment.
    Config,
    /// Files that exercise the source.
    Tests,
    /// The code under review.
    Source,
}

impl Interest {
    /// The place in the order, the most interesting highest.
    pub open spec fn level(self) -> int {
        match self {
            Self::Data => 0,
            Self::Config => 1,
            Self::Tests => 2,
            Self::Source => 3,
        }
    }

    fn rank(self) -> (r: u8)
        ensures
            r as int == self.level(),
    {
        match self {
            Self::Data => 0,
            Self::Config => 1,
            Self::Tests => 2,
            Self::Source => 3,
        }
    }
}

/// Path fragments that mark a file as a test.
pub open spec fn test_markers() -> Seq<Seq<char>> {
    seq![
        "/tests/"@,
        "/test/"@,
        "/spec/"@,
        "/__tests__/"@,
        "/testdata/"@,
        "/fixtures/"@,
        "_test."@,
        ".test."@,
        "test_"@,
        ".spec."@,
        "_spec."@,
    ]
}

/// Extensions that make a file configuration.
pub open spec fn config_extensions() -> Seq<Seq<char>> {
    seq![
        "toml"@,
        "yaml"@,
        "yml"@,
        "ini"@,
        "cfg"@,
        "conf"@,
        "properties"@,
        "editorconfig"@,
        "env"@,
    ]
}

/// Filenames that are configuration whatever their extension.
pub open spec fn config_names() -> Seq<Seq<char>> {
    seq![
        "dockerfile"@,
        "makefile"@,
        "justfile"@,
        "procfile"@,
        "package.json"@,
        "tsconfig.json"@,
        "composer.json"@,
        ".gitignore"@,
        ".gitattributes"@,
        ".dockerignore"@,
    ]
}

/// Extensions that make a file data rather than code.
pub open spec fn data_extensions() -> Seq<Seq<char>> {
    seq![
        "md"@,
        "rst"@,
        "txt"@,
        "adoc"@,
        "markdown"@,
        "csv"@,
        "tsv"@,
        "snap"@,
        "golden"@,
        "svg"@,
        "png"@,
        "jpg"@,
        "jpeg"@,
        "gif"@,
        "ico"@,
        "pdf"@,
        "parquet"@,
        "avro"@,
        "bin"@,
        "wasm"@,
        "map"@,
    ]
}

fn test_marker_words() -> (r: Vec<&'static str>)
    ensures
        strs(r@) == test_markers(),
{
    let r = vec![
        "/tests/", "/test/", "/spec/", "/__tests__/", "/testdata/", "/fixtures/", "_test.", ".test.",
        "test_", ".spec.", "_spec.",
    ];
    assert(strs(r@) =~= test_markers());
    r
}

fn config_extension_words() -> (r: Vec<&'static str>)
    ensures
        strs(r@) == config_extensions(),
{
    let r = vec![
        "toml", "yaml", "yml", "ini", "cfg", "conf", "properties", "editorconfig", "env",
    ];
    assert(strs(r@) =~= config_extensions());
    r
}

fn config_name_words() -> (r: Vec<&'static str>)
    ensures
        strs(r@) == config_names(),
{
    let r = vec![
        "dockerfile", "makefile", "justfile", "procfile", "package.json", "tsconfig.json",
        "composer.json", ".gitignore", ".gitattributes", ".dockerignore",
    ];
    assert(strs(r@) =~= config_names());
    r
}

fn data_extension_words() -> (r: Vec<&'static str>)
    ensures
        strs(r@) == data_extensions(),
{
    let r = vec![
        "md", "rst", "txt", "adoc", "markdown", "csv", "tsv", "snap", "golden", "svg", "png", "jpg",
        "jpeg", "gif", "ico", "pdf", "parquet", "avro", "bin", "wasm", "map",
    ];
    assert(strs(r@) =~= data_extensions());
    r
}

/// The last part of a path.
pub open spec fn file_name(path: Seq<char>) -> Seq<char> {
    after_last(path, '/')
}

/// What follows the last dot of a name; nothing where it has none.
pub open spec fn extension(name: Seq<char>) -> Seq<char> {
    if name.contains('.') {
        after_last(name, '.')
    } else {
        Seq::empty()
    }
}

/// How interesting one path is, capitals aside.
///
/// Tests come before configuration: a configuration file under a test directory is part of
/// the test that reads it.
pub open spec fn interest(path: Seq<char>) -> Interest {
    let lower = lowered(path);
    let name = file_name(lower);
    let ext = extension(name);
    if any_within(seq!['/'] + lower, test_markers()) {
        Interest::Tests
    } else if data_extensions().contains(ext) {
        Interest::Data
    } else if config_names().contains(name) || config_extensions().contains(ext) || (name.len() > 0
        && name[0] == '.') {
        Interest::Config
    } else if ext == "json"@ {
        Interest::Data
    } else {
        Interest::Source
    }
}

/// How interesting one path is.
pub fn interest_of(path: &str) -> (r: Interest)
    ensures
        r == interest(path@),
{
    let lower = lower_chars(path);
    let (name, _) = tail_after(&lower, '/');
    let name_chars = chars_of(name.as_str());
    let (tail, dotted) = tail_after(&name_chars, '.');
    let ext = if dotted {
        tail
    } else {
        String::new()
    };
    proof {
        assert(ext@ =~= extension(file_name(lowered(path@))));
    }

    // A leading `/` lets `/tests/` match a top-level directory.
    let mut hay: Vec<char> = vec!['/'];
    let mut rest = lower;
    hay.append(&mut rest);
    assert(hay@ =~= seq!['/'] + lowered(path@));

    if word_within(&hay, &test_marker_words()).is_some() {
        return Interest::Tests;
    }
    if one_of(ext.as_str(), &data_extension_words()) {
        return Interest::Data;
    }
    if one_of(name.as_str(), &config_name_words()) || one_of(ext.as_str(), &config_extension_words()) || (
    name_chars.len() > 0 && name_chars[0] == '.') {
        return Interest::Config;
    }
    if same(ext.as_str(), "json") {
        return Interest::Data;
    }
    Interest::Source
}

// --- sections ---

/// One file's part of a unified diff.
pub struct SectionView {
    /// The file's path after the change.
    pub path: Seq<char>,
    /// Its part of the diff, the header line first.
    pub text: Seq<char>,
}

/// One file's part of a unified diff.
struct Section {
    path: String,
    text: String,
}

impl View for Section {
    type V = SectionView;

    closed spec fn view(&self) -> SectionView {
        SectionView { path: self.path@, text: self.text@ }
    }
}

spec fn section_views(v: Seq<Section>) -> Seq<SectionView> {
    v.map_values(|s: Section| s@)
}

/// Whether `i` is where `needle` last stands in `hay`.
pub open spec fn last_at(hay: Seq<char>, needle: Seq<char>, i: int) -> bool {
    stands_at(hay, needle, i) && forall|j: int| j > i ==> !#[trigger] stands_at(hay, needle, j)
}

/// The path that a section's header names: what follows the last ` b/`, once white space
/// at the end is gone. A header that names none opens no section.
pub open spec fn header_path(header: Seq<char>) -> Option<Seq<char>> {
    let h = trimmed_end(header);
    if within(h, " b/"@) {
        let i = choose|i: int| last_at(h, " b/"@, i);
        let new = h.skip(i + 3);
        if new.len() > 0 {
            Some(new)
        } else {
            None
        }
    } else {
        None
    }
}

/// The path that a line opens a section for.
pub open spec fn opens(line: Seq<char>) -> Option<Seq<char>> {
    if "diff --git "@.is_prefix_of(line) {
        header_path(line.skip("diff --git "@.len() as int))
    } else {
        None
    }
}

/// A diff's lines, taken apart: what comes before the first section, and the sections.
pub open spec fn split(lines: Seq<Seq<char>>) -> (Seq<char>, Seq<SectionView>)
    decreases lines.len(),
{
    if lines.len() == 0 {
        (Seq::empty(), Seq::empty())
    } else {
        let (preamble, sections) = split(lines.drop_last());
        let line = lines.last();
        match opens(line) {
            Some(path) => (preamble, sections.push(SectionView { path, text: line })),
            None => if sections.len() > 0 {
                let last = sections.last();
                (preamble, sections.drop_last().push(SectionView { text: last.text + line, ..last }))
            } else {
                (preamble + line, sections)
            },
        }
    }
}

/// The texts of sections.
pub open spec fn section_texts(sections: Seq<SectionView>) -> Seq<Seq<char>> {
    sections.map_values(|s: SectionView| s.text)
}

/// Taking a diff apart loses none of it.
pub proof fn split_loses_nothing(lines: Seq<Seq<char>>)
    ensures
        split(lines).0 + concat(section_texts(split(lines).1)) == concat(lines),
    decreases lines.len(),
{
    if lines.len() > 0 {
        split_loses_nothing(lines.drop_last());
        let (preamble, sections) = split(lines.drop_last());
        let line = lines.last();
        match opens(line) {
            Some(path) => {
                let new = sections.push(SectionView { path, text: line });
                assert(section_texts(new).drop_last() =~= section_texts(sections));
                assert(preamble + (concat(section_texts(sections)) + line) =~= (preamble + concat(
                    section_texts(sections),
                )) + line);
            },
            None => {
                if sections.len() > 0 {
                    let last = sections.last();
                    let new = sections.drop_last().push(
                        SectionView { text: last.text + line, ..last },
                    );
                    assert(section_texts(new).drop_last() =~= section_texts(sections).drop_last());
                    assert(concat(section_texts(new)) =~= concat(section_texts(sections)) + line);
                    assert(preamble + (concat(section_texts(sections)) + line) =~= (preamble + concat(
                        section_texts(sections),
                    )) + line);
                } else {
                    assert(section_texts(sections) =~= Seq::empty());
                    assert(concat(section_texts(sections)) =~= Seq::empty());
                    assert(preamble + line + concat(section_texts(sections)) =~= preamble + line);
                    assert(preamble + concat(section_texts(sections)) =~= preamble);
                }
            },
        }
    } else {
        assert(concat(section_texts(split(lines).1)) =~= Seq::empty());
        assert(concat(lines) =~= Seq::empty());
        assert(split(lines).0 + concat(section_texts(split(lines).1)) =~= concat(lines));
    }
}

/// The new-state path from the rest of a `diff --git a/old b/new` line.
///
/// Split on the last ` b/`, because a real path may hold that sequence too.
fn path_in_header(header: Vec<char>) -> (r: Option<String>)
    ensures
        crate::text::opt_text(r) == header_path(header@),
{
    let h = trim_end(header);
    let needle = chars_of(" b/");
    proof {
        reveal_strlit(" b/");
    }
    let mut i: usize = h.len();
    loop
        invariant
            i <= h.len(),
            h@ == trimmed_end(header@),
            needle@ == " b/"@,
            needle@.len() == 3,
            forall|j: int| j > i ==> !#[trigger] stands_at(h@, needle@, j),
        decreases i,
    {
        if is_at(&h, &needle, i) {
            assert(last_at(h@, " b/"@, i as int));
            proof {
                let c = choose|c: int| last_at(h@, " b/"@, c);
                assert(c == i);
            }
            if i + 3 < h.len() {
                let path = text_of(&h, i + 3, h.len());
                assert(path@ =~= h@.skip(i + 3));
                return Some(path);
            }
            return None;
        }
        if i == 0 {
            assert(!within(h@, " b/"@));
            return None;
        }
        i -= 1;
    }
}

/// Split a unified diff into per-file sections.
///
/// What comes before the first section is kept apart and is never dropped: it is usually a
/// commit header, and losing it would change what the engine thinks it is looking at.
fn split_sections(diff: &str) -> (r: (String, Vec<Section>))
    ensures
        (r.0@, section_views(r.1@)) == split(pieces(diff@)),
{
    let lines = split_lines(diff);
    let mut preamble = String::new();
    let mut sections: Vec<Section> = Vec::new();
    let prefix = chars_of("diff --git ");
    let ghost all = texts(lines@);
    let mut i: usize = 0;
    proof {
        assert(all.take(0) =~= Seq::empty());
        assert(section_views(sections@) =~= Seq::empty());
    }
    while i < lines.len()
        invariant
            i <= lines.len(),
            all == texts(lines@),
            prefix@ == "diff --git "@,
            (preamble@, section_views(sections@)) == split(all.take(i as int)),
        decreases lines.len() - i,
    {
        let line = chars_of(lines[i].as_str());
        proof {
            assert(all.take(i + 1).drop_last() =~= all.take(i as int));
            assert(all.take(i + 1).last() == line@);
            reveal_strlit("diff --git ");
        }
        let headed = is_at(&line, &prefix, 0);
        assert(headed == "diff --git "@.is_prefix_of(line@));
        let opened: Option<String> = if headed {
            let rest = text_of(&line, prefix.len(), line.len());
            let header = chars_of(rest.as_str());
            assert(header@ =~= line@.skip(prefix@.len() as int));
            path_in_header(header)
        } else {
            None
        };
        let ghost before = section_views(sections@);
        match opened {
            Some(path) => {
                let section = Section { path, text: lines[i].clone() };
                sections.push(section);
                proof {
                    assert(section_views(sections@) =~= before.push(
                        SectionView { path: path@, text: line@ },
                    ));
                }
            },
            None => {
                if sections.len() > 0 {
                    match sections.pop() {
                        Some(last) => {
                            let mut text = last.text;
                            text.append(lines[i].as_str());
                            sections.push(Section { path: last.path, text });
                            proof {
                                assert(section_views(sections@) =~= before.drop_last().push(
                                    SectionView { text: before.last().text + line@, ..before.last() },
                                ));
                            }
                        },
                        None => {},
                    }
                } else {
                    preamble.append(lines[i].as_str());
                    assert(before =~= Seq::empty());
                }
            },
        }
        i += 1;
    }
    assert(all.take(lines@.len() as int) =~= all);
    (preamble, sections)
}

// --- the per-file cap ---

/// Where the first file with this path stands among the files of a change.
pub open spec fn file_index(files: Seq<FileDiff>, path: Seq<char>) -> Option<int>
    decreases files.len(),
{
    if files.len() == 0 {
        None
    } else {
        match file_index(files.drop_last(), path) {
            Some(i) => Some(i),
            None => if files.last().path@ == path {
                Some(files.len() - 1)
            } else {
                None
            },
        }
    }
}

/// The line that stands for a file whose content is not shown.
pub open spec fn stat_text(file: FileDiff, why: Seq<char>) -> Seq<char> {
    let path = file.path@;
    let rename = match file.previous_path {
        Some(p) => " (from "@ + p@ + ")"@,
        None => Seq::empty(),
    };
    "diff --git a/"@ + path + " b/"@ + path + "\n["@ + why + "] "@ + path + rename + ": "@ + file.status@
        + ", +"@ + decimal(file.insertions as nat) + " -"@ + decimal(file.deletions as nat) + "\n"@
}

/// Whether a section is shown as a stat line: its file is binary, or its diff is larger
/// than `cap` bytes. A section whose file is not described is shown as it is.
pub open spec fn reduces(section: SectionView, files: Seq<FileDiff>, cap: int) -> bool {
    match file_index(files, section.path) {
        Some(i) => files[i].binary || byte_len(section.text) > cap,
        None => false,
    }
}

/// A section as it is shown.
pub open spec fn shown(section: SectionView, files: Seq<FileDiff>, cap: int) -> SectionView {
    match file_index(files, section.path) {
        Some(i) => if files[i].binary {
            SectionView { text: stat_text(files[i], "binary"@), ..section }
        } else if byte_len(section.text) > cap {
            SectionView { text: stat_text(files[i], "diff too large to show"@), ..section }
        } else {
            section
        },
        None => section,
    }
}

/// Every section as it is shown, in the diff's order.
pub open spec fn capped(sections: Seq<SectionView>, files: Seq<FileDiff>, cap: int) -> Seq<SectionView> {
    sections.map_values(|s: SectionView| shown(s, files, cap))
}

/// The paths of the sections shown as stat lines, in the diff's order.
pub open spec fn reduced_paths(sections: Seq<SectionView>, files: Seq<FileDiff>, cap: int) -> Seq<Seq<char>>
    decreases sections.len(),
{
    if sections.len() == 0 {
        Seq::empty()
    } else {
        let before = reduced_paths(sections.drop_last(), files, cap);
        if reduces(sections.last(), files, cap) {
            before.push(sections.last().path)
        } else {
            before
        }
    }
}

fn lookup(files: &Vec<FileDiff>, path: &str) -> (r: Option<usize>)
    ensures
        match r {
            Some(i) => i < files.len() && file_index(files@, path@) == Some(i as int),
            None => file_index(files@, path@) is None,
        },
{
    let mut i: usize = 0;
    assert(files@.take(0) =~= Seq::empty());
    while i < files.len()
        invariant
            i <= files.len(),
            file_index(files@.take(i as int), path@) is None,
        decreases files.len() - i,
    {
        assert(files@.take(i + 1).drop_last() =~= files@.take(i as int));
        if same(files[i].path.as_str(), path) {
            proof {
                file_index_stays(files@, path@, i + 1);
            }
            return Some(i);
        }
        i += 1;
    }
    assert(files@.take(files@.len() as int) =~= files@);
    None
}

proof fn file_index_stays(files: Seq<FileDiff>, path: Seq<char>, n: int)
    requires
        0 <= n <= files.len(),
        file_index(files.take(n), path) is Some,
    ensures
        file_index(files, path) == file_index(files.take(n), path),
    decreases files.len(),
{
    if n == files.len() {
        assert(files.take(n) =~= files);
    } else {
        assert(files.drop_last().take(n) =~= files.take(n));
        file_index_stays(files.drop_last(), path, n);
    }
}

/// A stat line standing in for content that is not sent.
fn stat_line(file: &FileDiff, why: &str) -> (r: String)
    ensures
        r@ == stat_text(*file, why@),
{
    let path = file.path.as_str();
    let rename = match &file.previous_path {
        Some(p) => {
            let mut s = cat2(" (from ", p.as_str());
            s.append(")");
            s
        },
        None => String::new(),
    };
    let mut r = cat2("diff --git a/", path);
    r.append(" b/");
    r.append(path);
    r.append("\n[");
    r.append(why);
    r.append("] ");
    r.append(path);
    r.append(rename.as_str());
    r.append(": ");
    r.append(file.status.as_str());
    r.append(", +");
    r.append(num(file.insertions).as_str());
    r.append(" -");
    r.append(num(file.deletions).as_str());
    r.append("\n");
    r
}

/// Show each section within the per-file cap.
fn cap_sections(sections: &Vec<Section>, files: &Vec<FileDiff>, cap: usize) -> (r: (Vec<Section>, Vec<String>))
    ensures
        section_views(r.0@) == capped(section_views(sections@), files@, cap as int),
        texts(r.1@) == reduced_paths(section_views(sections@), files@, cap as int),
{
    let mut out: Vec<Section> = Vec::new();
    let mut reduced: Vec<String> = Vec::new();
    let ghost all = section_views(sections@);
    let mut i: usize = 0;
    proof {
        assert(all.take(0) =~= Seq::empty());
        assert(section_views(out@) =~= capped(all.take(0), files@, cap as int));
        assert(texts(reduced@) =~= Seq::empty());
    }
    while i < sections.len()
        invariant
            i <= sections.len(),
            all == section_views(sections@),
            section_views(out@) == capped(all.take(i as int), files@, cap as int),
            texts(reduced@) == reduced_paths(all.take(i as int), files@, cap as int),
        decreases sections.len() - i,
    {
        let path = sections[i].path.clone();
        let ghost here = all[i as int];
        let ghost out_before = out@;
        let ghost reduced_before = reduced@;
        let found = lookup(files, path.as_str());
        let mut text: Option<String> = None;
        if let Some(k) = found {
            if files[k].binary {
                text = Some(stat_line(&files[k], "binary"));
            } else if bytes_in(sections[i].text.as_str()) > cap {
                text = Some(stat_line(&files[k], "diff too large to show"));
            }
        }
        assert(text is Some == reduces(here, files@, cap as int));
        let section = match text {
            Some(t) => {
                reduced.push(path.clone());
                Section { path, text: t }
            },
            None => Section { path, text: sections[i].text.clone() },
        };
        assert(section@ == shown(here, files@, cap as int));
        out.push(section);
        proof {
            assert(all.take(i + 1).drop_last() =~= all.take(i as int));
            assert(all.take(i + 1).last() == here);
            assert(section_views(out@) =~= section_views(out_before).push(section@));
            assert(capped(all.take(i + 1), files@, cap as int) =~= capped(
                all.take(i as int),
                files@,
                cap as int,
            ).push(section@));
            if reduces(here, files@, cap as int) {
                assert(texts(reduced@) =~= texts(reduced_before).push(here.path));
            }
        }
        i += 1;
    }
    assert(all.take(sections@.len() as int) =~= all);
    (out, reduced)
}

// --- the total cap ---

/// How interesting a section is: by its path, where a file describes it. One that no file
/// describes is treated as source, since nothing says that it is not.
pub open spec fn ranked(files: Seq<FileDiff>, path: Seq<char>) -> Interest {
    if file_index(files, path) is Some {
        interest(path)
    } else {
        Interest::Source
    }
}

/// How interesting a section is.
fn rank_of(files: &Vec<FileDiff>, path: &str) -> (r: Interest)
    ensures
        r == ranked(files@, path@),
{
    if lookup(files, path).is_some() {
        interest_of(path)
    } else {
        Interest::Source
    }
}

/// How many bytes are left once every section less interesting than `tier` is dropped, and
/// of those in that tier every one from `before` on.
pub open spec fn size_left(sections: Seq<SectionView>, files: Seq<FileDiff>, tier: int, before: int) -> nat
    decreases sections.len(),
{
    if sections.len() == 0 {
        0
    } else {
        let last = sections.last();
        let level = ranked(files, last.path).level();
        size_left(sections.drop_last(), files, tier, before) + if level > tier || (level == tier && sections.len()
            - 1 < before) {
            byte_len(last.text)
        } else {
            0
        }
    }
}

/// Whether a section is dropped: with everything less interesting gone, and everything as
/// interesting that comes later, what is left is still too large.
pub open spec fn drops(sections: Seq<SectionView>, files: Seq<FileDiff>, budget: int, i: int) -> bool {
    size_left(sections, files, ranked(files, sections[i].path).level(), i + 1) > budget
}

/// The sections that stay, of the first `n`, in the diff's order.
pub open spec fn kept(sections: Seq<SectionView>, files: Seq<FileDiff>, budget: int, n: int) -> Seq<SectionView>
    decreases n,
{
    if n <= 0 {
        Seq::empty()
    } else if drops(sections, files, budget, n - 1) {
        kept(sections, files, budget, n - 1)
    } else {
        kept(sections, files, budget, n - 1).push(sections[n - 1])
    }
}

/// The paths of the sections that do not stay, of the first `n`, in the diff's order.
pub open spec fn dropped_paths(sections: Seq<SectionView>, files: Seq<FileDiff>, budget: int, n: int) -> Seq<
    Seq<char>,
>
    decreases n,
{
    if n <= 0 {
        Seq::empty()
    } else if drops(sections, files, budget, n - 1) {
        dropped_paths(sections, files, budget, n - 1).push(sections[n - 1].path)
    } else {
        dropped_paths(sections, files, budget, n - 1)
    }
}

/// The bytes of the first `n` sections that carry no flag.
spec fn unflagged(sections: Seq<SectionView>, flags: Seq<bool>, n: int) -> nat
    decreases n,
{
    if n <= 0 {
        0
    } else {
        unflagged(sections, flags, n - 1) + if flags[n - 1] {
            0
        } else {
            byte_len(sections[n - 1].text)
        }
    }
}

proof fn unflagged_after(sections: Seq<SectionView>, flags: Seq<bool>, i: int, n: int)
    requires
        0 <= i < flags.len(),
        0 <= n <= sections.len() == flags.len(),
        !flags[i],
    ensures
        i < n ==> unflagged(sections, flags.update(i, true), n) + byte_len(sections[i].text) == unflagged(
            sections,
            flags,
            n,
        ),
        i >= n ==> unflagged(sections, flags.update(i, true), n) == unflagged(sections, flags, n),
    decreases n,
{
    if n > 0 {
        unflagged_after(sections, flags, i, n - 1);
    }
}

proof fn nothing_flagged(sections: Seq<SectionView>, files: Seq<FileDiff>, flags: Seq<bool>, n: int)
    requires
        0 <= n <= sections.len() == flags.len(),
        forall|i: int| 0 <= i < flags.len() ==> !flags[i],
    ensures
        unflagged(sections, flags, n) == size_left(sections.take(n), files, 0, n),
    decreases n,
{
    if n > 0 {
        nothing_flagged(sections, files, flags, n - 1);
        assert(sections.take(n).drop_last() =~= sections.take(n - 1));
        size_left_wider(sections.take(n - 1), files, 0, n - 1, n);
    }
}

/// Past the end of the list it makes no difference where the tier is cut.
proof fn size_left_wider(sections: Seq<SectionView>, files: Seq<FileDiff>, tier: int, a: int, b: int)
    requires
        sections.len() <= a,
        sections.len() <= b,
    ensures
        size_left(sections, files, tier, a) == size_left(sections, files, tier, b),
    decreases sections.len(),
{
    if sections.len() > 0 {
        size_left_wider(sections.drop_last(), files, tier, a, b);
    }
}

proof fn size_left_step(sections: Seq<SectionView>, files: Seq<FileDiff>, tier: int, k: int)
    requires
        0 < k,
    ensures
        size_left(sections, files, tier, k) == size_left(sections, files, tier, k - 1) + if k
            <= sections.len() && ranked(files, sections[k - 1].path).level() == tier {
            byte_len(sections[k - 1].text)
        } else {
            0
        },
    decreases sections.len(),
{
    if sections.len() > 0 {
        size_left_step(sections.drop_last(), files, tier, k);
    }
}

proof fn size_left_next_tier(sections: Seq<SectionView>, files: Seq<FileDiff>, tier: int, n: int)
    requires
        sections.len() <= n,
    ensures
        size_left(sections, files, tier, 0) == size_left(sections, files, tier + 1, n),
    decreases sections.len(),
{
    if sections.len() > 0 {
        size_left_next_tier(sections.drop_last(), files, tier, n);
    }
}

proof fn size_left_past_source(sections: Seq<SectionView>, files: Seq<FileDiff>, n: int)
    ensures
        size_left(sections, files, 4, n) == 0,
    decreases sections.len(),
{
    if sections.len() > 0 {
        size_left_past_source(sections.drop_last(), files, n);
    }
}

/// The bytes of a list of texts.
proof fn bytes_of_concat(parts: Seq<Seq<char>>, part: Seq<char>)
    ensures
        byte_len(concat(parts.push(part))) == byte_len(concat(parts)) + byte_len(part),
{
    assert(parts.push(part).drop_last() =~= parts);
    encode_utf8_of_sum(concat(parts), part);
}

/// Which sections the total cap drops, and that what stays is within it.
fn choose_drops(sections: &Vec<Section>, files: &Vec<FileDiff>, budget: usize) -> (r: Vec<bool>)
    ensures
        r.len() == sections.len(),
        forall|i: int|
            0 <= i < r.len() ==> #[trigger] r@[i] == drops(section_views(sections@), files@, budget as int, i),
        unflagged(section_views(sections@), r@, sections@.len() as int) <= budget,
{
    let ghost v = section_views(sections@);
    let n: usize = sections.len();
    let mut flags: Vec<bool> = Vec::new();
    let mut levels: Vec<u8> = Vec::new();
    let mut sizes: Vec<usize> = Vec::new();
    let mut left: u128 = 0;
    let mut i: usize = 0;
    assert(v.take(0) =~= Seq::empty());
    while i < n
        invariant
            i <= n == sections.len(),
            v == section_views(sections@),
            flags.len() == i,
            levels.len() == i,
            sizes.len() == i,
            forall|j: int| 0 <= j < i ==> !#[trigger] flags@[j],
            forall|j: int| 0 <= j < i ==> #[trigger] levels@[j] == ranked(files@, v[j].path).level(),
            forall|j: int| 0 <= j < i ==> #[trigger] sizes@[j] == byte_len(v[j].text),
            left == size_left(v.take(i as int), files@, 0, i as int),
            left <= i * usize::MAX,
        decreases n - i,
    {
        let size: usize = bytes_in(sections[i].text.as_str());
        let level: u8 = rank_of(files, sections[i].path.as_str()).rank();
        proof {
            let most = usize::MAX as int;
            let at = i as int;
            assert(at * most + most <= 0xffff_ffff_ffff_ffff * 0xffff_ffff_ffff_ffff && (at + 1) * most == at
                * most + most) by (nonlinear_arith)
                requires
                    0 <= at < most,
                    most <= 0xffff_ffff_ffff_ffff,
            ;
            assert(v.take(i + 1).drop_last() =~= v.take(i as int));
            assert(v[i as int].path == sections@[i as int].path@);
            size_left_wider(v.take(i as int), files@, 0, i as int, i + 1);
        }
        left = left + size as u128;
        flags.push(false);
        levels.push(level);
        sizes.push(size);
        i += 1;
    }
    proof {
        assert(v.take(n as int) =~= v);
        nothing_flagged(v, files@, flags@, n as int);
    }

    // The tiers from the least interesting up, and each from its end.
    let mut tier: u8 = 0;
    while tier < 4
        invariant
            n == sections.len() == v.len(),
            flags.len() == n,
            levels.len() == n,
            sizes.len() == n,
            forall|j: int| 0 <= j < n ==> #[trigger] levels@[j] == ranked(files@, v[j].path).level(),
            forall|j: int| 0 <= j < n ==> #[trigger] sizes@[j] == byte_len(v[j].text),
            tier <= 4,
            left == size_left(v, files@, tier as int, n as int),
            forall|j: int|
                0 <= j < n && levels@[j] < tier ==> #[trigger] flags@[j] == drops(v, files@, budget as int, j),
            forall|j: int| 0 <= j < n && levels@[j] >= tier ==> !#[trigger] flags@[j],
            left > budget ==> unflagged(v, flags@, n as int) == left,
            left <= budget ==> unflagged(v, flags@, n as int) <= budget,
        decreases 4 - tier,
    {
        let mut k: usize = n;
        while k > 0
            invariant
                n == sections.len() == v.len(),
                flags.len() == n,
                levels.len() == n,
                sizes.len() == n,
                forall|j: int| 0 <= j < n ==> #[trigger] levels@[j] == ranked(files@, v[j].path).level(),
                forall|j: int| 0 <= j < n ==> #[trigger] sizes@[j] == byte_len(v[j].text),
                k <= n,
                left == size_left(v, files@, tier as int, k as int),
                forall|j: int|
                    0 <= j < n && (levels@[j] < tier || (levels@[j] == tier && j >= k))
                        ==> #[trigger] flags@[j] == drops(v, files@, budget as int, j),
                forall|j: int|
                    0 <= j < n && (levels@[j] > tier || (levels@[j] == tier && j < k))
                        ==> !#[trigger] flags@[j],
                left > budget ==> unflagged(v, flags@, n as int) == left,
                left <= budget ==> unflagged(v, flags@, n as int) <= budget,
            decreases k,
        {
            proof {
                size_left_step(v, files@, tier as int, k as int);
                assert(levels@[k - 1] == ranked(files@, v[k - 1].path).level());
                assert(sizes@[k - 1] == byte_len(v[k - 1].text));
            }
            if levels[k - 1] == tier {
                let too_large: bool = left > budget as u128;
                proof {
                    assert(!flags@[k - 1]);
                    unflagged_after(v, flags@, k - 1, n as int);
                }
                if too_large {
                    flags.set(k - 1, true);
                }
                left = left - sizes[k - 1] as u128;
            }
            k -= 1;
        }
        proof {
            size_left_next_tier(v, files@, tier as int, n as int);
        }
        tier += 1;
    }
    proof {
        size_left_past_source(v, files@, n as int);
        assert forall|j: int| 0 <= j < n implies #[trigger] flags@[j] == drops(v, files@, budget as int, j) by {
            assert(levels@[j] == ranked(files@, v[j].path).level());
        }
    }
    flags
}

// --- both caps ---

/// What truncation did, in full.
#[derive(Clone, Debug, PartialEq, Eq)]
pub struct TruncationOutcome {
    /// The diff to send to the engine.
    pub diff: String,
    /// Whether anything was cut.
    pub truncated: bool,
    /// Files dropped entirely, complete and never itself truncated.
    pub omitted_files: Vec<String>,
    /// Files whose hunks became a stat line but which remain in the diff.
    pub reduced_files: Vec<String>,
    /// Size of the diff as it arrived.
    pub original_bytes: usize,
    /// Size of the diff being sent.
    pub retained_bytes: usize,
}

impl Default for TruncationOutcome {
    /// Nothing cut, of an empty diff.
    fn default() -> (r: TruncationOutcome)
        ensures
            r.diff@ == Seq::<char>::empty(),
            !r.truncated,
            r.omitted_files@ == Seq::<String>::empty(),
            r.reduced_files@ == Seq::<String>::empty(),
            r.original_bytes == 0,
            r.retained_bytes == 0,
    {
        TruncationOutcome {
            diff: String::new(),
            truncated: false,
            omitted_files: Vec::new(),
            reduced_files: Vec::new(),
            original_bytes: 0,
            retained_bytes: 0,
        }
    }
}

impl TruncationOutcome {
    /// Whether a cut is claimed exactly where something is named.
    pub open spec fn consistent(self) -> bool {
        self.truncated == (self.omitted_files@.len() > 0 || self.reduced_files@.len() > 0)
    }

    /// Whether the outcome is self-consistent.
    ///
    /// Claiming a cut without naming anything is a silent cap, and so is naming omissions
    /// while claiming that nothing was cut.
    pub fn is_consistent(&self) -> (r: bool)
        ensures
            r == self.consistent(),
    {
        let named = !self.omitted_files.is_empty() || !self.reduced_files.is_empty();
        self.truncated == named
    }

    /// A line for the run record and the UI.
    pub open spec fn description(self) -> Seq<char> {
        "diff reduced from "@ + decimal(self.original_bytes as nat) + " to "@ + decimal(
            self.retained_bytes as nat,
        ) + " bytes: "@ + decimal(self.omitted_files@.len()) + " file(s) omitted, "@ + decimal(
            self.reduced_files@.len(),
        ) + " shown as a stat line only"@
    }

    /// A line for the run record and the UI; nothing when nothing was cut.
    pub fn describe(&self) -> (r: Option<String>)
        ensures
            r is Some == self.truncated,
            r matches Some(line) ==> line@ == self.description(),
    {
        if !self.truncated {
            return None;
        }
        let mut line = cat2("diff reduced from ", count(self.original_bytes).as_str());
        line.append(" to ");
        line.append(count(self.retained_bytes).as_str());
        line.append(" bytes: ");
        line.append(count(self.omitted_files.len()).as_str());
        line.append(" file(s) omitted, ");
        line.append(count(self.reduced_files.len()).as_str());
        line.append(" shown as a stat line only");
        Some(line)
    }
}

/// The sections of a diff within the per-file cap.
pub open spec fn capped_sections(diff: Seq<char>, files: Seq<FileDiff>, config: RepoConfig) -> Seq<SectionView> {
    capped(split(pieces(diff)).1, files, config.max_file_diff_bytes as int)
}

/// What the sections may take together: the total cap, less what comes before them.
pub open spec fn section_budget(diff: Seq<char>, config: RepoConfig) -> int {
    let preamble = byte_len(split(pieces(diff)).0);
    if preamble <= config.max_total_diff_bytes {
        config.max_total_diff_bytes - preamble
    } else {
        0
    }
}

/// The sections that are sent.
pub open spec fn sent_sections(diff: Seq<char>, files: Seq<FileDiff>, config: RepoConfig) -> Seq<SectionView> {
    let sections = capped_sections(diff, files, config);
    kept(sections, files, section_budget(diff, config), sections.len() as int)
}

/// The paths of the sections that are not sent, in the diff's order.
pub open spec fn unsent_paths(diff: Seq<char>, files: Seq<FileDiff>, config: RepoConfig) -> Seq<Seq<char>> {
    let sections = capped_sections(diff, files, config);
    dropped_paths(sections, files, section_budget(diff, config), sections.len() as int)
}

/// The paths of the sections that became stat lines, dropped ones included.
pub open spec fn cut_paths(diff: Seq<char>, files: Seq<FileDiff>, config: RepoConfig) -> Seq<Seq<char>> {
    reduced_paths(split(pieces(diff)).1, files, config.max_file_diff_bytes as int)
}

/// The texts of `a` that are not among those of `b`, in order.
pub open spec fn without(a: Seq<Seq<char>>, b: Seq<Seq<char>>) -> Seq<Seq<char>>
    decreases a.len(),
{
    if a.len() == 0 {
        Seq::empty()
    } else if b.contains(a.last()) {
        without(a.drop_last(), b)
    } else {
        without(a.drop_last(), b).push(a.last())
    }
}

fn retain_without(v: Vec<String>, gone: &Vec<String>) -> (r: Vec<String>)
    ensures
        texts(r@) == without(texts(v@), texts(gone@)),
{
    let mut r: Vec<String> = Vec::new();
    let mut i: usize = 0;
    proof {
        assert(texts(v@).take(0) =~= Seq::empty());
        assert(texts(r@) =~= Seq::empty());
    }
    while i < v.len()
        invariant
            i <= v.len(),
            texts(r@) == without(texts(v@).take(i as int), texts(gone@)),
        decreases v.len() - i,
    {
        let ghost before = r@;
        assert(texts(v@).take(i + 1).drop_last() =~= texts(v@).take(i as int));
        if !has_text(gone, v[i].as_str()) {
            r.push(v[i].clone());
            assert(texts(r@) =~= texts(before).push(v@[i as int]@));
        }
        i += 1;
    }
    assert(texts(v@).take(v@.len() as int) =~= texts(v@));
    r
}

/// Whether an outcome is that of cutting a diff: what is sent, what was left out and what was
/// shortened, in order and each as often as it occurs, and how much of it there was.
pub open spec fn is_cut(r: TruncationOutcome, diff: Seq<char>, files: Seq<FileDiff>, config: RepoConfig) -> bool {
    &&& r.diff@ == split(pieces(diff)).0 + concat(section_texts(sent_sections(diff, files, config)))
    &&& texts(r.omitted_files@) == sorted_texts(unsent_paths(diff, files, config))
    &&& texts(r.reduced_files@) == sorted_texts(
        without(cut_paths(diff, files, config), texts(r.omitted_files@)),
    )
    &&& r.consistent()
    &&& r.original_bytes == byte_len(diff)
    &&& r.retained_bytes == byte_len(r.diff@)
}

/// Apply both caps to a unified diff.
///
/// `files` describes the files of the same diff. A section that none of them describes is never
/// shown as a stat line, and ranks as source where the total cap drops sections.
pub fn truncate(diff_unified: &str, files: &Vec<FileDiff>, config: &RepoConfig) -> (r: TruncationOutcome)
    ensures
        is_cut(r, diff_unified@, files@, *config),
        // What is sent fits the total cap, unless what comes before the sections does not.
        r.retained_bytes <= config.max_total_diff_bytes || r.retained_bytes == byte_len(
            split(pieces(diff_unified@)).0,
        ),
{
    let (preamble, sections) = split_sections(diff_unified);
    let (shown_sections, reduced) = cap_sections(&sections, files, config.max_file_diff_bytes);
    let used: usize = bytes_in(preamble.as_str());
    let budget: usize = if used <= config.max_total_diff_bytes {
        config.max_total_diff_bytes - used
    } else {
        0
    };
    let ghost v = section_views(shown_sections@);
    assert(v == capped_sections(diff_unified@, files@, *config));
    assert(budget == section_budget(diff_unified@, *config));
    let flags = choose_drops(&shown_sections, files, budget);

    let mut diff = preamble.clone();
    let mut omitted: Vec<String> = Vec::new();
    let mut i: usize = 0;
    proof {
        assert(section_texts(kept(v, files@, budget as int, 0)) =~= Seq::empty());
        assert(diff@ =~= preamble@ + concat(section_texts(kept(v, files@, budget as int, 0))));
        assert(texts(omitted@) =~= Seq::empty());
        assert(byte_len(Seq::<char>::empty()) == 0);
    }
    while i < shown_sections.len()
        invariant
            i <= shown_sections.len() == flags.len(),
            v == section_views(shown_sections@),
            forall|j: int| 0 <= j < flags.len() ==> #[trigger] flags@[j] == drops(v, files@, budget as int, j),
            diff@ == preamble@ + concat(section_texts(kept(v, files@, budget as int, i as int))),
            texts(omitted@) == dropped_paths(v, files@, budget as int, i as int),
            byte_len(concat(section_texts(kept(v, files@, budget as int, i as int)))) == unflagged(
                v,
                flags@,
                i as int,
            ),
        decreases shown_sections.len() - i,
    {
        let ghost stay = kept(v, files@, budget as int, i as int);
        let ghost omitted_before = omitted@;
        assert(flags@[i as int] == drops(v, files@, budget as int, i as int));
        if flags[i] {
            omitted.push(shown_sections[i].path.clone());
            assert(texts(omitted@) =~= texts(omitted_before).push(v[i as int].path));
        } else {
            diff.append(shown_sections[i].text.as_str());
            proof {
                assert(section_texts(stay.push(v[i as int])) =~= section_texts(stay).push(v[i as int].text));
                assert(section_texts(stay).push(v[i as int].text).drop_last() =~= section_texts(stay));
                assert(preamble@ + (concat(section_texts(stay)) + v[i as int].text) =~= (preamble@ + concat(
                    section_texts(stay),
                )) + v[i as int].text);
                bytes_of_concat(section_texts(stay), v[i as int].text);
            }
        }
        i += 1;
    }
    let omitted_files = sort_texts(omitted);
    let reduced_files = sort_texts(retain_without(reduced, &omitted_files));
    let retained_bytes: usize = bytes_in(diff.as_str());
    proof {
        encode_utf8_of_sum(preamble@, concat(section_texts(kept(v, files@, budget as int, v.len() as int))));
    }
    TruncationOutcome {
        truncated: !omitted_files.is_empty() || !reduced_files.is_empty(),
        diff,
        omitted_files,
        reduced_files,
        original_bytes: bytes_in(diff_unified),
        retained_bytes,
    }
}

// --- what holds of every truncation ---

/// No file is hidden: each section of a diff is sent, as it is shown, or its path is named.
pub proof fn every_section_is_sent_or_named(
    diff: Seq<char>,
    files: Seq<FileDiff>,
    config: RepoConfig,
    i: int,
)
    requires
        0 <= i < capped_sections(diff, files, config).len(),
    ensures
        ({
            let section = capped_sections(diff, files, config)[i];
            sent_sections(diff, files, config).contains(section) || unsent_paths(
                diff,
                files,
                config,
            ).contains(section.path)
        }),
{
    let sections = capped_sections(diff, files, config);
    kept_or_dropped(sections, files, section_budget(diff, config), i, sections.len() as int);
}

proof fn kept_or_dropped(sections: Seq<SectionView>, files: Seq<FileDiff>, budget: int, i: int, n: int)
    requires
        0 <= i < n <= sections.len(),
    ensures
        drops(sections, files, budget, i) ==> dropped_paths(sections, files, budget, n).contains(sections[i].path),
        !drops(sections, files, budget, i) ==> kept(sections, files, budget, n).contains(sections[i]),
    decreases n,
{
    let stay = kept(sections, files, budget, n - 1);
    let gone = dropped_paths(sections, files, budget, n - 1);
    if i == n - 1 {
        if drops(sections, files, budget, i) {
            assert(gone.push(sections[i].path)[gone.len() as int] == sections[i].path);
        } else {
            assert(stay.push(sections[i])[stay.len() as int] == sections[i]);
        }
    } else {
        kept_or_dropped(sections, files, budget, i, n - 1);
        if drops(sections, files, budget, i) {
            let k = choose|k: int| 0 <= k < gone.len() && gone[k] == sections[i].path;
            if drops(sections, files, budget, n - 1) {
                assert(gone.push(sections[n - 1].path)[k] == sections[i].path);
            }
        } else {
            let k = choose|k: int| 0 <= k < stay.len() && stay[k] == sections[i];
            if !drops(sections, files, budget, n - 1) {
                assert(stay.push(sections[n - 1])[k] == sections[i]);
            }
        }
    }
}

/// The total cap takes the least interesting first, and among equals the latest first: what
/// would go before a dropped section goes too.
pub proof fn the_least_interesting_go_first(
    sections: Seq<SectionView>,
    files: Seq<FileDiff>,
    budget: int,
    i: int,
    j: int,
)
    requires
        0 <= i < sections.len(),
        0 <= j < sections.len(),
        drops(sections, files, budget, i),
        ranked(files, sections[j].path).level() < ranked(files, sections[i].path).level() || (ranked(
            files,
            sections[j].path,
        ) == ranked(files, sections[i].path) && j > i),
    ensures
        drops(sections, files, budget, j),
{
    size_left_shrinks(
        sections,
        files,
        ranked(files, sections[j].path).level(),
        j + 1,
        ranked(files, sections[i].path).level(),
        i + 1,
    );
}

/// A section that no file describes is treated as source: it goes only once every section whose
/// path says that it is something else has gone.
pub proof fn what_nothing_describes_goes_with_the_source(
    sections: Seq<SectionView>,
    files: Seq<FileDiff>,
    budget: int,
    i: int,
    j: int,
)
    requires
        0 <= i < sections.len(),
        0 <= j < sections.len(),
        file_index(files, sections[i].path) is None,
        file_index(files, sections[j].path) is Some,
        interest(sections[j].path) != Interest::Source,
        drops(sections, files, budget, i),
    ensures
        drops(sections, files, budget, j),
{
    the_least_interesting_go_first(sections, files, budget, i, j);
}

proof fn size_left_shrinks(
    sections: Seq<SectionView>,
    files: Seq<FileDiff>,
    tier: int,
    before: int,
    tier2: int,
    before2: int,
)
    requires
        tier < tier2 || (tier == tier2 && before >= before2),
    ensures
        size_left(sections, files, tier2, before2) <= size_left(sections, files, tier, before),
    decreases sections.len(),
{
    if sections.len() > 0 {
        size_left_shrinks(sections.drop_last(), files, tier, before, tier2, before2);
    }
}

proof fn size_left_within_all(sections: Seq<SectionView>, files: Seq<FileDiff>, tier: int, before: int)
    ensures
        size_left(sections, files, tier, before) <= byte_len(concat(section_texts(sections))),
    decreases sections.len(),
{
    if sections.len() > 0 {
        size_left_within_all(sections.drop_last(), files, tier, before);
        assert(section_texts(sections).drop_last() =~= section_texts(sections.drop_last()));
        encode_utf8_of_sum(concat(section_texts(sections.drop_last())), sections.last().text);
    }
}

proof fn all_kept(sections: Seq<SectionView>, files: Seq<FileDiff>, budget: int, n: int)
    requires
        0 <= n <= sections.len(),
        byte_len(concat(section_texts(sections))) <= budget,
    ensures
        kept(sections, files, budget, n) == sections.take(n),
        dropped_paths(sections, files, budget, n) == Seq::<Seq<char>>::empty(),
    decreases n,
{
    if n > 0 {
        all_kept(sections, files, budget, n - 1);
        size_left_within_all(sections, files, ranked(files, sections[n - 1].path).level(), n);
        assert(sections.take(n - 1).push(sections[n - 1]) =~= sections.take(n));
    } else {
        assert(sections.take(0) =~= Seq::empty());
    }
}

/// A diff within both caps is left alone, and nothing is named.
pub proof fn a_diff_within_the_caps_is_left_alone(diff: Seq<char>, files: Seq<FileDiff>, config: RepoConfig)
    requires
        byte_len(diff) <= config.max_total_diff_bytes,
        forall|i: int|
            0 <= i < split(pieces(diff)).1.len() ==> !reduces(
                #[trigger] split(pieces(diff)).1[i],
                files,
                config.max_file_diff_bytes as int,
            ),
    ensures
        split(pieces(diff)).0 + concat(section_texts(sent_sections(diff, files, config))) == diff,
        unsent_paths(diff, files, config) == Seq::<Seq<char>>::empty(),
        cut_paths(diff, files, config) == Seq::<Seq<char>>::empty(),
{
    let (preamble, sections) = split(pieces(diff));
    let cap = config.max_file_diff_bytes as int;
    assert(capped(sections, files, cap) =~= sections);
    split_loses_nothing(pieces(diff));
    pieces_make_the_text(diff);
    encode_utf8_of_sum(preamble, concat(section_texts(sections)));
    all_kept(sections, files, section_budget(diff, config), sections.len() as int);
    assert(sections.take(sections.len() as int) =~= sections);
    nothing_reduced(sections, files, cap);
}

proof fn nothing_reduced(sections: Seq<SectionView>, files: Seq<FileDiff>, cap: int)
    requires
        forall|i: int| 0 <= i < sections.len() ==> !reduces(#[trigger] sections[i], files, cap),
    ensures
        reduced_paths(sections, files, cap) == Seq::<Seq<char>>::empty(),
    decreases sections.len(),
{
    if sections.len() > 0 {
        assert(!reduces(sections[sections.len() - 1], files, cap));
        assert forall|i: int| 0 <= i < sections.drop_last().len() implies !reduces(
            #[trigger] sections.drop_last()[i],
            files,
            cap,
        ) by {
            assert(sections.drop_last()[i] == sections[i]);
        }
        nothing_reduced(sections.drop_last(), files, cap);
    }
}

/// The per-file cap takes no file out of the diff: each section stays in its place under its path,
/// and one that is within the cap and not binary is shown as it is.
pub proof fn the_file_cap_keeps_every_file(
    sections: Seq<SectionView>,
    files: Seq<FileDiff>,
    cap: int,
    i: int,
)
    requires
        0 <= i < sections.len(),
    ensures
        capped(sections, files, cap).len() == sections.len(),
        capped(sections, files, cap)[i].path == sections[i].path,
        !reduces(sections[i], files, cap) ==> capped(sections, files, cap)[i] == sections[i],
{
}

// --- what is sent, told from the diff ---

/// The line that opens a section names the file after the change, whatever it was called before.
pub proof fn a_header_opens_its_new_path(old: Seq<char>, new: Seq<char>)
    requires
        !within(new, " b/"@),
        new.len() > 0,
        !is_space(new.last()),
    ensures
        opens("diff --git a/"@ + old + " b/"@ + new + "\n"@) == Some(new),
{
    reveal_strlit("diff --git a/");
    reveal_strlit("diff --git ");
    reveal_strlit("\n");
    let line = "diff --git a/"@ + old + " b/"@ + new + "\n"@;
    let h = "a/"@ + old + " b/"@ + new;
    reveal_strlit("a/");
    assert("diff --git "@ =~= line.subrange(0, 11));
    let header = line.skip(11);
    assert(header =~= h.push('\n'));
    header_names(old, new);
}

proof fn header_names(old: Seq<char>, new: Seq<char>)
    requires
        !within(new, " b/"@),
        new.len() > 0,
        !is_space(new.last()),
    ensures
        header_path(("a/"@ + old + " b/"@ + new).push('\n')) == Some(new),
{
    reveal_strlit("a/");
    reveal_strlit(" b/");
    let h = "a/"@ + old + " b/"@ + new;
    let header = h.push('\n');
    assert(header.drop_last() =~= h);
    assert(is_space('\n'));
    assert(h.last() == new.last());
    assert(trimmed_end(h) == h);
    assert(trimmed_end(header) == h);
    let i: int = 2 + old.len() as int;
    assert(h.subrange(i, i + 3) =~= " b/"@);
    assert(stands_at(h, " b/"@, i));
    assert forall|j: int| j > i implies !#[trigger] stands_at(h, " b/"@, j) by {
        if stands_at(h, " b/"@, j) {
            assert(h.subrange(j, j + 3)[0] == h[j]);
            if j >= i + 3 {
                assert(new.subrange(j - i - 3, j - i) =~= h.subrange(j, j + 3));
                assert(stands_at(new, " b/"@, j - i - 3));
            } else {
                assert(h[j] == " b/"@[j - i]);
            }
        }
    }
    assert(last_at(h, " b/"@, i));
    let c = choose|c: int| last_at(h, " b/"@, c);
    assert(c == i) by {
        if c < i {
            assert(!stands_at(h, " b/"@, i));
        } else if c > i {
            assert(!stands_at(h, " b/"@, c));
        }
    }
    assert(h.skip(i + 3) =~= new);
}

/// A line that does not begin as a header opens nothing.
pub proof fn an_ordinary_line_opens_nothing(line: Seq<char>)
    requires
        !"diff --git "@.is_prefix_of(line),
    ensures
        opens(line) is None,
{
}

proof fn one_section(line: Seq<char>, path: Seq<char>, rest: Seq<Seq<char>>)
    requires
        opens(line) == Some(path),
        forall|k: int| 0 <= k < rest.len() ==> opens(#[trigger] rest[k]) is None,
    ensures
        split(seq![line] + rest) == (Seq::<char>::empty(), seq![SectionView { path, text: line + concat(rest) }]),
    decreases rest.len(),
{
    let all = seq![line] + rest;
    if rest.len() == 0 {
        assert(all =~= seq![line]);
        assert(all.drop_last() =~= Seq::empty());
        assert(split(all.drop_last()) == (Seq::<char>::empty(), Seq::<SectionView>::empty()));
        assert(line + concat(rest) =~= line);
        assert(split(all).1 =~= seq![SectionView { path, text: line }]);
    } else {
        let before = rest.drop_last();
        assert forall|k: int| 0 <= k < before.len() implies opens(#[trigger] before[k]) is None by {
            assert(before[k] == rest[k]);
        }
        one_section(line, path, before);
        assert(all.drop_last() =~= seq![line] + before);
        assert(all.last() == rest.last());
        assert(opens(rest[rest.len() - 1]) is None);
        assert((line + concat(before)) + rest.last() =~= line + concat(rest));
        assert(split(all).1 =~= seq![SectionView { path, text: line + concat(rest) }]);
    }
}

proof fn first_file(files: Seq<FileDiff>, path: Seq<char>, f: int)
    requires
        0 <= f < files.len(),
        files[f].path@ == path,
        forall|g: int| 0 <= g < f ==> (#[trigger] files[g]).path@ != path,
    ensures
        file_index(files, path) == Some(f),
    decreases files.len(),
{
    if f == files.len() - 1 {
        no_file(files.drop_last(), path);
    } else {
        first_file(files.drop_last(), path, f);
    }
}

proof fn no_file(files: Seq<FileDiff>, path: Seq<char>)
    requires
        forall|g: int| 0 <= g < files.len() ==> (#[trigger] files[g]).path@ != path,
    ensures
        file_index(files, path) is None,
    decreases files.len(),
{
    if files.len() > 0 {
        assert(files[files.len() - 1].path@ != path);
        assert forall|g: int| 0 <= g < files.drop_last().len() implies (#[trigger] files.drop_last()[g]).path@ != path by {
            assert(files.drop_last()[g] == files[g]);
        }
        no_file(files.drop_last(), path);
    }
}

/// Which file describes a section: the first whose path after the change is the section's.
pub proof fn the_first_file_of_a_path_describes_it(files: Seq<FileDiff>, path: Seq<char>)
    ensures
        match file_index(files, path) {
            Some(f) => 0 <= f < files.len() && files[f].path@ == path && forall|g: int|
                0 <= g < f ==> (#[trigger] files[g]).path@ != path,
            None => forall|g: int| 0 <= g < files.len() ==> (#[trigger] files[g]).path@ != path,
        },
    decreases files.len(),
{
    if files.len() > 0 {
        let before = files.drop_last();
        the_first_file_of_a_path_describes_it(before, path);
        match file_index(before, path) {
            Some(f) => {
                assert(before[f] == files[f]);
                assert forall|g: int| 0 <= g < f implies (#[trigger] files[g]).path@ != path by {
                    assert(before[g] == files[g]);
                }
            },
            None => {
                assert forall|g: int| 0 <= g < files.len() - 1 implies (#[trigger] files[g]).path@ != path by {
                    assert(before[g] == files[g]);
                }
            },
        }
    }
}

/// What stands for a file whose content is not shown names it, tells where it was before, what
/// happened to it, and how much of it.
pub open spec fn stand_in(file: FileDiff, why: Seq<char>) -> Seq<char> {
    "diff --git a/"@ + file.path@ + " b/"@ + file.path@ + "\n["@ + why + "] "@ + file.path@ + match file.previous_path {
        Some(p) => " (from "@ + p@ + ")"@,
        None => Seq::empty(),
    } + ": "@ + file.status@ + ", +"@ + decimal(file.insertions as nat) + " -"@ + decimal(file.deletions as nat)
        + "\n"@
}

/// The diff of one file, under whatever name it had before: where the file is binary or its diff is
/// over the cap of one file, a line that stands for it is sent and it is named as reduced; otherwise
/// it is sent as it is and nothing is named. What is over the cap of all files together is not sent,
/// and is named as omitted.
pub proof fn a_diff_of_one_file(
    r: TruncationOutcome,
    old: Seq<char>,
    new: Seq<char>,
    body: Seq<char>,
    files: Seq<FileDiff>,
    config: RepoConfig,
    f: int,
)
    requires
        ({
            let diff = "diff --git a/"@ + old + " b/"@ + new + "\n"@ + body;
            is_cut(r, diff, files, config)
        }),
        !within(new, " b/"@),
        new.len() > 0,
        !is_space(new.last()),
        !old.contains('\n'),
        !new.contains('\n'),
        !within(body, "diff --git "@),
        0 <= f < files.len(),
        files[f].path@ == new,
        forall|g: int| 0 <= g < f ==> (#[trigger] files[g]).path@ != new,
    ensures
        ({
            let diff = "diff --git a/"@ + old + " b/"@ + new + "\n"@ + body;
            let cut = files[f].binary || byte_len(diff) > config.max_file_diff_bytes;
            let sent = if files[f].binary {
                stand_in(files[f], "binary"@)
            } else if byte_len(diff) > config.max_file_diff_bytes {
                stand_in(files[f], "diff too large to show"@)
            } else {
                diff
            };
            if byte_len(sent) <= config.max_total_diff_bytes {
                &&& r.diff@ == sent
                &&& r.truncated == cut
                &&& texts(r.omitted_files@) == Seq::<Seq<char>>::empty()
                &&& texts(r.reduced_files@) == if cut {
                    seq![new]
                } else {
                    Seq::<Seq<char>>::empty()
                }
            } else {
                &&& r.diff@ == Seq::<char>::empty()
                &&& r.truncated
                &&& texts(r.omitted_files@) == seq![new]
                &&& texts(r.reduced_files@) == Seq::<Seq<char>>::empty()
            }
        }),
        r.original_bytes == byte_len("diff --git a/"@ + old + " b/"@ + new + "\n"@ + body),
        r.retained_bytes == byte_len(r.diff@),
{
    reveal_strlit("diff --git a/");
    reveal_strlit(" b/");
    reveal_strlit("\n");
    let head = "diff --git a/"@ + old + " b/"@ + new;
    let line = head + "\n"@;
    let diff = line + body;
    assert(line =~= head.push('\n'));
    assert(!head.contains('\n')) by {
        assert forall|i: int| 0 <= i < head.len() implies head[i] != '\n' by {
            let a = 13 + old.len();
            if i < 13 {
                assert(head[i] == "diff --git a/"@[i]);
            } else if i < a {
                assert(old.contains(old[i - 13]));
                assert(head[i] == old[i - 13]);
            } else if i < a + 3 {
                assert(head[i] == " b/"@[i - a]);
            } else {
                assert(new.contains(new[i - a - 3]));
                assert(head[i] == new[i - a - 3]);
            }
        }
    }
    first_piece(head, body);
    a_header_opens_its_new_path(old, new);
    let rest = pieces(body);
    assert forall|k: int| 0 <= k < rest.len() implies opens(#[trigger] rest[k]) is None by {
        if "diff --git "@.is_prefix_of(rest[k]) {
            let i = a_piece_is_a_part(body, k);
            let n = "diff --git "@.len() as int;
            assert("diff --git "@ =~= rest[k].subrange(0, n));
            assert(body.subrange(i, i + n) =~= rest[k].subrange(0, n));
            assert(stands_at(body, "diff --git "@, i));
        }
    }
    one_section(line, new, rest);
    pieces_make_the_text(body);
    let whole = SectionView { path: new, text: diff };
    assert(split(pieces(diff)) == (Seq::<char>::empty(), seq![whole]));
    first_file(files, new, f);
    let cap = config.max_file_diff_bytes as int;
    let out = shown(whole, files, cap);
    let sections = capped_sections(diff, files, config);
    assert(sections =~= seq![out]);
    assert(byte_len(Seq::<char>::empty()) == 0);
    let budget = section_budget(diff, config);
    assert(budget == config.max_total_diff_bytes);
    let level = ranked(files, out.path).level();
    assert(sections.drop_last() =~= Seq::empty());
    assert(size_left(sections.drop_last(), files, level, 1) == 0);
    assert(size_left(sections, files, level, 1) == byte_len(out.text));
    assert(drops(sections, files, budget, 0) == (byte_len(out.text) > budget));
    assert(kept(sections, files, budget, 0) =~= Seq::empty());
    assert(dropped_paths(sections, files, budget, 0) =~= Seq::empty());
    assert(seq![whole].drop_last() =~= Seq::empty());
    assert(reduced_paths(seq![whole].drop_last(), files, cap) =~= Seq::empty());
    let cut = reduces(whole, files, cap);
    assert(cut_paths(diff, files, config) =~= if cut {
        seq![new]
    } else {
        Seq::empty()
    });
    let gone = unsent_paths(diff, files, config);
    let sent = sent_sections(diff, files, config);
    if byte_len(out.text) > budget {
        assert(gone =~= seq![new]);
        assert(sent =~= Seq::empty());
        assert(section_texts(sent) =~= Seq::empty());
        assert(concat(section_texts(sent)) =~= Seq::empty());
        assert(gone[0] == new);
    } else {
        assert(gone =~= Seq::empty());
        assert(sent =~= seq![out]);
        assert(section_texts(sent) =~= seq![out.text]);
        assert(section_texts(sent).drop_last() =~= Seq::empty());
        assert(concat(section_texts(sent).drop_last()) =~= Seq::empty());
        assert(concat(section_texts(sent)) =~= out.text);
    }
    few_are_sorted(gone);
    let cuts = cut_paths(diff, files, config);
    assert(cuts.len() > 0 ==> cuts.drop_last() =~= Seq::empty());
    let left = without(cuts, gone);
    assert(without(Seq::<Seq<char>>::empty(), gone) =~= Seq::empty());
    assert(left =~= if cut && byte_len(out.text) <= budget {
        seq![new]
    } else {
        Seq::empty()
    });
    few_are_sorted(left);
    assert(texts(r.omitted_files@).len() == r.omitted_files@.len());
    assert(texts(r.reduced_files@).len() == r.reduced_files@.len());
}

/// No file is hidden: each section of a diff is sent as it is, or a line that stands for it is and
/// it is named as reduced, or it is named as omitted. Its content is withheld only where its file is
/// binary, its diff is over the cap of one file, or it was dropped for the cap of all.
pub proof fn no_file_is_hidden(
    r: TruncationOutcome,
    diff: Seq<char>,
    files: Seq<FileDiff>,
    config: RepoConfig,
    i: int,
)
    requires
        is_cut(r, diff, files, config),
        0 <= i < split(pieces(diff)).1.len(),
    ensures
        ({
            let section = split(pieces(diff)).1[i];
            let named = |list: Seq<String>, path: Seq<char>|
                exists|k: int| 0 <= k < list.len() && (#[trigger] list[k])@ == path;
            ||| named(r.omitted_files@, section.path) && r.truncated
            ||| within(r.diff@, section.text)
            ||| named(r.reduced_files@, section.path) && r.truncated && exists|f: int|
                0 <= f < files.len() && (#[trigger] files[f]).path@ == section.path && ((files[f].binary && within(
                    r.diff@,
                    stand_in(files[f], "binary"@),
                )) || (byte_len(section.text) > config.max_file_diff_bytes && within(
                    r.diff@,
                    stand_in(files[f], "diff too large to show"@),
                )))
        }),
{
    let (preamble, sections) = split(pieces(diff));
    let cap = config.max_file_diff_bytes as int;
    let all = capped_sections(diff, files, config);
    let section = sections[i];
    let out = shown(section, files, cap);
    assert(all[i] == out);
    every_section_is_sent_or_named(diff, files, config, i);
    let gone = unsent_paths(diff, files, config);
    sorted_texts_means(gone, section.path);
    let omitted = texts(r.omitted_files@);
    assert(omitted.len() == r.omitted_files@.len());
    if gone.contains(section.path) {
        let k = choose|k: int| 0 <= k < omitted.len() && omitted[k] == section.path;
        assert(r.omitted_files@[k]@ == section.path);
    } else {
        let sent = sent_sections(diff, files, config);
        let m = choose|m: int| 0 <= m < sent.len() && sent[m] == out;
        let parts = section_texts(sent);
        assert(parts[m] == out.text);
        part_of_concat(parts, m);
        within_more(preamble, concat(parts), out.text);
        the_first_file_of_a_path_describes_it(files, section.path);
        if reduces(section, files, cap) {
            reduced_is_named(sections, files, cap, i);
            let cuts = cut_paths(diff, files, config);
            assert(!omitted.contains(section.path));
            without_keeps(cuts, omitted, section.path);
            let left = without(cuts, omitted);
            sorted_texts_means(left, section.path);
            let reduced = texts(r.reduced_files@);
            assert(reduced.len() == r.reduced_files@.len());
            let k = choose|k: int| 0 <= k < reduced.len() && reduced[k] == section.path;
            assert(r.reduced_files@[k]@ == section.path);
            let f = file_index(files, section.path)->0;
            assert(files[f].path@ == section.path);
        } else {
            assert(out.text == section.text);
        }
    }
}

proof fn part_of_concat(parts: Seq<Seq<char>>, m: int)
    requires
        0 <= m < parts.len(),
    ensures
        within(concat(parts), parts[m]),
    decreases parts.len(),
{
    let before = concat(parts.drop_last());
    if m == parts.len() - 1 {
        stands_inside(before, parts[m], Seq::empty());
        assert(before + parts[m] + Seq::empty() =~= concat(parts));
    } else {
        part_of_concat(parts.drop_last(), m);
        let i = choose|i: int| stands_at(before, parts[m], i);
        let all = concat(parts);
        assert(all.subrange(i, i + parts[m].len()) =~= before.subrange(i, i + parts[m].len()));
        assert(stands_at(all, parts[m], i));
    }
}

proof fn within_more(front: Seq<char>, s: Seq<char>, part: Seq<char>)
    requires
        within(s, part),
    ensures
        within(front + s, part),
{
    let i = choose|i: int| stands_at(s, part, i);
    let n = front.len() as int;
    assert((front + s).subrange(n + i, n + i + part.len()) =~= s.subrange(i, i + part.len()));
    assert(stands_at(front + s, part, n + i));
}

proof fn reduced_is_named(sections: Seq<SectionView>, files: Seq<FileDiff>, cap: int, i: int)
    requires
        0 <= i < sections.len(),
        reduces(sections[i], files, cap),
    ensures
        reduced_paths(sections, files, cap).contains(sections[i].path),
    decreases sections.len(),
{
    let before = reduced_paths(sections.drop_last(), files, cap);
    push_contains(before, sections.last().path, sections[i].path);
    if i < sections.len() - 1 {
        reduced_is_named(sections.drop_last(), files, cap, i);
    }
}

proof fn without_keeps(a: Seq<Seq<char>>, b: Seq<Seq<char>>, t: Seq<char>)
    requires
        a.contains(t),
        !b.contains(t),
    ensures
        without(a, b).contains(t),
    decreases a.len(),
{
    let before = without(a.drop_last(), b);
    let k = choose|k: int| 0 <= k < a.len() && a[k] == t;
    push_contains(before, a.last(), t);
    if k < a.len() - 1 {
        assert(a.drop_last()[k] == t);
        without_keeps(a.drop_last(), b, t);
    }
}

proof fn without_is_among(a: Seq<Seq<char>>, b: Seq<Seq<char>>, t: Seq<char>)
    requires
        without(a, b).contains(t),
    ensures
        a.contains(t),
        !b.contains(t),
    decreases a.len(),
{
    if a.len() > 0 {
        let before = without(a.drop_last(), b);
        if before.contains(t) {
            without_is_among(a.drop_last(), b, t);
            let k = choose|k: int| 0 <= k < a.drop_last().len() && a.drop_last()[k] == t;
            assert(a[k] == t);
        } else {
            push_contains(before, a.last(), t);
            assert(a[a.len() - 1] == t);
        }
    }
}

/// What is named is in the diff: a file that is named as omitted or as reduced is one of its
/// sections', none is named as both, and both lists are in order.
pub proof fn only_what_was_cut_is_named(
    r: TruncationOutcome,
    diff: Seq<char>,
    files: Seq<FileDiff>,
    config: RepoConfig,
    path: Seq<char>,
)
    requires
        is_cut(r, diff, files, config),
    ensures
        in_order(texts(r.omitted_files@)),
        in_order(texts(r.reduced_files@)),
        !(texts(r.omitted_files@).contains(path) && texts(r.reduced_files@).contains(path)),
        texts(r.omitted_files@).contains(path) || texts(r.reduced_files@).contains(path) ==> exists|i: int|
            0 <= i < split(pieces(diff)).1.len() && (#[trigger] split(pieces(diff)).1[i]).path == path,
        r.truncated == (r.omitted_files@.len() > 0 || r.reduced_files@.len() > 0),
{
    let sections = split(pieces(diff)).1;
    let all = capped_sections(diff, files, config);
    let omitted = texts(r.omitted_files@);
    let gone = unsent_paths(diff, files, config);
    let cuts = cut_paths(diff, files, config);
    sorted_texts_means(gone, path);
    sorted_texts_means(without(cuts, omitted), path);
    if texts(r.reduced_files@).contains(path) {
        without_is_among(cuts, omitted, path);
        let i = reduced_from(sections, files, config.max_file_diff_bytes as int, path);
        assert(sections[i].path == path);
    }
    if omitted.contains(path) {
        let i = dropped_from(all, files, section_budget(diff, config), all.len() as int, path);
        assert(all[i].path == sections[i].path);
    }
}

proof fn reduced_from(sections: Seq<SectionView>, files: Seq<FileDiff>, cap: int, path: Seq<char>) -> (i: int)
    requires
        reduced_paths(sections, files, cap).contains(path),
    ensures
        0 <= i < sections.len(),
        sections[i].path == path,
    decreases sections.len(),
{
    if sections.len() == 0 {
        0
    } else {
        let before = reduced_paths(sections.drop_last(), files, cap);
        push_contains(before, sections.last().path, path);
        if before.contains(path) {
            reduced_from(sections.drop_last(), files, cap, path)
        } else {
            sections.len() - 1
        }
    }
}

proof fn dropped_from(
    sections: Seq<SectionView>,
    files: Seq<FileDiff>,
    budget: int,
    n: int,
    path: Seq<char>,
) -> (i: int)
    requires
        0 <= n <= sections.len(),
        dropped_paths(sections, files, budget, n).contains(path),
    ensures
        0 <= i < n,
        sections[i].path == path,
        drops(sections, files, budget, i),
    decreases n,
{
    if n <= 0 {
        0
    } else {
        let before = dropped_paths(sections, files, budget, n - 1);
        push_contains(before, sections[n - 1].path, path);
        if before.contains(path) {
            dropped_from(sections, files, budget, n - 1, path)
        } else {
            n - 1
        }
    }
}

/// No more is dropped than has to be: the section that would be the last to go is dropped only
/// where what stays and it together are more than may be sent.
pub proof fn nothing_is_dropped_that_would_fit(
    sections: Seq<SectionView>,
    files: Seq<FileDiff>,
    budget: int,
    i: int,
)
    requires
        0 <= i < sections.len(),
        drops(sections, files, budget, i),
        forall|j: int|
            0 <= j < sections.len() && j != i && #[trigger] drops(sections, files, budget, j) ==> ranked(
                files,
                sections[j].path,
            ).level() < ranked(files, sections[i].path).level() || (ranked(files, sections[j].path).level()
                == ranked(files, sections[i].path).level() && j > i),
    ensures
        byte_len(concat(section_texts(kept(sections, files, budget, sections.len() as int)))) + byte_len(
            sections[i].text,
        ) > budget,
{
    let level = ranked(files, sections[i].path).level();
    assert forall|j: int| 0 <= j < sections.len() && j != i implies #[trigger] drops(sections, files, budget, j) == !(
    ranked(files, sections[j].path).level() > level || (ranked(files, sections[j].path).level() == level && j
        < i + 1)) by {
        let other = ranked(files, sections[j].path);
        if other.level() < level || (other.level() == level && j > i) {
            assert(other.level() == level ==> other == ranked(files, sections[i].path));
            the_least_interesting_go_first(sections, files, budget, i, j);
        }
    }
    kept_and_one(sections, files, budget, i, sections.len() as int);
    assert(sections.take(sections.len() as int) =~= sections);
}

proof fn kept_and_one(sections: Seq<SectionView>, files: Seq<FileDiff>, budget: int, i: int, n: int)
    requires
        0 <= i < sections.len(),
        0 <= n <= sections.len(),
        drops(sections, files, budget, i),
        forall|j: int|
            0 <= j < sections.len() && j != i ==> #[trigger] drops(sections, files, budget, j) == !(ranked(
                files,
                sections[j].path,
            ).level() > ranked(files, sections[i].path).level() || (ranked(files, sections[j].path).level()
                == ranked(files, sections[i].path).level() && j < i + 1)),
    ensures
        byte_len(concat(section_texts(kept(sections, files, budget, n)))) + if i < n {
            byte_len(sections[i].text)
        } else {
            0
        } == size_left(sections.take(n), files, ranked(files, sections[i].path).level(), i + 1),
    decreases n,
{
    if n == 0 {
        assert(section_texts(kept(sections, files, budget, 0)) =~= Seq::empty());
        assert(byte_len(Seq::<char>::empty()) == 0);
        assert(sections.take(0) =~= Seq::empty());
    } else {
        kept_and_one(sections, files, budget, i, n - 1);
        assert(sections.take(n).drop_last() =~= sections.take(n - 1));
        assert(sections.take(n).last() == sections[n - 1]);
        let stay = kept(sections, files, budget, n - 1);
        if n - 1 != i {
            assert(drops(sections, files, budget, n - 1) == !(ranked(files, sections[n - 1].path).level() > ranked(
                files,
                sections[i].path,
            ).level() || (ranked(files, sections[n - 1].path).level() == ranked(files, sections[i].path).level()
                && n - 1 < i + 1)));
        }
        if !drops(sections, files, budget, n - 1) {
            assert(section_texts(stay.push(sections[n - 1])) =~= section_texts(stay).push(sections[n - 1].text));
            bytes_of_concat(section_texts(stay), sections[n - 1].text);
        }
    }
}

/// What is worth most to a reader: the code under review, then what tests it, then what configures
/// it, then everything else.
pub proof fn code_is_worth_most()
    ensures
        Interest::Data.level() < Interest::Config.level(),
        Interest::Config.level() < Interest::Tests.level(),
        Interest::Tests.level() < Interest::Source.level(),
{
}

/// What a path is taken for: a test where one of the usual marks of one stands in it; otherwise data
/// or configuration by its ending or its name; and code where nothing says otherwise.
pub proof fn what_a_path_is_taken_for(path: Seq<char>)
    ensures
        ({
            let lower = lowered(path);
            let rooted = seq!['/'] + lower;
            let name = after_last(lower, '/');
            let ext = if name.contains('.') {
                after_last(name, '.')
            } else {
                Seq::empty()
            };
            let test = within(rooted, "/tests/"@) || within(rooted, "/test/"@) || within(rooted, "/spec/"@) || within(
                rooted,
                "/__tests__/"@,
            ) || within(rooted, "/testdata/"@) || within(rooted, "/fixtures/"@) || within(rooted, "_test."@) || within(
                rooted,
                ".test."@,
            ) || within(rooted, "test_"@) || within(rooted, ".spec."@) || within(rooted, "_spec."@);
            let data = ext == "md"@ || ext == "rst"@ || ext == "txt"@ || ext == "adoc"@ || ext == "markdown"@ || ext
                == "csv"@ || ext == "tsv"@ || ext == "snap"@ || ext == "golden"@ || ext == "svg"@ || ext == "png"@
                || ext == "jpg"@ || ext == "jpeg"@ || ext == "gif"@ || ext == "ico"@ || ext == "pdf"@ || ext
                == "parquet"@ || ext == "avro"@ || ext == "bin"@ || ext == "wasm"@ || ext == "map"@;
            let config = name == "dockerfile"@ || name == "makefile"@ || name == "justfile"@ || name == "procfile"@
                || name == "package.json"@ || name == "tsconfig.json"@ || name == "composer.json"@ || name
                == ".gitignore"@ || name == ".gitattributes"@ || name == ".dockerignore"@ || ext == "toml"@ || ext
                == "yaml"@ || ext == "yml"@ || ext == "ini"@ || ext == "cfg"@ || ext == "conf"@ || ext
                == "properties"@ || ext == "editorconfig"@ || ext == "env"@ || (name.len() > 0 && name[0] == '.');
            interest(path) == if test {
                Interest::Tests
            } else if data {
                Interest::Data
            } else if config {
                Interest::Config
            } else if ext == "json"@ {
                Interest::Data
            } else {
                Interest::Source
            }
        }),
{
    let lower = lowered(path);
    let rooted = seq!['/'] + lower;
    let name = after_last(lower, '/');
    let ext = if name.contains('.') {
        after_last(name, '.')
    } else {
        Seq::empty()
    };
    let t = test_markers();
    assert(any_within(rooted, t) ==> exists|i: int| 0 <= i < t.len() && within(rooted, #[trigger] t[i]));
    assert(within(rooted, t[0]) || within(rooted, t[1]) || within(rooted, t[2]) || within(rooted, t[3]) || within(
        rooted,
        t[4],
    ) || within(rooted, t[5]) || within(rooted, t[6]) || within(rooted, t[7]) || within(rooted, t[8]) || within(
        rooted,
        t[9],
    ) || within(rooted, t[10]) ==> any_within(rooted, t));
    let d = data_extensions();
    assert(d.contains(ext) == (ext == d[0] || ext == d[1] || ext == d[2] || ext == d[3] || ext == d[4] || ext == d[5]
        || ext == d[6] || ext == d[7] || ext == d[8] || ext == d[9] || ext == d[10] || ext == d[11] || ext == d[12]
        || ext == d[13] || ext == d[14] || ext == d[15] || ext == d[16] || ext == d[17] || ext == d[18] || ext
        == d[19] || ext == d[20]));
    let n = config_names();
    assert(n.contains(name) == (name == n[0] || name == n[1] || name == n[2] || name == n[3] || name == n[4] || name
        == n[5] || name == n[6] || name == n[7] || name == n[8] || name == n[9]));
    let e = config_extensions();
    assert(e.contains(ext) == (ext == e[0] || ext == e[1] || ext == e[2] || ext == e[3] || ext == e[4] || ext == e[5]
        || ext == e[6] || ext == e[7] || ext == e[8]));
}

/// The line for the run record tells how large the diff was, how large what was sent is, and how
/// many files were left out and reduced.
pub proof fn the_line_tells_how_much_was_cut(r: TruncationOutcome)
    ensures
        r.description() == "diff reduced from "@ + decimal(r.original_bytes as nat) + " to "@ + decimal(
            r.retained_bytes as nat,
        ) + " bytes: "@ + decimal(r.omitted_files@.len()) + " file(s) omitted, "@ + decimal(r.reduced_files@.len())
            + " shown as a stat line only"@,
{
}

} // verus!
