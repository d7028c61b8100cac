//! The repositories an install watches: adding, showing, changing and removing them.
//!
//! A degraded repository is the one worth being able to see. It is still configured, still
//! polled, and quietly seeing nothing, which looks exactly like one where nobody has committed
//! lately. Showing state never changes it.

use vstd::prelude::*;

use crate::model::{AutonomyMode, EngineKind, Repo, RepoKind};
use crate::text::{
    a_part_is_joined, cat2, cat3, cat4, cat5, cat6, cat7, chars_of, contains, count, decimal, first_index,
    first_index_is, first_index_means, first_index_none, has_text, inside_stays, join, joined, num,
    one_of_six, opt_str, opt_text, push_contains, same, stands_at, stands_inside, starts_with, text_of, texts,
    trim, trimmed, within,
};
use crate::view::RepoView;

verus! {

/// Why a command on repositories could not complete.
#[derive(Clone, Debug, PartialEq, Eq)]
pub enum RepoCommandError {
    /// The database could not be read.
    Store {
        /// Why.
        source: String,
    },
    /// A name that is already taken. The name is what findings are recognised by, so a second
    /// repository under it would merge two histories.
    NameTaken {
        /// The name asked for.
        name: String,
    },
    /// A value that is not one of those that exist.
    NotAValue {
        /// Which field.
        what: String,
        /// What was given.
        given: String,
        /// What is allowed.
        valid: String,
    },
    /// A `key=value` that is neither.
    NotAPair {
        /// What was given.
        given: String,
        /// An engine, for an example.
        engine: String,
    },
    /// No repository by that name is configured.
    NoSuchRepo {
        /// The name asked for.
        name: String,
    },
    /// The report could not be rendered.
    Unrenderable {
        /// Why.
        source: String,
    },
}

/// Why a command was refused.
pub enum Refusal {
    /// The database could not be read.
    Store { source: Seq<char> },
    /// The name is taken.
    NameTaken { name: Seq<char> },
    /// There is no such value.
    NotAValue { what: Seq<char>, given: Seq<char>, valid: Seq<char> },
    /// It is no `key=value`.
    NotAPair { given: Seq<char>, engine: Seq<char> },
    /// There is no such repository.
    NoSuchRepo { name: Seq<char> },
    /// The report could not be rendered.
    Unrenderable { source: Seq<char> },
}

impl View for RepoCommandError {
    type V = Refusal;

    open spec fn view(&self) -> Refusal {
        match *self {
            Self::Store { source } => Refusal::Store { source: source@ },
            Self::NameTaken { name } => Refusal::NameTaken { name: name@ },
            Self::NotAValue { what, given, valid } => Refusal::NotAValue {
                what: what@,
                given: given@,
                valid: valid@,
            },
            Self::NotAPair { given, engine } => Refusal::NotAPair { given: given@, engine: engine@ },
            Self::NoSuchRepo { name } => Refusal::NoSuchRepo { name: name@ },
            Self::Unrenderable { source } => Refusal::Unrenderable { source: source@ },
        }
    }
}

/// A refusal in words.
pub open spec fn in_words(r: Refusal) -> Seq<char> {
    match r {
        Refusal::Store { source } => "could not read the repository list: "@ + source
            + "\n  try: revlocal db migrate"@,
        Refusal::NameTaken { name } => "a repository named "@ + name
            + " is already configured\n  try: pick another --name, or `revlocal repo remove "@ + name
            + "` first"@,
        Refusal::NotAValue { what, given, valid } => what + " `"@ + given + "` is not one of: "@ + valid
            + "\n  try: one of those"@,
        Refusal::NotAPair { given, engine } => "`"@ + given
            + "` is not a `key=value` pair\n  try: revlocal repo set <name> engine="@ + engine
            + " autonomy=dry_run"@,
        Refusal::NoSuchRepo { name } => "no repository named "@ + name
            + " is configured\n  try: revlocal repo show"@,
        Refusal::Unrenderable { source } => "could not render the report: "@ + source,
    }
}

impl RepoCommandError {
    /// The error in words.
    pub fn describe(&self) -> (r: String)
        ensures
            r@ == in_words(self@),
    {
        match self {
            Self::Store { source } => cat3(
                "could not read the repository list: ",
                source.as_str(),
                "\n  try: revlocal db migrate",
            ),
            Self::NameTaken { name } => cat5(
                "a repository named ",
                name.as_str(),
                " is already configured\n  try: pick another --name, or `revlocal repo remove ",
                name.as_str(),
                "` first",
            ),
            Self::NotAValue { what, given, valid } => cat6(
                what.as_str(),
                " `",
                given.as_str(),
                "` is not one of: ",
                valid.as_str(),
                "\n  try: one of those",
            ),
            Self::NotAPair { given, engine } => cat5(
                "`",
                given.as_str(),
                "` is not a `key=value` pair\n  try: revlocal repo set <name> engine=",
                engine.as_str(),
                " autonomy=dry_run",
            ),
            Self::NoSuchRepo { name } => cat3(
                "no repository named ",
                name.as_str(),
                " is configured\n  try: revlocal repo show",
            ),
            Self::Unrenderable { source } => cat2("could not render the report: ", source.as_str()),
        }
    }
}

// --- values by their names ---

/// A value with a name by which it is written.
pub trait AsStr {
    /// How it is written.
    spec fn spelled(&self) -> Seq<char>;

    /// How it is written.
    fn as_str(&self) -> (r: &'static str)
        ensures
            r@ == self.spelled(),
    ;
}

impl AsStr for RepoKind {
    open spec fn spelled(&self) -> Seq<char> {
        self.word()
    }

    fn as_str(&self) -> (r: &'static str) {
        (*self).as_str()
    }
}

impl AsStr for EngineKind {
    open spec fn spelled(&self) -> Seq<char> {
        self.word()
    }

    fn as_str(&self) -> (r: &'static str) {
        (*self).as_str()
    }
}

impl AsStr for AutonomyMode {
    open spec fn spelled(&self) -> Seq<char> {
        self.word()
    }

    fn as_str(&self) -> (r: &'static str) {
        (*self).as_str()
    }
}

/// How values are written.
pub open spec fn spellings<T: AsStr>(all: Seq<T>) -> Seq<Seq<char>> {
    all.map_values(|v: T| v.spelled())
}

/// Whether a value is written so.
pub open spec fn written_as<T: AsStr>(given: Seq<char>) -> spec_fn(T) -> bool {
    |v: T| v.spelled() == given
}

/// The first value that is written so.
pub open spec fn value_of<T: AsStr>(all: Seq<T>, given: Seq<char>) -> Option<T> {
    match first_index(all, written_as::<T>(given)) {
        Some(i) => Some(all[i]),
        None => None,
    }
}

/// What reading a value by its name comes to.
pub open spec fn parsed<T: AsStr>(what: Seq<char>, given: Seq<char>, all: Seq<T>) -> Result<T, Refusal> {
    match value_of(all, given) {
        Some(v) => Ok(v),
        None => Err(Refusal::NotAValue { what, given, valid: joined(spellings(all), ", "@) }),
    }
}

/// A result with its error in the model.
pub open spec fn told<T>(r: Result<T, RepoCommandError>) -> Result<T, Refusal> {
    match r {
        Ok(v) => Ok(v),
        Err(e) => Err(e@),
    }
}

fn find_value<T: Copy + AsStr>(given: &str, all: &Vec<T>) -> (r: Option<T>)
    ensures
        r == value_of(all@, given@),
{
    let ghost p = written_as::<T>(given@);
    let mut i: usize = 0;
    while i < all.len()
        invariant
            i <= all.len(),
            p == written_as::<T>(given@),
            forall|j: int| 0 <= j < i ==> !p(#[trigger] all@[j]),
        decreases all.len() - i,
    {
        let v: T = all[i];
        if same(v.as_str(), given) {
            proof {
                first_index_is(all@, p, i as int);
            }
            return Some(v);
        }
        i += 1;
    }
    proof {
        first_index_none(all@, p);
    }
    None
}

/// Read a value by its name. When there is none, the error names all of them: the list is short,
/// and saves a lookup.
pub fn parse_enum<T: Copy + AsStr>(what: &str, given: &str, all: &Vec<T>) -> (r: Result<T, RepoCommandError>)
    ensures
        told(r) == parsed(what@, given@, all@),
{
    if let Some(v) = find_value(given, all) {
        return Ok(v);
    }
    let mut names: Vec<String> = Vec::new();
    let mut i: usize = 0;
    while i < all.len()
        invariant
            i <= all.len(),
            names@.len() == i,
            forall|j: int| 0 <= j < i ==> (#[trigger] names@[j])@ == all@[j].spelled(),
        decreases all.len() - i,
    {
        names.push(all[i].as_str().to_owned());
        i += 1;
    }
    assert(texts(names@) =~= spellings(all@));
    Err(
        RepoCommandError::NotAValue {
            what: what.to_owned(),
            given: given.to_owned(),
            valid: join(&names, ", "),
        },
    )
}

/// Every kind of repository.
pub open spec fn all_kinds() -> Seq<RepoKind> {
    seq![RepoKind::Git, RepoKind::GitHub, RepoKind::Svn]
}

/// Every mode.
pub open spec fn all_modes() -> Seq<AutonomyMode> {
    seq![AutonomyMode::Off, AutonomyMode::DryRun, AutonomyMode::AutoLowAskHigh, AutonomyMode::Auto]
}

fn kinds() -> (r: Vec<RepoKind>)
    ensures
        r@ == all_kinds(),
{
    let r: Vec<RepoKind> = vec![RepoKind::Git, RepoKind::GitHub, RepoKind::Svn];
    assert(r@ =~= all_kinds());
    r
}

fn modes() -> (r: Vec<AutonomyMode>)
    ensures
        r@ == all_modes(),
{
    let r: Vec<AutonomyMode> = vec![
        AutonomyMode::Off,
        AutonomyMode::DryRun,
        AutonomyMode::AutoLowAskHigh,
        AutonomyMode::Auto,
    ];
    assert(r@ =~= all_modes());
    r
}

// --- showing ---

/// What a repository's block says about it. Autonomy stands among the settings: it decides
/// whether this repository writes to anybody else's systems.
pub open spec fn block(view: RepoView) -> Seq<char> {
    let h = view.health;
    h.repo@ + "  ["@ + h.health.word() + "]\n"@ + ("  "@ + view.kind@ + " · engine "@ + view.engine@
        + " · autonomy "@ + view.autonomy@ + if view.enabled {
        "\n"@
    } else {
        " · DISABLED\n"@
    }) + ("  poll every "@ + decimal(h.poll_interval_secs as nat) + "s, next in about "@ + decimal(
        h.next_poll_in_secs as nat,
    ) + "s\n"@) + if h.consecutive_failures > 0 {
        "  "@ + decimal(h.consecutive_failures as nat) + " consecutive failure(s)\n"@
    } else {
        Seq::empty()
    } + match h.last_error {
        Some(error) => "  last error: "@ + error@ + "\n"@,
        None => Seq::empty(),
    } + note_lines(texts(h.notes@))
}

/// Notes, each on a line.
pub open spec fn note_lines(notes: Seq<Seq<char>>) -> Seq<char>
    decreases notes.len(),
{
    if notes.len() == 0 {
        Seq::empty()
    } else {
        note_lines(notes.drop_last()) + ("  note: "@ + notes.last() + "\n"@)
    }
}

/// Blocks, one after the other.
pub open spec fn blocks(views: Seq<RepoView>) -> Seq<char>
    decreases views.len(),
{
    if views.len() == 0 {
        Seq::empty()
    } else {
        blocks(views.drop_last()) + block(views.last())
    }
}

/// The repositories in words.
pub open spec fn listing(views: Seq<RepoView>) -> Seq<char> {
    if views.len() == 0 {
        "no repositories are configured\n  try: revlocal repo add --help\n"@
    } else {
        blocks(views)
    }
}

fn write_notes(notes: &Vec<String>) -> (r: String)
    ensures
        r@ == note_lines(texts(notes@)),
{
    let mut out = String::new();
    let ghost all = texts(notes@);
    let mut i: usize = 0;
    assert(all.take(0) =~= Seq::empty());
    while i < notes.len()
        invariant
            i <= notes.len(),
            all == texts(notes@),
            out@ == note_lines(all.take(i as int)),
        decreases notes.len() - i,
    {
        assert(all.take(i + 1).drop_last() =~= all.take(i as int));
        out.append(cat3("  note: ", notes[i].as_str(), "\n").as_str());
        i += 1;
    }
    assert(all.take(all.len() as int) =~= all);
    out
}

fn write_block(view: &RepoView) -> (r: String)
    ensures
        r@ == block(*view),
{
    let h = &view.health;
    let mut out = cat4(h.repo.as_str(), "  [", h.health.as_str(), "]\n");
    let settings = cat7(
        "  ",
        view.kind.as_str(),
        " · engine ",
        view.engine.as_str(),
        " · autonomy ",
        view.autonomy.as_str(),
        if view.enabled {
            "\n"
        } else {
            " · DISABLED\n"
        },
    );
    out.append(settings.as_str());
    let polling = cat5(
        "  poll every ",
        num(h.poll_interval_secs).as_str(),
        "s, next in about ",
        num(h.next_poll_in_secs).as_str(),
        "s\n",
    );
    out.append(polling.as_str());
    let ghost head = out@;
    if h.consecutive_failures > 0 {
        let line = cat3("  ", num(h.consecutive_failures as u64).as_str(), " consecutive failure(s)\n");
        out.append(line.as_str());
    }
    let ghost failures = out@;
    if let Some(error) = &h.last_error {
        out.append(cat3("  last error: ", error.as_str(), "\n").as_str());
    }
    out.append(write_notes(&h.notes).as_str());
    assert(out@ =~= block(*view));
    out
}

/// The repositories in words: one block each, notes last.
pub fn render_human(views: &Vec<RepoView>) -> (r: String)
    ensures
        r@ == listing(views@),
{
    if views.is_empty() {
        return "no repositories are configured\n  try: revlocal repo add --help\n".to_owned();
    }
    let mut out = String::new();
    let mut i: usize = 0;
    assert(views@.take(0) =~= Seq::empty());
    while i < views.len()
        invariant
            i <= views.len(),
            out@ == blocks(views@.take(i as int)),
        decreases views.len() - i,
    {
        assert(views@.take(i + 1).drop_last() =~= views@.take(i as int));
        out.append(write_block(&views[i]).as_str());
        i += 1;
    }
    assert(views@.take(views@.len() as int) =~= views@);
    out
}

/// The views of one repository, where one is asked for.
pub open spec fn asked_for(views: Seq<RepoView>, name: Option<Seq<char>>) -> Seq<RepoView>
    decreases views.len(),
{
    if views.len() == 0 {
        Seq::empty()
    } else {
        let before = asked_for(views.drop_last(), name);
        if name is None || views.last().repo@ == name->0 {
            before.push(views.last())
        } else {
            before
        }
    }
}

/// The views to show: all, or those of the repository that is asked for, which has to be there.
pub fn run(views: Vec<RepoView>, name: Option<&str>) -> (r: Result<Vec<RepoView>, RepoCommandError>)
    ensures
        match r {
            Ok(shown) => shown@ == asked_for(views@, opt_str(name)) && (name is Some ==> shown@.len() > 0),
            Err(e) => name is Some && asked_for(views@, opt_str(name)).len() == 0 && e@ == (
            Refusal::NoSuchRepo { name: name->0@ }),
        },
{
    let ghost all = views@;
    let mut rest: Vec<RepoView> = views;
    // Taken from the back, so put in order at the end.
    let mut backwards: Vec<RepoView> = Vec::new();
    assert(backwards@.reverse() =~= Seq::empty());
    assert(asked_for(all, opt_str(name)) =~= asked_for(rest@, opt_str(name)) + backwards@.reverse());
    while rest.len() > 0
        invariant
            asked_for(all, opt_str(name)) == asked_for(rest@, opt_str(name)) + backwards@.reverse(),
        decreases rest.len(),
    {
        let ghost before = rest@;
        let ghost so_far = backwards@;
        let view = rest.pop().unwrap();
        assert(before.drop_last() =~= rest@);
        let wanted = match name {
            Some(wanted) => same(view.repo.as_str(), wanted),
            None => true,
        };
        if wanted {
            backwards.push(view);
            assert(backwards@.reverse() =~= seq![before.last()] + so_far.reverse());
            assert(asked_for(before, opt_str(name)) + so_far.reverse() =~= asked_for(rest@, opt_str(name))
                + backwards@.reverse());
        }
    }
    assert(rest@ =~= Seq::empty());
    let mut r: Vec<RepoView> = Vec::new();
    let ghost kept = backwards@;
    assert(r@ + backwards@.reverse() =~= kept.reverse());
    while backwards.len() > 0
        invariant
            r@ + backwards@.reverse() == kept.reverse(),
        decreases backwards.len(),
    {
        let ghost before = backwards@;
        let ghost so_far = r@;
        let view = backwards.pop().unwrap();
        r.push(view);
        assert(before.reverse() =~= seq![before.last()] + before.drop_last().reverse());
        assert(r@ + backwards@.reverse() =~= so_far + before.reverse());
    }
    assert(r@ =~= asked_for(all, opt_str(name)));
    if let Some(wanted) = name {
        if r.is_empty() {
            return Err(RepoCommandError::NoSuchRepo { name: wanted.to_owned() });
        }
    }
    Ok(r)
}

// --- adding ---

/// The setting that holds the mode of repositories added without one.
pub const SETTING_DEFAULT_AUTONOMY: &'static str = "default_autonomy";

/// What a change to the repositories did.
#[derive(Clone, Debug, PartialEq, Eq)]
pub struct RepoWriteReport {
    /// `add`, `remove` or `set`.
    pub action: String,
    /// The repository's number.
    pub repo_id: i64,
    /// Its name.
    pub name: String,
    /// A sentence for a person.
    pub detail: String,
}

/// Whether a repository's checkout is there. One added by URL has no path, and is not the
/// subject of this question.
pub fn checkout_is_present(local_path: &Option<String>, exists: bool) -> (r: bool)
    ensures
        r == match *local_path {
            Some(path) => path@.len() > 0 && exists,
            None => true,
        },
{
    match local_path {
        Some(path) => chars_of(path.as_str()).len() > 0 && exists,
        None => true,
    }
}

/// The line shown when a repository's checkout is gone.
pub open spec fn missing_checkout(name: Seq<char>, local_path: Option<Seq<char>>) -> Seq<char> {
    name + ": the checkout is gone — "@ + match local_path {
        Some(path) => path,
        None => "no path recorded"@,
    }
        + "\n  try: put it back, point the repository at its new location, or disable it"@
}

/// The line shown when a repository's checkout is gone.
pub fn checkout_missing_detail(name: &str, local_path: &Option<String>) -> (r: String)
    ensures
        r@ == missing_checkout(name@, opt_text(*local_path)),
{
    cat4(
        name,
        ": the checkout is gone — ",
        match local_path {
            Some(path) => path.as_str(),
            None => "no path recorded",
        },
        "\n  try: put it back, point the repository at its new location, or disable it",
    )
}

/// Whether this is a remote rather than a path.
pub open spec fn is_url(value: Seq<char>) -> bool {
    within(value, "://"@) || "git@"@.is_prefix_of(value)
}

/// Whether this looks like a remote rather than a path on disk.
pub fn looks_like_url(value: &str) -> (r: bool)
    ensures
        r == is_url(value@),
{
    contains(value, "://") || starts_with(value, "git@")
}

/// A text without what it ends with, however often.
pub open spec fn without_endings(s: Seq<char>, ending: Seq<char>) -> Seq<char>
    decreases s.len(),
{
    if ending.len() > 0 && ending.is_suffix_of(s) {
        without_endings(s.take(s.len() - ending.len()), ending)
    } else {
        s
    }
}

/// Whether a character parts one directory from another.
pub open spec fn parts_directories(c: char) -> bool {
    c == '/' || c == '\\'
}

/// The characters after the last that parts directories.
pub open spec fn tail_segment(s: Seq<char>) -> Seq<char>
    decreases s.len(),
{
    if s.len() == 0 || parts_directories(s.last()) {
        Seq::empty()
    } else {
        tail_segment(s.drop_last()).push(s.last())
    }
}

/// The last segment of a path that is not empty; nothing where all are.
pub open spec fn last_segment(s: Seq<char>) -> Seq<char>
    decreases s.len(),
{
    if s.len() == 0 {
        Seq::empty()
    } else if parts_directories(s.last()) {
        last_segment(s.drop_last())
    } else {
        tail_segment(s)
    }
}

/// What a repository is called when nobody named it: the last directory of its path or URL,
/// without `.git`.
pub open spec fn derived_name(path_or_url: Seq<char>) -> Seq<char> {
    let segment = last_segment(without_endings(without_endings(path_or_url, "/"@), ".git"@));
    if segment.len() == 0 {
        "repo"@
    } else {
        segment
    }
}

fn strip_endings(v: Vec<char>, ending: &Vec<char>) -> (r: Vec<char>)
    requires
        ending@.len() > 0,
    ensures
        r@ == without_endings(v@, ending@),
{
    let ghost whole = v@;
    let mut v = v;
    while v.len() >= ending.len() && crate::text::is_at(&v, ending, v.len() - ending.len())
        invariant
            ending@.len() > 0,
            without_endings(v@, ending@) == without_endings(whole, ending@),
        decreases v.len(),
    {
        let n: usize = v.len() - ending.len();
        let ghost was = v@;
        assert(was.subrange(n as int, was.len() as int) =~= ending@);
        assert(ending@.is_suffix_of(was));
        v.truncate(n);
        assert(v@ =~= was.take(n as int));
    }
    proof {
        if ending@.is_suffix_of(v@) {
            let n = v@.len() - ending@.len();
            assert(v@.subrange(n, n + ending@.len()) =~= ending@);
        }
    }
    v
}

/// A repository's name, when the user did not give one.
pub fn derive_name(path_or_url: &str) -> (r: String)
    ensures
        r@ == derived_name(path_or_url@),
{
    proof {
        reveal_strlit("/");
        reveal_strlit(".git");
    }
    let v = strip_endings(strip_endings(chars_of(path_or_url), &chars_of("/")), &chars_of(".git"));
    let mut end: usize = v.len();
    assert(v@.take(v@.len() as int) =~= v@);
    while end > 0 && (v[end - 1] == '/' || v[end - 1] == '\\')
        invariant
            end <= v.len(),
            last_segment(v@) == last_segment(v@.take(end as int)),
        decreases end,
    {
        assert(v@.take(end as int).drop_last() =~= v@.take(end - 1));
        end -= 1;
    }
    if end == 0 {
        assert(v@.take(0) =~= Seq::empty());
        return "repo".to_owned();
    }
    let ghost s = v@.take(end as int);
    assert(last_segment(v@) == tail_segment(s));
    let mut start: usize = end;
    assert(s.take(s.len() as int) =~= s);
    assert(v@.subrange(end as int, end as int) =~= Seq::empty());
    assert(tail_segment(s) =~= tail_segment(v@.take(start as int)) + v@.subrange(start as int, end as int));
    while start > 0 && !(v[start - 1] == '/' || v[start - 1] == '\\')
        invariant
            start <= end <= v.len(),
            tail_segment(s) == tail_segment(v@.take(start as int)) + v@.subrange(start as int, end as int),
        decreases start,
    {
        let ghost t = v@.take(start as int);
        assert(t.drop_last() =~= v@.take(start - 1));
        assert(t.last() == v@[start - 1]);
        assert(v@.subrange(start - 1, end as int) =~= seq![v@[start - 1]] + v@.subrange(
            start as int,
            end as int,
        ));
        assert(tail_segment(t.drop_last()).push(t.last()) + v@.subrange(start as int, end as int)
            =~= tail_segment(v@.take(start - 1)) + v@.subrange(start - 1, end as int));
        start -= 1;
    }
    proof {
        let t = v@.take(start as int);
        if start > 0 {
            assert(t.last() == v@[start - 1]);
        }
        assert(tail_segment(t) =~= Seq::empty());
        assert(tail_segment(s) =~= v@.subrange(start as int, end as int));
        // The last character before `end` parts nothing, so the segment is not empty.
        assert(s.last() == v@[end - 1]);
        assert(tail_segment(s).len() > 0);
    }
    text_of(&v, start, end)
}

/// The branches that are watched unless something else is configured.
pub open spec fn default_branches() -> Seq<Seq<char>> {
    seq!["main"@, "release/*"@]
}

/// The result of writing one object with one member, a list of texts.
pub uninterp spec fn json_list_document(key: Seq<char>, items: Seq<Seq<char>>) -> Seq<char>;

/// `serde_json::Value::to_string` of an object with one member, the array of the items made
/// by `serde_json::Value::from`. It is the same for the same key and items.
#[verifier::external_body]
fn list_document(key: &str, items: Vec<String>) -> (r: String)
    ensures
        r@ == json_list_document(key@, texts(items@)),
{
    let mut object = serde_json::Map::new();
    object.insert(key.to_owned(), serde_json::Value::from(items));
    serde_json::Value::Object(object).to_string()
}

/// The stored settings of a repository on a branch. None at all when the branch is watched
/// anyway; otherwise the branch stands in front of the defaults, in place of none of them.
pub open spec fn branch_settings(branch: Option<Seq<char>>) -> Seq<char> {
    if branch is None || default_branches().contains(branch->0) {
        "{}"@
    } else {
        json_list_document("branches"@, seq![branch->0] + default_branches())
    }
}

/// The stored settings of a repository on a branch.
pub fn branches_config(branch: Option<&str>) -> (r: String)
    ensures
        r@ == branch_settings(opt_str(branch)),
{
    match branch {
        None => "{}".to_owned(),
        Some(branch) => {
            proof {
                assert(default_branches()[0] == "main"@);
                assert(default_branches()[1] == "release/*"@);
            }
            if same(branch, "main") || same(branch, "release/*") {
                return "{}".to_owned();
            }
            let mut branches: Vec<String> = Vec::new();
            branches.push(branch.to_owned());
            branches.push("main".to_owned());
            branches.push("release/*".to_owned());
            assert(texts(branches@) =~= seq![branch@] + default_branches());
            list_document("branches", branches)
        },
    }
}

/// The half-sentence that says whether a mode delivers anything.
pub open spec fn note_on(autonomy: AutonomyMode) -> Seq<char> {
    match autonomy {
        AutonomyMode::Off => " — reviews are off for it"@,
        AutonomyMode::DryRun => " — findings are recorded, nothing is published until you widen it"@,
        AutonomyMode::AutoLowAskHigh => " — low-risk deliveries go out, the rest wait for approval"@,
        AutonomyMode::Auto => " — findings are published without asking"@,
    }
}

/// The half-sentence that says whether a mode delivers anything. That a dry run sends nothing is
/// not obvious from the word, and is what most likely leaves somebody waiting.
pub fn publishing_note(autonomy: AutonomyMode) -> (r: &'static str)
    ensures
        r@ == note_on(autonomy),
{
    match autonomy {
        AutonomyMode::Off => " — reviews are off for it",
        AutonomyMode::DryRun => " — findings are recorded, nothing is published until you widen it",
        AutonomyMode::AutoLowAskHigh => " — low-risk deliveries go out, the rest wait for approval",
        AutonomyMode::Auto => " — findings are published without asking",
    }
}

/// The mode of a name.
pub fn mode_named(given: &str) -> (r: Option<AutonomyMode>)
    ensures
        r == value_of(all_modes(), given@),
{
    find_value(given, &modes())
}

/// The mode of a repository added without one: the stored one, or a dry run where there is none
/// or it is no mode. A corrupt setting must not make it impossible to add a repository.
pub open spec fn mode_by_default(stored: Option<Seq<char>>) -> AutonomyMode {
    match stored {
        Some(value) => match value_of(all_modes(), trimmed(value)) {
            Some(mode) => mode,
            None => AutonomyMode::DryRun,
        },
        None => AutonomyMode::DryRun,
    }
}

/// The mode of a repository added without one.
pub fn default_autonomy(stored: Option<&str>) -> (r: AutonomyMode)
    ensures
        r == mode_by_default(opt_str(stored)),
{
    match stored {
        Some(value) => match find_value(trim(value).as_str(), &modes()) {
            Some(mode) => mode,
            None => AutonomyMode::DryRun,
        },
        None => AutonomyMode::DryRun,
    }
}

/// The mode to store for repositories added from now on. Those already there are not touched.
pub fn set_default_autonomy(autonomy: &str) -> (r: Result<AutonomyMode, RepoCommandError>)
    ensures
        told(r) == parsed("autonomy"@, autonomy@, all_modes()),
{
    parse_enum("autonomy", autonomy, &modes())
}

/// What is reported of the defaults.
#[derive(Clone, Debug, PartialEq, Eq)]
pub struct DefaultsReport {
    /// The mode of a repository added without one.
    pub autonomy: String,
    /// Whether that is stored, or the fallback.
    pub is_set: bool,
    /// A sentence for a person.
    pub detail: String,
}

/// Report the defaults.
pub fn defaults(autonomy: AutonomyMode, is_set: bool) -> (r: DefaultsReport)
    ensures
        r.autonomy@ == autonomy.word(),
        r.is_set == is_set,
        r.detail@ == "repositories added without --autonomy get `"@ + autonomy.word() + if is_set {
            "`"@
        } else {
            "` (the default default)"@
        } + note_on(autonomy),
{
    DefaultsReport {
        autonomy: autonomy.as_str().to_owned(),
        is_set,
        detail: cat4(
            "repositories added without --autonomy get `",
            autonomy.as_str(),
            if is_set {
                "`"
            } else {
                "` (the default default)"
            },
            publishing_note(autonomy),
        ),
    }
}

/// A repository about to be added.
#[derive(Clone, Debug, PartialEq, Eq)]
pub struct AddPlan {
    /// What was asked for.
    pub path_or_url: String,
    /// Its name.
    pub name: String,
    /// What kind it is.
    pub kind: RepoKind,
    /// Which engine reviews it.
    pub engine: EngineKind,
    /// How much may be done for it unattended.
    pub autonomy: AutonomyMode,
}

/// What checking a request to add a repository comes to.
pub open spec fn checked_add(
    path_or_url: Seq<char>,
    kind: Seq<char>,
    name: Option<Seq<char>>,
    engine: Seq<char>,
    autonomy: Option<Seq<char>>,
    default_mode: AutonomyMode,
    engines: Seq<EngineKind>,
    existing: Seq<Seq<char>>,
) -> Result<(Seq<char>, RepoKind, EngineKind, AutonomyMode), Refusal> {
    let called = match name {
        Some(name) => name,
        None => derived_name(path_or_url),
    };
    match parsed("kind"@, kind, all_kinds()) {
        Err(e) => Err(e),
        Ok(kind) => match parsed("engine"@, engine, engines) {
            Err(e) => Err(e),
            Ok(engine) => match (match autonomy {
                Some(given) => parsed("autonomy"@, given, all_modes()),
                None => Ok(default_mode),
            }) {
                Err(e) => Err(e),
                Ok(mode) => if existing.contains(called) {
                    Err(Refusal::NameTaken { name: called })
                } else {
                    Ok((called, kind, engine, mode))
                },
            },
        },
    }
}

/// Check a request to add a repository: its kind, its engine, its mode, and that its name is
/// free.
pub fn add(
    path_or_url: &str,
    kind: &str,
    name: Option<&str>,
    engine: &str,
    autonomy: Option<&str>,
    default_mode: AutonomyMode,
    engines: &Vec<EngineKind>,
    existing: &Vec<String>,
) -> (r: Result<AddPlan, RepoCommandError>)
    ensures
        match r {
            Ok(plan) => plan.path_or_url@ == path_or_url@ && checked_add(
                path_or_url@,
                kind@,
                opt_str(name),
                engine@,
                opt_str(autonomy),
                default_mode,
                engines@,
                texts(existing@),
            ) == Ok::<_, Refusal>((plan.name@, plan.kind, plan.engine, plan.autonomy)),
            Err(e) => checked_add(
                path_or_url@,
                kind@,
                opt_str(name),
                engine@,
                opt_str(autonomy),
                default_mode,
                engines@,
                texts(existing@),
            ) == Err::<(Seq<char>, RepoKind, EngineKind, AutonomyMode), _>(e@),
        },
{
    let kind: RepoKind = match parse_enum("kind", kind, &kinds()) {
        Ok(kind) => kind,
        Err(e) => {
            return Err(e);
        },
    };
    let engine: EngineKind = match parse_enum("engine", engine, engines) {
        Ok(engine) => engine,
        Err(e) => {
            return Err(e);
        },
    };
    let mode: AutonomyMode = match autonomy {
        Some(given) => match parse_enum("autonomy", given, &modes()) {
            Ok(mode) => mode,
            Err(e) => {
                return Err(e);
            },
        },
        None => default_mode,
    };
    let called = match name {
        Some(name) => name.to_owned(),
        None => derive_name(path_or_url),
    };
    if has_text(existing, called.as_str()) {
        return Err(RepoCommandError::NameTaken { name: called });
    }
    Ok(AddPlan { path_or_url: path_or_url.to_owned(), name: called, kind, engine, autonomy: mode })
}

impl AddPlan {
    /// Whether git has to be asked about the checkout: a git repository on disk.
    pub open spec fn asks(self) -> bool {
        self.kind == RepoKind::Git && !is_url(self.path_or_url@)
    }

    /// Whether git has to be asked about the checkout.
    pub fn asks_git(&self) -> (r: bool)
        ensures
            r == self.asks(),
    {
        self.kind == RepoKind::Git && !looks_like_url(self.path_or_url.as_str())
    }

    /// The repository to store, given what git said of its origin and its branch. Added by URL,
    /// the URL is the remote. A checkout on a branch that the defaults do not watch would
    /// otherwise discover nothing and report itself healthy.
    pub fn finish(&self, origin: Option<String>, head: Option<String>) -> (r: Repo)
        ensures
            r.id == 0,
            r.name@ == self.name@,
            r.kind == self.kind,
            opt_text(r.local_path) == if is_url(self.path_or_url@) {
                None
            } else {
                Some(self.path_or_url@)
            },
            opt_text(r.remote_url) == if self.asks() {
                opt_text(origin)
            } else if is_url(self.path_or_url@) {
                Some(self.path_or_url@)
            } else {
                None
            },
            opt_text(r.default_branch) == if self.asks() {
                opt_text(head)
            } else {
                None
            },
            r.engine == self.engine,
            r.autonomy == self.autonomy,
            r.enabled,
            r.config_json@ == if self.asks() {
                branch_settings(opt_text(head))
            } else {
                "{}"@
            },
    {
        let url = looks_like_url(self.path_or_url.as_str());
        let asks = self.asks_git();
        let config_json = if asks {
            branches_config(
                match &head {
                    Some(branch) => Some(branch.as_str()),
                    None => None,
                },
            )
        } else {
            "{}".to_owned()
        };
        Repo {
            id: 0,
            name: self.name.clone(),
            kind: self.kind,
            local_path: if url {
                None
            } else {
                Some(self.path_or_url.clone())
            },
            remote_url: if asks {
                origin
            } else if url {
                Some(self.path_or_url.clone())
            } else {
                None
            },
            default_branch: if asks {
                head
            } else {
                None
            },
            engine: self.engine,
            autonomy: self.autonomy,
            enabled: true,
            config_json,
        }
    }

    /// Report that it was added.
    pub fn added(&self, repo_id: i64) -> (r: RepoWriteReport)
        ensures
            r.action@ == "add"@,
            r.repo_id == repo_id,
            r.name@ == self.name@,
            r.detail@ == "added "@ + self.name@ + " ("@ + self.kind.word() + "), engine "@
                + self.engine.word() + ", autonomy "@ + self.autonomy.word() + note_on(self.autonomy),
    {
        let mut detail = cat7(
            "added ",
            self.name.as_str(),
            " (",
            self.kind.as_str(),
            "), engine ",
            self.engine.as_str(),
            ", autonomy ",
        );
        detail.append(self.autonomy.as_str());
        detail.append(publishing_note(self.autonomy));
        RepoWriteReport { action: "add".to_owned(), repo_id, name: self.name.clone(), detail }
    }
}

// --- removing and changing ---

/// Whether a repository has a name.
pub open spec fn called(name: Seq<char>) -> spec_fn(Repo) -> bool {
    |repo: Repo| repo.name@ == name
}

/// The repository of a name.
pub fn find_repo(repos: &Vec<Repo>, name: &str) -> (r: Result<usize, RepoCommandError>)
    ensures
        match r {
            Ok(i) => first_index(repos@, called(name@)) == Some(i as int) && i < repos@.len(),
            Err(e) => first_index(repos@, called(name@)) is None && e@ == (Refusal::NoSuchRepo {
                name: name@,
            }),
        },
{
    let ghost p = called(name@);
    let mut i: usize = 0;
    while i < repos.len()
        invariant
            i <= repos.len(),
            p == called(name@),
            forall|j: int| 0 <= j < i ==> !p(#[trigger] repos@[j]),
        decreases repos.len() - i,
    {
        if same(repos[i].name.as_str(), name) {
            proof {
                first_index_is(repos@, p, i as int);
            }
            return Ok(i);
        }
        i += 1;
    }
    proof {
        first_index_none(repos@, p);
    }
    Err(RepoCommandError::NoSuchRepo { name: name.to_owned() })
}

/// Report that a repository was removed.
pub fn remove(repo_id: i64, name: &str) -> (r: RepoWriteReport)
    ensures
        r.action@ == "remove"@,
        r.repo_id == repo_id,
        r.name@ == name@,
        r.detail@ == "removed "@ + name@
            + ". Its runs and findings are gone with it; hooks in the working copy are not — `revlocal hooks uninstall` removes those"@,
{
    RepoWriteReport {
        action: "remove".to_owned(),
        repo_id,
        name: name.to_owned(),
        detail: cat3(
            "removed ",
            name,
            ". Its runs and findings are gone with it; hooks in the working copy are not — `revlocal hooks uninstall` removes those",
        ),
    }
}

/// The settings of a repository that can be changed.
#[derive(Clone, Debug, PartialEq, Eq)]
pub struct RepoSettings {
    /// Which engine reviews it.
    pub engine: EngineKind,
    /// How much may be done for it unattended.
    pub autonomy: AutonomyMode,
    /// Whether it is watched at all.
    pub enabled: bool,
    /// The branch it is on.
    pub default_branch: Option<String>,
}

/// The settings, as values.
pub struct Chosen {
    /// Which engine reviews it.
    pub engine: EngineKind,
    /// How much may be done for it unattended.
    pub autonomy: AutonomyMode,
    /// Whether it is watched at all.
    pub enabled: bool,
    /// The branch it is on.
    pub default_branch: Option<Seq<char>>,
}

impl View for RepoSettings {
    type V = Chosen;

    open spec fn view(&self) -> Chosen {
        Chosen {
            engine: self.engine,
            autonomy: self.autonomy,
            enabled: self.enabled,
            default_branch: opt_text(self.default_branch),
        }
    }
}

/// Whether a character is the one that parts a key from its value.
pub open spec fn equals_sign() -> spec_fn(char) -> bool {
    |c: char| c == '='
}

/// A key and its value, parted at the first `=`.
pub open spec fn split_pair(pair: Seq<char>) -> Option<(Seq<char>, Seq<char>)> {
    match first_index(pair, equals_sign()) {
        Some(i) => Some((pair.take(i), pair.skip(i + 1))),
        None => None,
    }
}

fn split_once(pair: &str) -> (r: Option<(String, String)>)
    ensures
        match r {
            Some(p) => split_pair(pair@) == Some((p.0@, p.1@)),
            None => split_pair(pair@) is None,
        },
{
    let v = chars_of(pair);
    let ghost p = equals_sign();
    let mut i: usize = 0;
    while i < v.len()
        invariant
            i <= v.len(),
            p == equals_sign(),
            v@ == pair@,
            forall|j: int| 0 <= j < i ==> !p(#[trigger] v@[j]),
        decreases v.len() - i,
    {
        if v[i] == '=' {
            proof {
                first_index_is(v@, p, i as int);
                assert(v@.subrange(0, i as int) =~= v@.take(i as int));
                assert(v@.subrange(i + 1, v@.len() as int) =~= v@.skip(i + 1));
            }
            return Some((text_of(&v, 0, i), text_of(&v, i + 1, v.len())));
        }
        i += 1;
    }
    proof {
        first_index_none(v@, p);
    }
    None
}

/// An engine that can stand in an example: the first there is.
pub open spec fn example(engines: Seq<EngineKind>) -> Seq<char> {
    if engines.len() > 0 {
        engines[0].word()
    } else {
        "mock"@
    }
}

fn example_engine(engines: &Vec<EngineKind>) -> (r: String)
    ensures
        r@ == example(engines@),
{
    if engines.len() > 0 {
        engines[0].as_str().to_owned()
    } else {
        "mock".to_owned()
    }
}

/// The settings after one change, and how that is told.
pub open spec fn after_pair(
    s: Chosen,
    pair: Seq<char>,
    engines: Seq<EngineKind>,
) -> Result<(Chosen, Seq<char>), Refusal> {
    match split_pair(pair) {
        None => Err(Refusal::NotAPair { given: pair, engine: example(engines) }),
        Some(p) => {
            let (key, value) = p;
            if key == "engine"@ {
                match parsed("engine"@, value, engines) {
                    Ok(engine) => Ok((Chosen { engine, ..s }, "engine="@ + value)),
                    Err(e) => Err(e),
                }
            } else if key == "autonomy"@ {
                match parsed("autonomy"@, value, all_modes()) {
                    Ok(autonomy) => Ok((Chosen { autonomy, ..s }, "autonomy="@ + value)),
                    Err(e) => Err(e),
                }
            } else if key == "enabled"@ {
                let enabled = value == "true"@;
                Ok(
                    (
                        Chosen { enabled, ..s },
                        if enabled {
                            "enabled=true"@
                        } else {
                            "enabled=false"@
                        },
                    ),
                )
            } else if key == "default_branch"@ {
                Ok((Chosen { default_branch: Some(value), ..s }, "default_branch="@ + value))
            } else {
                Err(
                    Refusal::NotAValue {
                        what: "key"@,
                        given: key,
                        valid: "engine, autonomy, enabled, default_branch"@,
                    },
                )
            }
        },
    }
}

/// The settings after changes in turn, and how they are told; the first that is refused refuses
/// all.
pub open spec fn after_pairs(
    s: Chosen,
    pairs: Seq<Seq<char>>,
    engines: Seq<EngineKind>,
) -> Result<(Chosen, Seq<Seq<char>>), Refusal>
    decreases pairs.len(),
{
    if pairs.len() == 0 {
        Ok((s, Seq::empty()))
    } else {
        match after_pairs(s, pairs.drop_last(), engines) {
            Err(e) => Err(e),
            Ok(so_far) => match after_pair(so_far.0, pairs.last(), engines) {
                Err(e) => Err(e),
                Ok(next) => Ok((next.0, so_far.1.push(next.1))),
            },
        }
    }
}

/// A refused change refuses all that follow.
proof fn refused_stays_refused(s: Chosen, pairs: Seq<Seq<char>>, engines: Seq<EngineKind>, n: int)
    requires
        0 <= n <= pairs.len(),
        after_pairs(s, pairs.take(n), engines) is Err,
    ensures
        after_pairs(s, pairs, engines) == after_pairs(s, pairs.take(n), engines),
    decreases pairs.len(),
{
    if n < pairs.len() {
        assert(pairs.drop_last().take(n) =~= pairs.take(n));
        refused_stays_refused(s, pairs.drop_last(), engines, n);
    } else {
        assert(pairs.take(n) =~= pairs);
    }
}

fn apply_pair(s: &mut RepoSettings, pair: &str, engines: &Vec<EngineKind>) -> (r: Result<
    String,
    RepoCommandError,
>)
    ensures
        match r {
            Ok(line) => after_pair(old(s)@, pair@, engines@) == Ok::<_, Refusal>((final(s)@, line@)),
            Err(e) => after_pair(old(s)@, pair@, engines@) == Err::<(Chosen, Seq<char>), _>(e@),
        },
{
    let (key, value) = match split_once(pair) {
        Some(p) => p,
        None => {
            return Err(
                RepoCommandError::NotAPair { given: pair.to_owned(), engine: example_engine(engines) },
            );
        },
    };
    if same(key.as_str(), "engine") {
        return match parse_enum("engine", value.as_str(), engines) {
            Ok(engine) => {
                s.engine = engine;
                Ok(cat2("engine=", value.as_str()))
            },
            Err(e) => Err(e),
        };
    }
    if same(key.as_str(), "autonomy") {
        return match parse_enum("autonomy", value.as_str(), &modes()) {
            Ok(autonomy) => {
                s.autonomy = autonomy;
                Ok(cat2("autonomy=", value.as_str()))
            },
            Err(e) => Err(e),
        };
    }
    if same(key.as_str(), "enabled") {
        s.enabled = same(value.as_str(), "true");
        return Ok(
            if s.enabled {
                "enabled=true".to_owned()
            } else {
                "enabled=false".to_owned()
            },
        );
    }
    if same(key.as_str(), "default_branch") {
        let line = cat2("default_branch=", value.as_str());
        s.default_branch = Some(value);
        return Ok(line);
    }
    Err(
        RepoCommandError::NotAValue {
            what: "key".to_owned(),
            given: key,
            valid: "engine, autonomy, enabled, default_branch".to_owned(),
        },
    )
}

/// Change the settings of a repository, one `key=value` after the other. Where one is refused,
/// nothing is to be stored.
pub fn set(
    repo_id: i64,
    name: &str,
    before: RepoSettings,
    pairs: &Vec<String>,
    engines: &Vec<EngineKind>,
) -> (r: Result<(RepoSettings, RepoWriteReport), RepoCommandError>)
    ensures
        match (r, after_pairs(before@, texts(pairs@), engines@)) {
            (Ok(done), Ok(expected)) => {
                &&& done.0@ == expected.0
                &&& done.1.action@ == "set"@
                &&& done.1.repo_id == repo_id
                &&& done.1.name@ == name@
                &&& done.1.detail@ == name@ + ": "@ + joined(expected.1, ", "@)
            },
            (Err(e), Err(expected)) => e@ == expected,
            _ => false,
        },
{
    let ghost start = before@;
    let ghost all = texts(pairs@);
    let mut s = before;
    let mut changed: Vec<String> = Vec::new();
    let mut i: usize = 0;
    assert(all.take(0) =~= Seq::empty());
    assert(texts(changed@) =~= Seq::empty());
    while i < pairs.len()
        invariant
            i <= pairs.len(),
            all == texts(pairs@),
            start == before@,
            after_pairs(start, all.take(i as int), engines@) == Ok::<_, Refusal>((s@, texts(changed@))),
        decreases pairs.len() - i,
    {
        assert(all.take(i + 1).drop_last() =~= all.take(i as int));
        let ghost was = changed@;
        match apply_pair(&mut s, pairs[i].as_str(), engines) {
            Ok(line) => {
                changed.push(line);
                assert(texts(changed@) =~= texts(was).push(line@));
            },
            Err(e) => {
                proof {
                    refused_stays_refused(start, all, engines@, i + 1);
                }
                return Err(e);
            },
        }
        i += 1;
    }
    assert(all.take(all.len() as int) =~= all);
    let detail = cat3(name, ": ", join(&changed, ", ").as_str());
    Ok((s, RepoWriteReport { action: "set".to_owned(), repo_id, name: name.to_owned(), detail }))
}

/// Queued runs of a repository, and whether they can go ahead.
#[derive(Clone, Copy, Debug, PartialEq, Eq, Structural)]
pub struct QueuedRuns {
    /// How many are queued.
    pub queued: u32,
    /// Whether it is watched at all.
    pub enabled: bool,
    /// Whether its checkout is there.
    pub present: bool,
}

/// A sum that stops at the largest number.
pub open spec fn capped(n: int) -> int {
    if n > u32::MAX {
        u32::MAX as int
    } else {
        n
    }
}

/// How many queued runs can go ahead, or cannot.
pub open spec fn queued_that(repos: Seq<QueuedRuns>, run: bool) -> int
    decreases repos.len(),
{
    if repos.len() == 0 {
        0
    } else {
        let before = queued_that(repos.drop_last(), run);
        if (repos.last().enabled && repos.last().present) == run {
            capped(before + repos.last().queued)
        } else {
            before
        }
    }
}

/// Queued runs split into what can run and what cannot. A run whose repository has no checkout
/// is held on every pass, so one total would never go down.
pub fn queued_split(repos: &Vec<QueuedRuns>) -> (r: (u32, u32))
    ensures
        r.0 == queued_that(repos@, true),
        r.1 == queued_that(repos@, false),
{
    let mut runnable: u32 = 0;
    let mut blocked: u32 = 0;
    let mut i: usize = 0;
    assert(repos@.take(0) =~= Seq::empty());
    while i < repos.len()
        invariant
            i <= repos.len(),
            runnable == queued_that(repos@.take(i as int), true),
            blocked == queued_that(repos@.take(i as int), false),
        decreases repos.len() - i,
    {
        assert(repos@.take(i + 1).drop_last() =~= repos@.take(i as int));
        let repo: QueuedRuns = repos[i];
        if repo.enabled && repo.present {
            runnable = runnable.saturating_add(repo.queued);
        } else {
            blocked = blocked.saturating_add(repo.queued);
        }
        i += 1;
    }
    assert(repos@.take(repos@.len() as int) =~= repos@);
    (runnable, blocked)
}

// --- scanning for checkouts ---

/// What happened to one checkout that was found.
#[derive(Clone, Debug, PartialEq, Eq)]
pub struct ScanEntry {
    /// Where it is.
    pub path: String,
    /// `git` or `svn`.
    pub kind: String,
    /// What it was, or would have been, added as.
    pub name: String,
    /// `added`, `would_add`, or `skipped`.
    pub outcome: String,
    /// Why, when it was skipped.
    pub reason: Option<String>,
}

/// What an entry says.
pub struct Entry {
    /// Where it is.
    pub path: Seq<char>,
    /// What kind it is.
    pub kind: Seq<char>,
    /// What it was, or would have been, added as.
    pub name: Seq<char>,
    /// What became of it.
    pub outcome: Seq<char>,
    /// Why, when it was skipped.
    pub reason: Option<Seq<char>>,
}

impl View for ScanEntry {
    type V = Entry;

    open spec fn view(&self) -> Entry {
        Entry {
            path: self.path@,
            kind: self.kind@,
            name: self.name@,
            outcome: self.outcome@,
            reason: opt_text(self.reason),
        }
    }
}

/// What entries say.
pub open spec fn entries_of(v: Seq<ScanEntry>) -> Seq<Entry> {
    v.map_values(|e: ScanEntry| e@)
}

/// What a whole scan did.
#[derive(Clone, Debug, PartialEq, Eq)]
pub struct ScanReport {
    /// The directory that was walked.
    pub root: String,
    /// How deep below it the walk went.
    pub depth: usize,
    /// Whether nothing was written.
    pub dry_run: bool,
    /// The mode every repository of this scan was given.
    pub autonomy: String,
    /// Every checkout found, in the order found.
    pub entries: Vec<ScanEntry>,
    /// How many were added, or would be.
    pub added: usize,
    /// How many were passed over.
    pub skipped: usize,
    /// Directories that the depth kept the walk from looking inside. A scan that stopped one
    /// level above thirty checkouts and a scan of an empty tree both find nothing; this is what
    /// tells them apart.
    pub not_descended: usize,
    /// Directories that are there and could not be read.
    pub unreadable: usize,
}

/// The parts of a path that can stand in a name, from the last to the first.
pub open spec fn usable_parts(components: Seq<Seq<char>>) -> Seq<Seq<char>>
    decreases components.len(),
{
    if components.len() == 0 {
        Seq::empty()
    } else {
        let before = usable_parts(components.drop_last());
        if components.last().len() > 0 && components.last() != "/"@ {
            before.push(components.last())
        } else {
            before
        }
    }
}

/// A name made of the last parts of a path.
pub open spec fn name_of_parts(parts: Seq<Seq<char>>, n: int) -> Seq<char> {
    joined(parts.take(n).reverse(), "-"@)
}

/// The first free name of at least so many parts, and of no more than three.
pub open spec fn free_from(parts: Seq<Seq<char>>, taken: Seq<Seq<char>>, n: int) -> Option<Seq<char>>
    decreases 4 - n,
{
    if n > 3 || n > parts.len() {
        None
    } else if !taken.contains(name_of_parts(parts, n)) {
        Some(name_of_parts(parts, n))
    } else {
        free_from(parts, taken, n + 1)
    }
}

/// A name for a checkout that nothing else has: of its own directory, with the one above it, and
/// with the one above that. A name made of more is not one that anybody wants to type.
pub open spec fn fresh_name(components: Seq<Seq<char>>, taken: Seq<Seq<char>>) -> Option<Seq<char>> {
    free_from(usable_parts(components), taken, 1)
}

fn make_name(parts: &Vec<String>, n: usize) -> (r: String)
    requires
        n <= parts@.len(),
    ensures
        r@ == name_of_parts(texts(parts@), n as int),
{
    let mut order: Vec<String> = Vec::new();
    let mut i: usize = 0;
    let ghost wanted = texts(parts@).take(n as int).reverse();
    while i < n
        invariant
            i <= n <= parts@.len(),
            wanted == texts(parts@).take(n as int).reverse(),
            order@.len() == i,
            forall|j: int| 0 <= j < i ==> (#[trigger] order@[j])@ == wanted[j],
        decreases n - i,
    {
        order.push(parts[n - 1 - i].clone());
        i += 1;
    }
    assert(texts(order@) =~= wanted);
    join(&order, "-")
}

/// A name for a checkout that nothing else has, given the parts of its path from the last to the
/// first.
pub fn free_name(components: &Vec<String>, taken: &Vec<String>) -> (r: Option<String>)
    ensures
        opt_text(r) == fresh_name(texts(components@), texts(taken@)),
        r matches Some(name) ==> !texts(taken@).contains(name@),
{
    let ghost all = texts(components@);
    let mut parts: Vec<String> = Vec::new();
    let mut i: usize = 0;
    assert(all.take(0) =~= Seq::empty());
    assert(texts(parts@) =~= Seq::empty());
    while i < components.len()
        invariant
            i <= components.len(),
            all == texts(components@),
            texts(parts@) == usable_parts(all.take(i as int)),
        decreases components.len() - i,
    {
        assert(all.take(i + 1).drop_last() =~= all.take(i as int));
        let ghost was = parts@;
        if chars_of(components[i].as_str()).len() > 0 && !same(components[i].as_str(), "/") {
            parts.push(components[i].clone());
            assert(texts(parts@) =~= texts(was).push(all[i as int]));
        }
        i += 1;
    }
    assert(all.take(all.len() as int) =~= all);
    let mut n: usize = 1;
    while n <= 3 && n <= parts.len()
        invariant
            1 <= n <= 4,
            fresh_name(texts(components@), texts(taken@)) == free_from(
                texts(parts@),
                texts(taken@),
                n as int,
            ),
        decreases 4 - n,
    {
        let name = make_name(&parts, n);
        if !has_text(taken, name.as_str()) {
            return Some(name);
        }
        n += 1;
    }
    None
}

/// A scan under way.
#[derive(Debug)]
pub struct Scan {
    /// What it has done so far.
    pub report: ScanReport,
    /// The names that are taken.
    pub taken: Vec<String>,
}

impl Scan {
    /// Every checkout that was found is either added or passed over.
    pub open spec fn wf(self) -> bool {
        self.report.added + self.report.skipped == self.report.entries@.len()
    }

    /// Whether the scan has come from `before` by one more entry.
    pub open spec fn noted(self, before: Scan, entry: Entry, added: bool) -> bool {
        &&& self.wf()
        &&& entries_of(self.report.entries@) == entries_of(before.report.entries@).push(entry)
        &&& self.report == (ScanReport {
            entries: self.report.entries,
            added: (before.report.added + if added {
                1int
            } else {
                0
            }) as usize,
            skipped: (before.report.skipped + if added {
                0int
            } else {
                1
            }) as usize,
            ..before.report
        })
        &&& texts(self.taken@) == if added {
            texts(before.taken@).push(entry.name)
        } else {
            texts(before.taken@)
        }
    }

    /// Begin a scan of what a walk found. What the engine and the mode are called is settled
    /// first: a mistake there should be told before anything is written.
    pub fn begin(
        root: &str,
        depth: usize,
        engine: &str,
        autonomy: Option<&str>,
        default_mode: AutonomyMode,
        engines: &Vec<EngineKind>,
        dry_run: bool,
        existing: Vec<String>,
        not_descended: usize,
        unreadable: usize,
    ) -> (r: Result<(Scan, EngineKind, AutonomyMode), RepoCommandError>)
        ensures
            match (r, parsed("engine"@, engine@, engines@), match autonomy {
                Some(given) => parsed("autonomy"@, given@, all_modes()),
                None => Ok(default_mode),
            }) {
                (Ok(begun), Ok(engine), Ok(mode)) => {
                    &&& begun.1 == engine
                    &&& begun.2 == mode
                    &&& begun.0.wf()
                    &&& begun.0.taken == existing
                    &&& begun.0.report.root@ == root@
                    &&& begun.0.report.depth == depth
                    &&& begun.0.report.dry_run == dry_run
                    &&& begun.0.report.autonomy@ == mode.word()
                    &&& begun.0.report.entries@.len() == 0
                    &&& begun.0.report.added == 0
                    &&& begun.0.report.skipped == 0
                    &&& begun.0.report.not_descended == not_descended
                    &&& begun.0.report.unreadable == unreadable
                },
                (Err(e), Err(refused), _) => e@ == refused,
                (Err(e), Ok(_), Err(refused)) => e@ == refused,
                _ => false,
            },
    {
        let engine: EngineKind = match parse_enum("engine", engine, engines) {
            Ok(engine) => engine,
            Err(e) => {
                return Err(e);
            },
        };
        let mode: AutonomyMode = match autonomy {
            Some(given) => match parse_enum("autonomy", given, &modes()) {
                Ok(mode) => mode,
                Err(e) => {
                    return Err(e);
                },
            },
            None => default_mode,
        };
        let report = ScanReport {
            root: root.to_owned(),
            depth,
            dry_run,
            autonomy: mode.as_str().to_owned(),
            entries: Vec::new(),
            added: 0,
            skipped: 0,
            not_descended,
            unreadable,
        };
        Ok((Scan { report, taken: existing }, engine, mode))
    }

    fn note(&mut self, path: &str, kind: RepoKind, name: &str, outcome: &str, reason: Option<String>, added: bool)
        requires
            old(self).wf(),
        ensures
            final(self).noted(
                *old(self),
                Entry {
                    path: path@,
                    kind: kind.word(),
                    name: name@,
                    outcome: outcome@,
                    reason: opt_text(reason),
                },
                added,
            ),
    {
        let ghost was = *self;
        let entry = ScanEntry {
            path: path.to_owned(),
            kind: kind.as_str().to_owned(),
            name: name.to_owned(),
            outcome: outcome.to_owned(),
            reason,
        };
        self.report.entries.push(entry);
        let n: usize = self.report.entries.len();
        assert(self.report.added + self.report.skipped + 1 == n);
        assert(entries_of(self.report.entries@) =~= entries_of(was.report.entries@).push(entry@));
        if added {
            self.report.added = self.report.added + 1;
            self.taken.push(name.to_owned());
            assert(texts(self.taken@) =~= texts(was.taken@).push(name@));
        } else {
            self.report.skipped = self.report.skipped + 1;
        }
    }

    /// Look at a checkout that was found: whether it is configured already, and which parts its
    /// path has, from the last to the first. Gives the name to add it under, where it is to be
    /// added. A preview reserves the names it shows, so that it shows what a real scan gives.
    pub fn consider(&mut self, path: &str, kind: RepoKind, known: bool, components: &Vec<String>) -> (r: Option<
        String,
    >)
        requires
            old(self).wf(),
        ensures
            ({
                let name = fresh_name(texts(components@), texts(old(self).taken@));
                let skipped = |reason: Seq<char>|
                    Entry {
                        path: path@,
                        kind: kind.word(),
                        name: ""@,
                        outcome: "skipped"@,
                        reason: Some(reason),
                    };
                if known {
                    r is None && final(self).noted(*old(self), skipped("already configured"@), false)
                } else if name is None {
                    r is None && final(self).noted(
                        *old(self),
                        skipped("every name derived from this path is already taken — add it with --name"@),
                        false,
                    )
                } else if old(self).report.dry_run {
                    r is None && final(self).noted(
                        *old(self),
                        Entry {
                            path: path@,
                            kind: kind.word(),
                            name: name->0,
                            outcome: "would_add"@,
                            reason: None,
                        },
                        true,
                    )
                } else {
                    opt_text(r) == name && *final(self) == *old(self)
                }
            }),
    {
        if known {
            self.note(path, kind, "", "skipped", Some("already configured".to_owned()), false);
            return None;
        }
        match free_name(components, &self.taken) {
            None => {
                self.note(
                    path,
                    kind,
                    "",
                    "skipped",
                    Some(
                        "every name derived from this path is already taken — add it with --name".to_owned(),
                    ),
                    false,
                );
                None
            },
            Some(name) => {
                if self.report.dry_run {
                    self.note(path, kind, name.as_str(), "would_add", None, true);
                    None
                } else {
                    Some(name)
                }
            },
        }
    }

    /// Take note of whether a checkout could be added. One that cannot must not cost the others:
    /// it is passed over, with the reason.
    pub fn settled(&mut self, path: &str, kind: RepoKind, name: &str, result: Result<(), String>)
        requires
            old(self).wf(),
        ensures
            final(self).noted(
                *old(self),
                Entry {
                    path: path@,
                    kind: kind.word(),
                    name: name@,
                    outcome: if result is Ok {
                        "added"@
                    } else {
                        "skipped"@
                    },
                    reason: match result {
                        Ok(_) => None,
                        Err(error) => Some(error@),
                    },
                },
                result is Ok,
            ),
    {
        match result {
            Ok(_) => self.note(path, kind, name, "added", None, true),
            Err(error) => self.note(path, kind, name, "skipped", Some(error), false),
        }
    }
}

/// What a scan did not look at, in words; nothing where it looked everywhere.
pub open spec fn not_looked_at(report: ScanReport) -> Seq<char> {
    let deep = decimal(report.not_descended as nat) + " director(ies) were not looked inside at depth "@
        + decimal(report.depth as nat) + " — try --depth"@;
    let shut = decimal(report.unreadable as nat) + " could not be read at all"@;
    if report.not_descended > 0 && report.unreadable > 0 {
        "\n  "@ + deep + "; "@ + shut
    } else if report.not_descended > 0 {
        "\n  "@ + deep
    } else if report.unreadable > 0 {
        "\n  "@ + shut
    } else {
        Seq::empty()
    }
}

fn unexplored(report: &ScanReport) -> (r: String)
    ensures
        r@ == not_looked_at(*report),
{
    let deep = cat4(
        count(report.not_descended).as_str(),
        " director(ies) were not looked inside at depth ",
        count(report.depth).as_str(),
        " — try --depth",
    );
    let shut = cat2(count(report.unreadable).as_str(), " could not be read at all");
    if report.not_descended > 0 && report.unreadable > 0 {
        cat4("\n  ", deep.as_str(), "; ", shut.as_str())
    } else if report.not_descended > 0 {
        cat2("\n  ", deep.as_str())
    } else if report.unreadable > 0 {
        cat2("\n  ", shut.as_str())
    } else {
        String::new()
    }
}

/// The line of an entry.
pub open spec fn entry_line(e: Entry) -> Seq<char> {
    (if e.outcome == "added"@ {
        "added   "@
    } else if e.outcome == "would_add"@ {
        "would add"@
    } else {
        "skipped "@
    }) + " "@ + e.path + if e.name.len() > 0 {
        " as "@ + e.name
    } else {
        Seq::empty()
    } + match e.reason {
        Some(reason) => " — "@ + reason,
        None => Seq::empty(),
    } + "\n"@
}

/// The lines of entries, one after the other.
pub open spec fn entry_lines(entries: Seq<Entry>) -> Seq<char>
    decreases entries.len(),
{
    if entries.len() == 0 {
        Seq::empty()
    } else {
        entry_lines(entries.drop_last()) + entry_line(entries.last())
    }
}

/// A scan in words.
pub open spec fn scan_in_words(report: ScanReport) -> Seq<char> {
    if report.entries@.len() == 0 {
        "no git or Subversion checkouts under "@ + report.root@ + " (depth "@ + decimal(
            report.depth as nat,
        ) + ")"@ + not_looked_at(report) + "\n  try: --depth, or check the path\n"@
    } else {
        entry_lines(entries_of(report.entries@)) + ("\n"@ + decimal(report.added as nat) + if report.dry_run {
            " to add, "@
        } else {
            " added, "@
        } + decimal(report.skipped as nat) + " skipped, autonomy "@ + report.autonomy@) + if report.dry_run {
            " — nothing was written; run it again without --dry-run"@
        } else {
            Seq::empty()
        } + not_looked_at(report) + "\n"@
    }
}

fn write_entry(e: &ScanEntry) -> (r: String)
    ensures
        r@ == entry_line(e@),
{
    let verb = if same(e.outcome.as_str(), "added") {
        "added   "
    } else if same(e.outcome.as_str(), "would_add") {
        "would add"
    } else {
        "skipped "
    };
    let mut out = cat3(verb, " ", e.path.as_str());
    if chars_of(e.name.as_str()).len() > 0 {
        let part = cat2(" as ", e.name.as_str());
        out.append(part.as_str());
    }
    if let Some(reason) = &e.reason {
        let part = cat2(" — ", reason.as_str());
        out.append(part.as_str());
    }
    out.append("\n");
    assert(out@ =~= entry_line(e@));
    out
}

/// A scan in words.
pub fn render_scan(report: &ScanReport) -> (r: String)
    ensures
        r@ == scan_in_words(*report),
{
    if report.entries.is_empty() {
        return cat7(
            "no git or Subversion checkouts under ",
            report.root.as_str(),
            " (depth ",
            count(report.depth).as_str(),
            ")",
            unexplored(report).as_str(),
            "\n  try: --depth, or check the path\n",
        );
    }
    let mut out = String::new();
    let ghost all = entries_of(report.entries@);
    let mut i: usize = 0;
    assert(all.take(0) =~= Seq::empty());
    while i < report.entries.len()
        invariant
            i <= report.entries.len(),
            all == entries_of(report.entries@),
            out@ == entry_lines(all.take(i as int)),
        decreases report.entries.len() - i,
    {
        assert(all.take(i + 1).drop_last() =~= all.take(i as int));
        out.append(write_entry(&report.entries[i]).as_str());
        i += 1;
    }
    assert(all.take(all.len() as int) =~= all);
    let totals = cat6(
        "\n",
        count(report.added).as_str(),
        if report.dry_run {
            " to add, "
        } else {
            " added, "
        },
        count(report.skipped).as_str(),
        " skipped, autonomy ",
        report.autonomy.as_str(),
    );
    out.append(totals.as_str());
    if report.dry_run {
        out.append(" — nothing was written; run it again without --dry-run");
    }
    out.append(unexplored(report).as_str());
    out.append("\n");
    assert(out@ =~= scan_in_words(*report));
    out
}

// --- what holds of the commands ---

/// A name that a scan gives is free.
pub proof fn a_fresh_name_is_free(components: Seq<Seq<char>>, taken: Seq<Seq<char>>)
    ensures
        fresh_name(components, taken) matches Some(name) ==> !taken.contains(name),
{
    free_from_is_free(usable_parts(components), taken, 1);
}

proof fn free_from_is_free(parts: Seq<Seq<char>>, taken: Seq<Seq<char>>, n: int)
    ensures
        free_from(parts, taken, n) matches Some(name) ==> !taken.contains(name),
    decreases 4 - n,
{
    if !(n > 3 || n > parts.len()) && taken.contains(name_of_parts(parts, n)) {
        free_from_is_free(parts, taken, n + 1);
    }
}

/// Whether a preview and a scan have come to the same: the same names taken, and the same
/// checkouts under the same names.
pub open spec fn agree(preview: Scan, done: Scan) -> bool {
    let shown = entries_of(preview.report.entries@);
    let made = entries_of(done.report.entries@);
    &&& texts(preview.taken@) == texts(done.taken@)
    &&& preview.report.added == done.report.added
    &&& preview.report.skipped == done.report.skipped
    &&& shown.len() == made.len()
    &&& forall|i: int|
        0 <= i < shown.len() ==> (#[trigger] shown[i]).path == made[i].path && shown[i].name == made[i].name
}

/// A preview shows what a real scan does: where a checkout can be added, one more of them leaves
/// the two in agreement, and so does one that both pass over.
pub proof fn a_preview_names_what_a_scan_adds(
    preview: Scan,
    done: Scan,
    preview_after: Scan,
    done_after: Scan,
    entry: Entry,
    added: bool,
)
    requires
        agree(preview, done),
        preview_after.noted(
            preview,
            Entry {
                outcome: if added {
                    "would_add"@
                } else {
                    "skipped"@
                },
                ..entry
            },
            added,
        ),
        done_after.noted(
            done,
            Entry {
                outcome: if added {
                    "added"@
                } else {
                    "skipped"@
                },
                ..entry
            },
            added,
        ),
    ensures
        agree(preview_after, done_after),
{
    let shown = entries_of(preview.report.entries@);
    let made = entries_of(done.report.entries@);
    let shown_after = entries_of(preview_after.report.entries@);
    let made_after = entries_of(done_after.report.entries@);
    assert forall|i: int| 0 <= i < shown_after.len() implies (#[trigger] shown_after[i]).path
        == made_after[i].path && shown_after[i].name == made_after[i].name by {
        if i < shown.len() {
            assert(shown_after[i] == shown[i]);
            assert(made_after[i] == made[i]);
        }
    }
}

/// A value that is written by its name is read back; an engine, where it is one of those there are.
pub proof fn what_is_written_is_read(
    what: Seq<char>,
    kind: RepoKind,
    mode: AutonomyMode,
    engines: Seq<EngineKind>,
    i: int,
)
    requires
        0 <= i < engines.len(),
    ensures
        parsed(what, kind.word(), all_kinds()) == Ok::<_, Refusal>(kind),
        parsed(what, mode.word(), all_modes()) == Ok::<_, Refusal>(mode),
        mode_by_default(Some(mode.word())) == mode,
        parsed(what, engines[i].word(), engines) is Ok,
        parsed(what, engines[i].word(), engines)->Ok_0.word() == engines[i].word(),
{
    reveal_strlit("git");
    reveal_strlit("github");
    reveal_strlit("svn");
    reveal_strlit("off");
    reveal_strlit("dry_run");
    reveal_strlit("auto_low_ask_high");
    reveal_strlit("auto");
    assert("github"@.len() != "git"@.len());
    assert("git"@[0] == 'g' && "svn"@[0] == 's');
    assert("off"@.len() == 3 && "dry_run"@.len() == 7 && "auto_low_ask_high"@.len() == 17 && "auto"@.len()
        == 4);
    let k = written_as::<RepoKind>(kind.word());
    let ki = match kind {
        RepoKind::Git => 0int,
        RepoKind::GitHub => 1,
        RepoKind::Svn => 2,
    };
    first_index_is(all_kinds(), k, ki);
    let m = written_as::<AutonomyMode>(mode.word());
    let mi = match mode {
        AutonomyMode::Off => 0int,
        AutonomyMode::DryRun => 1,
        AutonomyMode::AutoLowAskHigh => 2,
        AutonomyMode::Auto => 3,
    };
    first_index_is(all_modes(), m, mi);
    assert(trimmed(mode.word()) == mode.word());
    let e = written_as::<EngineKind>(engines[i].word());
    first_index_means(engines, e);
    assert(e(engines[i]));
}

/// Every queued run is counted once, on one side or the other, as long as the numbers are small
/// enough to hold them.
pub proof fn the_split_counts_every_run(repos: Seq<QueuedRuns>)
    requires
        all_queued(repos) <= u32::MAX,
    ensures
        queued_that(repos, true) >= 0,
        queued_that(repos, false) >= 0,
        queued_that(repos, true) + queued_that(repos, false) == all_queued(repos),
    decreases repos.len(),
{
    if repos.len() > 0 {
        the_split_counts_every_run(repos.drop_last());
    }
}

/// All queued runs.
pub open spec fn all_queued(repos: Seq<QueuedRuns>) -> int
    decreases repos.len(),
{
    if repos.len() == 0 {
        0
    } else {
        all_queued(repos.drop_last()) + repos.last().queued
    }
}

/// A value is read by how it is written: where one of those there are is written so, it is that, and
/// otherwise none, which is told with every one there is.
pub proof fn a_value_is_read_by_its_spelling<T: AsStr>(what: Seq<char>, given: Seq<char>, all: Seq<T>, i: int)
    requires
        0 <= i < all.len(),
    ensures
        all[i].spelled() == given ==> parsed(what, given, all) is Ok,
        parsed(what, given, all) matches Ok(v) ==> v.spelled() == given && all.contains(v),
        parsed(what, given, all) matches Err(e) ==> (e matches Refusal::NotAValue { what: w, given: g, valid } && w
            == what && g == given && within(valid, all[i].spelled())),
{
    let p = written_as::<T>(given);
    first_index_means(all, p);
    if all[i].spelled() == given {
        assert(p(all[i]));
    }
    a_part_is_joined(spellings(all), ", "@, i);
    assert(spellings(all)[i] == all[i].spelled());
}

/// Every kind and every mode there is can be asked for.
pub proof fn every_kind_and_mode_can_be_asked_for(kind: RepoKind, mode: AutonomyMode)
    ensures
        all_kinds().contains(kind),
        all_modes().contains(mode),
{
    assert(all_kinds()[0] == RepoKind::Git && all_kinds()[1] == RepoKind::GitHub && all_kinds()[2] == RepoKind::Svn);
    assert(all_modes()[0] == AutonomyMode::Off && all_modes()[1] == AutonomyMode::DryRun && all_modes()[2]
        == AutonomyMode::AutoLowAskHigh && all_modes()[3] == AutonomyMode::Auto);
}

/// What is added is what was asked for, under a name that was free: the one that was given, or else
/// the one that the place has.
pub proof fn what_is_added_was_asked_for(
    path_or_url: Seq<char>,
    kind: Seq<char>,
    name: Option<Seq<char>>,
    engine: Seq<char>,
    autonomy: Option<Seq<char>>,
    default_mode: AutonomyMode,
    engines: Seq<EngineKind>,
    existing: Seq<Seq<char>>,
)
    requires
        engines.len() > 0,
    ensures
        checked_add(path_or_url, kind, name, engine, autonomy, default_mode, engines, existing) matches Ok(plan) ==> {
            &&& !existing.contains(plan.0)
            &&& name matches Some(given) ==> plan.0 == given
            &&& name is None ==> plan.0 == derived_name(path_or_url)
            &&& plan.1.word() == kind
            &&& plan.2.word() == engine
            &&& engines.contains(plan.2)
            &&& autonomy matches Some(given) ==> plan.3.word() == given
            &&& autonomy is None ==> plan.3 == default_mode
        },
        checked_add(path_or_url, kind, name, engine, autonomy, default_mode, engines, existing) matches Err(e) ==> {
            &&& e matches Refusal::NameTaken { name: taken } ==> existing.contains(taken)
            &&& e matches Refusal::NotAValue { what, given, .. } ==> (what == "kind"@ && given == kind) || (what
                == "engine"@ && given == engine) || (what == "autonomy"@ && autonomy == Some(given))
            &&& e is NameTaken || e is NotAValue
        },
{
    a_value_is_read_by_its_spelling("kind"@, kind, all_kinds(), 0);
    a_value_is_read_by_its_spelling("engine"@, engine, engines, 0);
    if let Some(given) = autonomy {
        a_value_is_read_by_its_spelling("autonomy"@, given, all_modes(), 0);
    }
}

/// A repository is called what its place ends in, whether it is written with a mark behind it, with
/// the ending that a bare repository has, or without.
pub proof fn a_place_names_its_repository(dir: Seq<char>, name: Seq<char>)
    requires
        name.len() > 0,
        forall|i: int| 0 <= i < name.len() ==> #[trigger] name[i] != '/' && name[i] != '\\',
        !".git"@.is_suffix_of(name),
    ensures
        derived_name(name) == name,
        derived_name(dir + "/"@ + name) == name,
        derived_name(dir + "\\"@ + name) == name,
        derived_name(dir + "/"@ + name + "/"@) == name,
        derived_name(dir + "/"@ + name + ".git"@) == name,
{
    reveal_strlit("/");
    reveal_strlit("\\");
    reveal_strlit(".git");
    assert(Seq::<char>::empty() + name =~= name);
    named_by_its_end(Seq::empty(), name);
    named_by_its_end(dir + "/"@, name);
    named_by_its_end(dir + "\\"@, name);
    let plain = dir + "/"@ + name;
    let marked = plain + "/"@;
    assert("/"@ =~= marked.subrange(marked.len() - 1, marked.len() as int));
    assert(marked.take(marked.len() - 1) =~= plain);
    assert(without_endings(marked, "/"@) == without_endings(plain, "/"@));
    let bare = plain + ".git"@;
    assert(bare.last() == ".git"@[3]);
    if "/"@.is_suffix_of(bare) {
        assert(bare.subrange(bare.len() - 1, bare.len() as int)[0] == bare.last());
    }
    assert(without_endings(bare, "/"@) == bare);
    assert(".git"@ =~= bare.subrange(bare.len() - 4, bare.len() as int));
    assert(bare.take(bare.len() - 4) =~= plain);
    assert(without_endings(bare, ".git"@) == without_endings(plain, ".git"@));
}

proof fn named_by_its_end(before: Seq<char>, name: Seq<char>)
    requires
        name.len() > 0,
        forall|i: int| 0 <= i < name.len() ==> #[trigger] name[i] != '/' && name[i] != '\\',
        !".git"@.is_suffix_of(name),
        before.len() == 0 || parts_directories(before.last()),
    ensures
        without_endings(before + name, "/"@) == before + name,
        without_endings(before + name, ".git"@) == before + name,
        derived_name(before + name) == name,
{
    reveal_strlit("/");
    reveal_strlit(".git");
    let all = before + name;
    assert(all.last() == name[name.len() - 1]);
    if "/"@.is_suffix_of(all) {
        assert(all.subrange(all.len() - 1, all.len() as int)[0] == all.last());
    }
    if ".git"@.is_suffix_of(all) {
        let end = all.subrange(all.len() - 4, all.len() as int);
        assert(end == ".git"@);
        if name.len() >= 4 {
            assert(name.subrange(name.len() - 4, name.len() as int) =~= end);
        } else {
            assert(end[3 - name.len()] == before.last());
        }
    }
    tail_is_the_name(before, name);
    assert(last_segment(all) == tail_segment(all));
}

proof fn tail_is_the_name(before: Seq<char>, name: Seq<char>)
    requires
        forall|i: int| 0 <= i < name.len() ==> #[trigger] name[i] != '/' && name[i] != '\\',
        before.len() == 0 || parts_directories(before.last()),
    ensures
        tail_segment(before + name) == name,
    decreases name.len(),
{
    let all = before + name;
    if name.len() == 0 {
        assert(all =~= before);
        assert(tail_segment(all) =~= name);
    } else {
        assert(all.drop_last() =~= before + name.drop_last());
        assert(all.last() == name.last());
        tail_is_the_name(before, name.drop_last());
        assert(tail_segment(all) =~= name);
    }
}

/// What is reached over a network is told by its scheme, or by the user it is reached as.
pub proof fn what_is_reached_by_a_url(before: Seq<char>, after: Seq<char>, path: Seq<char>)
    ensures
        is_url(before + "://"@ + after),
        is_url("git@"@ + after),
        (forall|i: int| 0 <= i < path.len() ==> #[trigger] path[i] != ':' && path[i] != '@') ==> !is_url(path),
{
    reveal_strlit("://");
    reveal_strlit("git@");
    stands_inside(before, "://"@, after);
    let at = "git@"@ + after;
    assert("git@"@ =~= at.subrange(0, 4));
    if forall|i: int| 0 <= i < path.len() ==> #[trigger] path[i] != ':' && path[i] != '@' {
        if within(path, "://"@) {
            let k = choose|k: int| stands_at(path, "://"@, k);
            assert(path.subrange(k, k + 3)[0] == path[k]);
        }
        if "git@"@.is_prefix_of(path) {
            assert(path.subrange(0, 4)[3] == path[3]);
        }
    }
}

/// Which branches a checkout is watched on: what is watched anyway, and the one it is on before that,
/// where it is on another.
pub proof fn the_branch_it_is_on_is_watched(branch: Seq<char>)
    ensures
        branch_settings(None) == "{}"@,
        branch == "main"@ || branch == "release/*"@ ==> branch_settings(Some(branch)) == "{}"@,
        branch != "main"@ && branch != "release/*"@ ==> branch_settings(Some(branch)) == json_list_document(
            "branches"@,
            seq![branch, "main"@, "release/*"@],
        ),
{
    assert(default_branches()[0] == "main"@ && default_branches()[1] == "release/*"@);
    assert(seq![branch] + default_branches() =~= seq![branch, "main"@, "release/*"@]);
}

/// The mode by default is the one that is stored, where it is one; and otherwise nothing is published.
pub proof fn nothing_is_published_by_default(stored: Seq<char>, mode: AutonomyMode)
    ensures
        mode_by_default(None) == AutonomyMode::DryRun,
        trimmed(stored) == mode.word() ==> mode_by_default(Some(stored)) == mode,
        (forall|m: AutonomyMode| (#[trigger] m.word()) != trimmed(stored)) ==> mode_by_default(Some(stored))
            == AutonomyMode::DryRun,
{
    let given = trimmed(stored);
    what_is_written_is_read(""@, RepoKind::Git, mode, seq![EngineKind { name: "mock" }], 0);
    first_index_means(all_modes(), written_as::<AutonomyMode>(given));
    if value_of(all_modes(), given) is Some {
        assert(value_of(all_modes(), given)->0.word() == given);
    }
}

/// A pair is parted at its first sign: what stands before it is the key, and all of the rest is the
/// value. Without one it is none.
pub proof fn a_pair_is_parted_at_its_first_sign(key: Seq<char>, value: Seq<char>)
    requires
        forall|i: int| 0 <= i < key.len() ==> #[trigger] key[i] != '=',
    ensures
        split_pair(key + "="@ + value) == Some((key, value)),
        split_pair(key) is None,
{
    reveal_strlit("=");
    let pair = key + "="@ + value;
    let n = key.len() as int;
    assert forall|j: int| 0 <= j < n implies !equals_sign()(#[trigger] pair[j]) by {
        assert(pair[j] == key[j]);
    }
    assert(equals_sign()(pair[n]));
    first_index_is(pair, equals_sign(), n);
    assert(pair.take(n) =~= key);
    assert(pair.skip(n + 1) =~= value);
    first_index_none(key, equals_sign());
}

/// A pair changes what it names to what it says, and nothing else; one that names nothing there is
/// changes nothing.
pub proof fn a_pair_changes_what_it_names(s: Chosen, key: Seq<char>, value: Seq<char>, engines: Seq<EngineKind>)
    requires
        forall|i: int| 0 <= i < key.len() ==> #[trigger] key[i] != '=',
        engines.len() > 0,
    ensures
        after_pair(s, key + "="@ + value, engines) matches Ok(done) ==> {
            &&& key == "engine"@ || key == "autonomy"@ || key == "enabled"@ || key == "default_branch"@
            &&& if key == "engine"@ {
                done.0.engine.word() == value && engines.contains(done.0.engine)
            } else {
                done.0.engine == s.engine
            }
            &&& if key == "autonomy"@ {
                done.0.autonomy.word() == value
            } else {
                done.0.autonomy == s.autonomy
            }
            &&& done.0.enabled == if key == "enabled"@ {
                value == "true"@
            } else {
                s.enabled
            }
            &&& done.0.default_branch == if key == "default_branch"@ {
                Some(value)
            } else {
                s.default_branch
            }
            &&& key != "enabled"@ ==> done.1 == key + "="@ + value
            &&& key == "enabled"@ ==> done.1 == key + "="@ + if value == "true"@ {
                "true"@
            } else {
                "false"@
            }
        },
        key == "enabled"@ || key == "default_branch"@ ==> after_pair(s, key + "="@ + value, engines) is Ok,
        after_pair(s, key, engines) == Err::<(Chosen, Seq<char>), _>(
            Refusal::NotAPair { given: key, engine: engines[0].word() },
        ),
{
    a_pair_is_parted_at_its_first_sign(key, value);
    reveal_strlit("engine");
    reveal_strlit("autonomy");
    reveal_strlit("enabled");
    reveal_strlit("default_branch");
    reveal_strlit("engine=");
    reveal_strlit("autonomy=");
    reveal_strlit("default_branch=");
    reveal_strlit("enabled=true");
    reveal_strlit("enabled=false");
    reveal_strlit("true");
    reveal_strlit("false");
    reveal_strlit("=");
    assert("engine"@ + "="@ =~= "engine="@);
    assert("autonomy"@ + "="@ =~= "autonomy="@);
    assert("default_branch"@ + "="@ =~= "default_branch="@);
    assert("enabled"@ + "="@ + "true"@ =~= "enabled=true"@);
    assert("enabled"@ + "="@ + "false"@ =~= "enabled=false"@);
    a_value_is_read_by_its_spelling("engine"@, value, engines, 0);
    a_value_is_read_by_its_spelling("autonomy"@, value, all_modes(), 0);
    assert("engine"@.len() == 6 && "autonomy"@.len() == 8 && "enabled"@.len() == 7 && "default_branch"@.len() == 14);
}

/// Pairs are taken one after another: each goes on from what those before it came to, and nothing
/// comes of any where one is refused.
pub proof fn pairs_are_taken_in_turn(s: Chosen, pairs: Seq<Seq<char>>, more: Seq<char>, engines: Seq<EngineKind>)
    ensures
        after_pairs(s, Seq::empty(), engines) == Ok::<_, Refusal>((s, Seq::<Seq<char>>::empty())),
        after_pairs(s, pairs, engines) matches Err(e) ==> after_pairs(s, pairs.push(more), engines) == Err::<
            (Chosen, Seq<Seq<char>>),
            _,
        >(e),
        after_pairs(s, pairs, engines) matches Ok(so_far) ==> {
            let last = after_pair(so_far.0, more, engines);
            &&& last matches Err(e) ==> after_pairs(s, pairs.push(more), engines) == Err::<
                (Chosen, Seq<Seq<char>>),
                _,
            >(e)
            &&& last matches Ok(done) ==> after_pairs(s, pairs.push(more), engines) == Ok::<_, Refusal>(
                (done.0, so_far.1.push(done.1)),
            )
        },
{
    assert(pairs.push(more).drop_last() =~= pairs);
}

/// What can run are the queued runs of what is enabled and there; all others are held.
pub proof fn what_is_there_can_run(repos: Seq<QueuedRuns>, one: QueuedRuns)
    ensures
        queued_that(Seq::empty(), true) == 0 && queued_that(Seq::empty(), false) == 0,
        one.enabled && one.present ==> queued_that(repos.push(one), false) == queued_that(repos, false),
        !one.enabled || !one.present ==> queued_that(repos.push(one), true) == queued_that(repos, true),
        one.enabled && one.present && queued_that(repos, true) + one.queued <= u32::MAX ==> queued_that(
            repos.push(one),
            true,
        ) == queued_that(repos, true) + one.queued,
        (!one.enabled || !one.present) && queued_that(repos, false) + one.queued <= u32::MAX ==> queued_that(
            repos.push(one),
            false,
        ) == queued_that(repos, false) + one.queued,
{
    assert(repos.push(one).drop_last() =~= repos);
}

/// Only what was asked for is shown, and all of it where nothing was named.
pub proof fn what_was_asked_for_is_shown(views: Seq<RepoView>, name: Option<Seq<char>>, v: RepoView)
    ensures
        asked_for(views, name).contains(v) == (views.contains(v) && (name is None || v.repo@ == name->0)),
        name is None ==> asked_for(views, name) == views,
    decreases views.len(),
{
    if views.len() > 0 {
        let before = views.drop_last();
        what_was_asked_for_is_shown(before, name, v);
        push_contains(before, views.last(), v);
        push_contains(asked_for(before, name), views.last(), v);
        assert(before.push(views.last()) =~= views);
    } else {
        assert(asked_for(views, name) =~= views);
    }
}

/// The name that a scan gives is the last part of the path; where that is taken the part before it is
/// put before it, once and once more; and where they are all taken there is none.
pub proof fn a_taken_name_is_told_apart_by_its_directory(parts: Seq<Seq<char>>, taken: Seq<Seq<char>>)
    requires
        forall|i: int| 0 <= i < parts.len() ==> (#[trigger] parts[i]).len() > 0 && parts[i] != "/"@,
    ensures
        parts.len() == 0 ==> fresh_name(parts, taken) is None,
        parts.len() >= 1 && !taken.contains(parts[0]) ==> fresh_name(parts, taken) == Some(parts[0]),
        parts.len() == 1 && taken.contains(parts[0]) ==> fresh_name(parts, taken) is None,
        parts.len() >= 2 && taken.contains(parts[0]) && !taken.contains(parts[1] + "-"@ + parts[0]) ==> fresh_name(
            parts,
            taken,
        ) == Some(parts[1] + "-"@ + parts[0]),
        parts.len() == 2 && taken.contains(parts[0]) && taken.contains(parts[1] + "-"@ + parts[0]) ==> fresh_name(
            parts,
            taken,
        ) is None,
        parts.len() >= 3 && taken.contains(parts[0]) && taken.contains(parts[1] + "-"@ + parts[0]) ==> ({
            let three = parts[2] + "-"@ + parts[1] + "-"@ + parts[0];
            fresh_name(parts, taken) == if taken.contains(three) {
                None
            } else {
                Some(three)
            }
        }),
{
    usable_are_kept(parts);
    if parts.len() >= 1 {
        assert(parts.take(1).reverse() =~= seq![parts[0]]);
        assert(name_of_parts(parts, 1) == parts[0]);
    }
    if parts.len() >= 2 {
        let two = seq![parts[1], parts[0]];
        assert(parts.take(2).reverse() =~= two);
        assert(two.drop_last() =~= seq![parts[1]]);
        assert(joined(seq![parts[1]], "-"@) == parts[1]);
        assert(name_of_parts(parts, 2) == parts[1] + "-"@ + parts[0]);
    }
    if parts.len() >= 3 {
        let two = seq![parts[2], parts[1]];
        let three = seq![parts[2], parts[1], parts[0]];
        assert(parts.take(3).reverse() =~= three);
        assert(three.drop_last() =~= two);
        assert(two.drop_last() =~= seq![parts[2]]);
        assert(joined(seq![parts[2]], "-"@) == parts[2]);
        assert(joined(two, "-"@) == parts[2] + "-"@ + parts[1]);
        assert(name_of_parts(parts, 3) == parts[2] + "-"@ + parts[1] + "-"@ + parts[0]);
    }
    assert(free_from(parts, taken, 4) is None);
    assert(parts.len() < 3 ==> free_from(parts, taken, 3) is None);
    assert(parts.len() < 2 ==> free_from(parts, taken, 2) is None);
    if parts.len() >= 3 {
        assert(free_from(parts, taken, 3) == if taken.contains(name_of_parts(parts, 3)) {
            None
        } else {
            Some(name_of_parts(parts, 3))
        });
    }
    if parts.len() >= 2 {
        assert(free_from(parts, taken, 2) == if taken.contains(name_of_parts(parts, 2)) {
            free_from(parts, taken, 3)
        } else {
            Some(name_of_parts(parts, 2))
        });
    }
}

proof fn usable_are_kept(parts: Seq<Seq<char>>)
    requires
        forall|i: int| 0 <= i < parts.len() ==> (#[trigger] parts[i]).len() > 0 && parts[i] != "/"@,
    ensures
        usable_parts(parts) == parts,
    decreases parts.len(),
{
    if parts.len() > 0 {
        let before = parts.drop_last();
        assert forall|i: int| 0 <= i < before.len() implies (#[trigger] before[i]).len() > 0 && before[i] != "/"@ by {
            assert(before[i] == parts[i]);
        }
        usable_are_kept(before);
        assert(parts.last() == parts[parts.len() - 1]);
        assert(before.push(parts.last()) =~= parts);
    } else {
        assert(usable_parts(parts) =~= parts);
    }
}

/// A part of a path that names nothing is left out.
pub proof fn a_part_that_names_nothing_is_left_out(components: Seq<Seq<char>>, part: Seq<char>)
    ensures
        usable_parts(components.push(part)) == if part.len() > 0 && part != "/"@ {
            usable_parts(components).push(part)
        } else {
            usable_parts(components)
        },
{
    assert(components.push(part).drop_last() =~= components);
}

/// A line on a checkout tells what became of it, where it is, what it is called and why it was passed
/// over.
pub proof fn a_line_tells_its_checkout(e: Entry)
    ensures
        within(entry_line(e), e.path),
        e.name.len() > 0 ==> within(entry_line(e), " as "@ + e.name),
        e.reason matches Some(reason) ==> within(entry_line(e), " — "@ + reason),
        e.outcome == "added"@ ==> within(entry_line(e), "added   "@),
        e.outcome == "would_add"@ ==> within(entry_line(e), "would add"@),
        e.outcome != "added"@ && e.outcome != "would_add"@ ==> within(entry_line(e), "skipped "@),
{
    reveal_strlit("added");
    reveal_strlit("would_add");
    assert("added"@.len() == 5 && "would_add"@.len() == 9);
    let head = if e.outcome == "added"@ {
        "added   "@
    } else if e.outcome == "would_add"@ {
        "would add"@
    } else {
        "skipped "@
    };
    let name = if e.name.len() > 0 {
        " as "@ + e.name
    } else {
        Seq::empty()
    };
    let reason = match e.reason {
        Some(reason) => " — "@ + reason,
        None => Seq::empty(),
    };
    let all = entry_line(e);
    assert(all == head + " "@ + e.path + name + reason + "\n"@);
    a_text_holds_itself(head);
    a_text_holds_itself(e.path);
    a_text_holds_itself(name);
    a_text_holds_itself(reason);
    one_of_six(head, " "@, e.path, name, reason, "\n"@, head);
    one_of_six(head, " "@, e.path, name, reason, "\n"@, e.path);
    one_of_six(head, " "@, e.path, name, reason, "\n"@, name);
    one_of_six(head, " "@, e.path, name, reason, "\n"@, reason);
}

proof fn a_text_holds_itself(s: Seq<char>)
    ensures
        within(s, s),
{
    assert(s.subrange(0, s.len() as int) =~= s);
    assert(stands_at(s, s, 0));
}

/// What a scan says has a line for every checkout, the two totals, and what was not looked at.
pub proof fn a_scan_tells_every_checkout(report: ScanReport, i: int)
    requires
        0 <= i < report.entries@.len(),
    ensures
        within(scan_in_words(report), entry_line(report.entries@[i]@)),
        within(
            scan_in_words(report),
            decimal(report.added as nat) + if report.dry_run {
                " to add, "@
            } else {
                " added, "@
            } + decimal(report.skipped as nat) + " skipped, autonomy "@ + report.autonomy@,
        ),
        report.dry_run ==> within(
            scan_in_words(report),
            " — nothing was written; run it again without --dry-run"@,
        ),
        within(scan_in_words(report), not_looked_at(report)),
{
    let entries = entries_of(report.entries@);
    let lines = entry_lines(entries);
    let dry = if report.dry_run {
        " to add, "@
    } else {
        " added, "@
    };
    let totals = decimal(report.added as nat) + dry + decimal(report.skipped as nat) + " skipped, autonomy "@
        + report.autonomy@;
    let told = "\n"@ + decimal(report.added as nat) + dry + decimal(report.skipped as nat) + " skipped, autonomy "@
        + report.autonomy@;
    let note = if report.dry_run {
        " — nothing was written; run it again without --dry-run"@
    } else {
        Seq::empty()
    };
    let rest = not_looked_at(report);
    assert(told =~= "\n"@ + totals);
    assert(scan_in_words(report) =~= lines + "\n"@ + totals + note + rest + "\n"@);
    a_line_stands_for_each(entries, i);
    a_text_holds_itself(totals);
    a_text_holds_itself(note);
    a_text_holds_itself(rest);
    one_of_six(lines, "\n"@, totals, note, rest, "\n"@, entry_line(entries[i]));
    one_of_six(lines, "\n"@, totals, note, rest, "\n"@, totals);
    one_of_six(lines, "\n"@, totals, note, rest, "\n"@, note);
    one_of_six(lines, "\n"@, totals, note, rest, "\n"@, rest);
}

proof fn a_line_stands_for_each(entries: Seq<Entry>, i: int)
    requires
        0 <= i < entries.len(),
    ensures
        within(entry_lines(entries), entry_line(entries[i])),
    decreases entries.len(),
{
    let before = entry_lines(entries.drop_last());
    let none = Seq::<char>::empty();
    if i == entries.len() - 1 {
        stands_inside(before, entry_line(entries[i]), none);
        assert(before + entry_line(entries[i]) + none =~= entry_lines(entries));
    } else {
        a_line_stands_for_each(entries.drop_last(), i);
        inside_stays(none, before, entry_line(entries.last()), entry_line(entries[i]));
        assert(none + before + entry_line(entries.last()) =~= entry_lines(entries));
    }
}

/// What a scan did not look at is told with how much there was of it, and nothing is where it looked
/// everywhere.
pub proof fn what_was_not_looked_at_is_told(report: ScanReport)
    ensures
        report.not_descended > 0 ==> within(
            not_looked_at(report),
            decimal(report.not_descended as nat) + " director(ies) were not looked inside at depth "@ + decimal(
                report.depth as nat,
            ),
        ),
        report.unreadable > 0 ==> within(
            not_looked_at(report),
            decimal(report.unreadable as nat) + " could not be read at all"@,
        ),
        report.not_descended == 0 && report.unreadable == 0 ==> not_looked_at(report).len() == 0,
{
    let all = not_looked_at(report);
    let none = Seq::<char>::empty();
    let deep = decimal(report.not_descended as nat) + " director(ies) were not looked inside at depth "@ + decimal(
        report.depth as nat,
    );
    let shut = decimal(report.unreadable as nat) + " could not be read at all"@;
    if report.not_descended > 0 {
        let rest = if report.unreadable > 0 {
            " — try --depth"@ + "; "@ + shut
        } else {
            " — try --depth"@
        };
        stands_inside("\n  "@, deep, rest);
        assert("\n  "@ + deep + rest =~= all);
    }
    if report.unreadable > 0 {
        let head = if report.not_descended > 0 {
            "\n  "@ + (deep + " — try --depth"@) + "; "@
        } else {
            "\n  "@
        };
        stands_inside(head, shut, none);
        assert(head + shut + none =~= all);
    }
}

/// What is said of a repository tells its name and health, what reviews it and how far that may go,
/// and that it is not watched where it is not.
pub proof fn a_block_tells_its_repository(view: RepoView)
    ensures
        within(block(view), view.health.repo@),
        within(block(view), "  ["@ + view.health.health.word() + "]\n"@),
        within(block(view), view.kind@),
        within(block(view), " · engine "@ + view.engine@),
        within(block(view), " · autonomy "@ + view.autonomy@),
        !view.enabled ==> within(block(view), " · DISABLED\n"@),
{
    let end = if view.enabled {
        "\n"@
    } else {
        " · DISABLED\n"@
    };
    let word = view.health.health.word();
    top_holds(view.health.repo@, word);
    setup_holds(view.kind@, view.engine@, view.autonomy@, end);
    from_a_block(view, view.health.repo@);
    from_a_block(view, "  ["@ + word + "]\n"@);
    from_a_block(view, view.kind@);
    from_a_block(view, " · engine "@ + view.engine@);
    from_a_block(view, " · autonomy "@ + view.autonomy@);
    from_a_block(view, end);
}

/// What is said of a repository tells when it is looked at, and what is wrong with it.
pub proof fn a_block_tells_what_is_wrong(view: RepoView)
    ensures
        within(block(view), "  poll every "@ + decimal(view.health.poll_interval_secs as nat)),
        within(block(view), "s, next in about "@ + decimal(view.health.next_poll_in_secs as nat)),
        view.health.consecutive_failures > 0 ==> within(
            block(view),
            "  "@ + decimal(view.health.consecutive_failures as nat) + " consecutive failure(s)\n"@,
        ),
        view.health.last_error matches Some(error) ==> within(block(view), "  last error: "@ + error@ + "\n"@),
        within(block(view), note_lines(texts(view.health.notes@))),
{
    let h = view.health;
    let every = decimal(h.poll_interval_secs as nat);
    let next = decimal(h.next_poll_in_secs as nat);
    poll_holds(every, next);
    from_a_block(view, "  poll every "@ + every);
    from_a_block(view, "s, next in about "@ + next);
    if h.consecutive_failures > 0 {
        let told = "  "@ + decimal(h.consecutive_failures as nat) + " consecutive failure(s)\n"@;
        a_text_holds_itself(told);
        from_a_block(view, told);
    }
    if let Some(e) = h.last_error {
        let told = "  last error: "@ + e@ + "\n"@;
        a_text_holds_itself(told);
        from_a_block(view, told);
    }
    a_text_holds_itself(note_lines(texts(h.notes@)));
    from_a_block(view, note_lines(texts(h.notes@)));
}

proof fn from_a_block(view: RepoView, told: Seq<char>)
    ensures
        ({
            let h = view.health;
            ||| within(h.repo@ + "  ["@ + h.health.word() + "]\n"@, told)
            ||| within(
                "  "@ + view.kind@ + " · engine "@ + view.engine@ + " · autonomy "@ + view.autonomy@ + if view.enabled {
                    "\n"@
                } else {
                    " · DISABLED\n"@
                },
                told,
            )
            ||| within(
                "  poll every "@ + decimal(h.poll_interval_secs as nat) + "s, next in about "@ + decimal(
                    h.next_poll_in_secs as nat,
                ) + "s\n"@,
                told,
            )
            ||| h.consecutive_failures > 0 && within(
                "  "@ + decimal(h.consecutive_failures as nat) + " consecutive failure(s)\n"@,
                told,
            )
            ||| h.last_error is Some && within("  last error: "@ + h.last_error->0@ + "\n"@, told)
            ||| within(note_lines(texts(h.notes@)), told)
        }) ==> within(block(view), told),
{
    let h = view.health;
    let top = h.repo@ + "  ["@ + h.health.word() + "]\n"@;
    let setup = "  "@ + view.kind@ + " · engine "@ + view.engine@ + " · autonomy "@ + view.autonomy@ + if view.enabled {
        "\n"@
    } else {
        " · DISABLED\n"@
    };
    let poll = "  poll every "@ + decimal(h.poll_interval_secs as nat) + "s, next in about "@ + decimal(
        h.next_poll_in_secs as nat,
    ) + "s\n"@;
    let failures = if h.consecutive_failures > 0 {
        "  "@ + decimal(h.consecutive_failures as nat) + " consecutive failure(s)\n"@
    } else {
        Seq::empty()
    };
    let error = match h.last_error {
        Some(error) => "  last error: "@ + error@ + "\n"@,
        None => Seq::empty(),
    };
    let notes = note_lines(texts(h.notes@));
    assert(block(view) == top + setup + poll + failures + error + notes);
    if within(top, told) || within(setup, told) || within(poll, told) || within(failures, told) || within(error, told)
        || within(notes, told) {
        one_of_six(top, setup, poll, failures, error, notes, told);
    }
}

proof fn top_holds(name: Seq<char>, word: Seq<char>)
    ensures
        within(name + "  ["@ + word + "]\n"@, name),
        within(name + "  ["@ + word + "]\n"@, "  ["@ + word + "]\n"@),
{
    let all = name + "  ["@ + word + "]\n"@;
    let state = "  ["@ + word + "]\n"@;
    let none = Seq::<char>::empty();
    stands_inside(none, name, state);
    assert(none + name + state =~= all);
    stands_inside(name, state, none);
    assert(name + state + none =~= all);
}

proof fn setup_holds(kind: Seq<char>, engine: Seq<char>, autonomy: Seq<char>, end: Seq<char>)
    ensures
        ({
            let all = "  "@ + kind + " · engine "@ + engine + " · autonomy "@ + autonomy + end;
            within(all, kind) && within(all, " · engine "@ + engine) && within(all, " · autonomy "@ + autonomy)
                && within(all, end)
        }),
{
    let all = "  "@ + kind + " · engine "@ + engine + " · autonomy "@ + autonomy + end;
    let none = Seq::<char>::empty();
    let e = " · engine "@ + engine;
    let a = " · autonomy "@ + autonomy;
    assert("  "@ + kind + e + a + end + none =~= all);
    a_text_holds_itself(kind);
    a_text_holds_itself(e);
    a_text_holds_itself(a);
    a_text_holds_itself(end);
    one_of_six("  "@, kind, e, a, end, none, kind);
    one_of_six("  "@, kind, e, a, end, none, e);
    one_of_six("  "@, kind, e, a, end, none, a);
    one_of_six("  "@, kind, e, a, end, none, end);
}

proof fn poll_holds(every: Seq<char>, next: Seq<char>)
    ensures
        ({
            let all = "  poll every "@ + every + "s, next in about "@ + next + "s\n"@;
            within(all, "  poll every "@ + every) && within(all, "s, next in about "@ + next)
        }),
{
    let all = "  poll every "@ + every + "s, next in about "@ + next + "s\n"@;
    let none = Seq::<char>::empty();
    let e = "  poll every "@ + every;
    let n = "s, next in about "@ + next;
    stands_inside(none, e, n + "s\n"@);
    assert(none + e + (n + "s\n"@) =~= all);
    stands_inside(e, n, "s\n"@);
    assert(e + n + "s\n"@ =~= all);
}

/// What is listed tells every repository, in turn, and each note on it.
pub proof fn a_listing_tells_every_repository(views: Seq<RepoView>, i: int)
    requires
        0 <= i < views.len(),
    ensures
        within(listing(views), block(views[i])),
    decreases views.len(),
{
    let before = blocks(views.drop_last());
    let none = Seq::<char>::empty();
    if i == views.len() - 1 {
        stands_inside(before, block(views[i]), none);
        assert(before + block(views[i]) + none =~= listing(views));
    } else {
        a_listing_tells_every_repository(views.drop_last(), i);
        inside_stays(none, before, block(views.last()), block(views[i]));
        assert(none + before + block(views.last()) =~= listing(views));
    }
}

/// Every note on a repository has its line.
pub proof fn every_note_has_its_line(notes: Seq<Seq<char>>, i: int)
    requires
        0 <= i < notes.len(),
    ensures
        within(note_lines(notes), "  note: "@ + notes[i] + "\n"@),
    decreases notes.len(),
{
    let before = note_lines(notes.drop_last());
    let none = Seq::<char>::empty();
    let line = "  note: "@ + notes[i] + "\n"@;
    if i == notes.len() - 1 {
        stands_inside(before, line, none);
        assert(before + line + none =~= note_lines(notes));
    } else {
        every_note_has_its_line(notes.drop_last(), i);
        let last = "  note: "@ + notes.last() + "\n"@;
        inside_stays(none, before, last, line);
        assert(none + before + last =~= note_lines(notes));
    }
}

/// That a checkout is gone is said with the repository and the place it was at.
pub proof fn a_missing_checkout_is_said(name: Seq<char>, path: Seq<char>)
    ensures
        within(missing_checkout(name, Some(path)), name),
        within(missing_checkout(name, Some(path)), path),
        within(missing_checkout(name, None), name),
{
    let a = ": the checkout is gone — "@;
    let end = "\n  try: put it back, point the repository at its new location, or disable it"@;
    let none = Seq::<char>::empty();
    stands_inside(none, name, a + path + end);
    assert(none + name + (a + path + end) =~= missing_checkout(name, Some(path)));
    stands_inside(name + a, path, end);
    let unknown = a + "no path recorded"@ + end;
    stands_inside(none, name, unknown);
    assert(none + name + unknown =~= missing_checkout(name, None));
}

/// A refusal tells what it is about.
pub proof fn a_refusal_tells_what_it_is_about(a: Seq<char>, b: Seq<char>, c: Seq<char>)
    ensures
        within(in_words(Refusal::Store { source: a }), a),
        within(in_words(Refusal::NameTaken { name: a }), a),
        within(in_words(Refusal::NotAValue { what: a, given: b, valid: c }), a + " `"@ + b + "`"@),
        within(in_words(Refusal::NotAValue { what: a, given: b, valid: c }), c),
        within(in_words(Refusal::NotAPair { given: a, engine: b }), a),
        within(in_words(Refusal::NotAPair { given: a, engine: b }), b),
        within(in_words(Refusal::NoSuchRepo { name: a }), a),
        within(in_words(Refusal::Unrenderable { source: a }), a),
{
    let none = Seq::<char>::empty();
    stands_inside("could not read the repository list: "@, a, "\n  try: revlocal db migrate"@);
    let taken = " is already configured\n  try: pick another --name, or `revlocal repo remove "@ + a + "` first"@;
    stands_inside("a repository named "@, a, taken);
    assert("a repository named "@ + a + taken =~= in_words(Refusal::NameTaken { name: a }));
    let value = in_words(Refusal::NotAValue { what: a, given: b, valid: c });
    reveal_strlit("` is not one of: ");
    reveal_strlit("`");
    reveal_strlit(" is not one of: ");
    assert("` is not one of: "@ =~= "`"@ + " is not one of: "@);
    let told = a + " `"@ + b + "`"@;
    let rest = " is not one of: "@ + c + "\n  try: one of those"@;
    stands_inside(none, told, rest);
    assert(none + told + rest =~= value);
    stands_inside(told + " is not one of: "@, c, "\n  try: one of those"@);
    assert(told + " is not one of: "@ + c + "\n  try: one of those"@ =~= value);
    let pair = "` is not a `key=value` pair\n  try: revlocal repo set <name> engine="@;
    stands_inside("`"@, a, pair + b + " autonomy=dry_run"@);
    assert("`"@ + a + (pair + b + " autonomy=dry_run"@) =~= in_words(Refusal::NotAPair { given: a, engine: b }));
    stands_inside("`"@ + a + pair, b, " autonomy=dry_run"@);
    stands_inside("no repository named "@, a, " is configured\n  try: revlocal repo show"@);
    stands_inside("could not render the report: "@, a, none);
    assert("could not render the report: "@ + a + none =~= in_words(Refusal::Unrenderable { source: a }));
}

/// Git is asked about a checkout on disk that it keeps, and about nothing else.
pub proof fn what_git_is_asked_about(plan: AddPlan)
    ensures
        !(plan.kind is Git) ==> !plan.asks(),
        within(plan.path_or_url@, "://"@) || "git@"@.is_prefix_of(plan.path_or_url@) ==> !plan.asks(),
        plan.kind is Git && (forall|i: int|
            0 <= i < plan.path_or_url@.len() ==> #[trigger] plan.path_or_url@[i] != ':' && plan.path_or_url@[i] != '@')
            ==> plan.asks(),
{
    what_is_reached_by_a_url(Seq::empty(), Seq::empty(), plan.path_or_url@);
}

/// What is said of a mode tells whether something is published: nothing is while it is off or a dry
/// run, something is where it asks, and everything otherwise.
pub proof fn what_is_said_of_a_mode(mode: AutonomyMode)
    ensures
        mode is Off ==> within(note_on(mode), "reviews are off"@),
        mode is DryRun ==> within(note_on(mode), "nothing is published"@),
        mode is AutoLowAskHigh ==> within(note_on(mode), "the rest wait for approval"@),
        mode is Auto ==> within(note_on(mode), "published without asking"@),
{
    reveal_strlit(" — reviews are off for it");
    reveal_strlit("reviews are off");
    reveal_strlit(" — findings are recorded, nothing is published until you widen it");
    reveal_strlit("nothing is published");
    reveal_strlit(" — low-risk deliveries go out, the rest wait for approval");
    reveal_strlit("the rest wait for approval");
    reveal_strlit(" — findings are published without asking");
    reveal_strlit("published without asking");
    let said = note_on(mode);
    match mode {
        AutonomyMode::Off => {
            assert(said.subrange(3, 18) =~= "reviews are off"@);
            assert(stands_at(said, "reviews are off"@, 3));
        },
        AutonomyMode::DryRun => {
            assert(said.subrange(26, 46) =~= "nothing is published"@);
            assert(stands_at(said, "nothing is published"@, 26));
        },
        AutonomyMode::AutoLowAskHigh => {
            assert(said.subrange(31, 57) =~= "the rest wait for approval"@);
            assert(stands_at(said, "the rest wait for approval"@, 31));
        },
        AutonomyMode::Auto => {
            assert(said.subrange(16, 40) =~= "published without asking"@);
            assert(stands_at(said, "published without asking"@, 16));
        },
    }
}

} // verus!
