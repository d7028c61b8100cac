//! Finding the checkouts that are already on the disk.
//!
//! # Stop at a repository
//!
//! A repository's subdirectories are its own contents, not more repositories. Submodules are not
//! followed: one is reviewed as part of the repository that pins it.
//!
//! # What was not looked at is part of the answer
//!
//! A bound on the depth can hide a repository as completely as a crash can. A walk that reported
//! only what it found would read the same whether the tree was explored or cut off one level
//! above thirty checkouts.
//!
//! The walk is a machine: it names the directory to look at next, is told what is there, and
//! decides. It always takes directories in the order of their names, so that two walks of one
//! tree report the same.

use vstd::prelude::*;

use crate::model::RepoKind;
use crate::text::{
    join_path, joined_path, one_of, push_contains, sort_texts, sorted_texts, sorted_texts_means, starts_with,
    strs, texts,
};

verus! {

/// How deep a scan goes below its root when nobody says.
pub const DEFAULT_SCAN_DEPTH: usize = 4;

/// The names of directories that a scan never looks inside. Each is a place where a checkout is
/// not, and some are where the time goes.
pub open spec fn never_descended() -> Seq<Seq<char>> {
    seq![
        ".git"@,
        ".svn"@,
        "node_modules"@,
        "target"@,
        "vendor"@,
        "__pycache__"@,
        ".venv"@,
        "venv"@,
    ]
}

fn never_descend() -> (r: Vec<&'static str>)
    ensures
        strs(r@) == never_descended(),
{
    let r: Vec<&'static str> = vec![
        ".git",
        ".svn",
        "node_modules",
        "target",
        "vendor",
        "__pycache__",
        ".venv",
        "venv",
    ];
    assert(strs(r@) =~= never_descended());
    r
}

/// One checkout the walk found.
#[derive(Clone, Debug, PartialEq, Eq)]
pub struct Discovered {
    /// Where it is.
    pub path: String,
    /// What kind of working copy it is.
    pub kind: RepoKind,
}

/// What a walk found, and what it did not look at.
#[derive(Clone, Debug, PartialEq, Eq)]
pub struct Discovery {
    /// Every checkout, in a stable order.
    pub found: Vec<Discovered>,
    /// Directories that the depth kept the walk from looking inside.
    pub not_descended: usize,
    /// Directories that are there and could not be read.
    pub unreadable: usize,
}

/// What came of a walk.
pub struct Outcome {
    /// Where checkouts are, and of what kind.
    pub found: Seq<(Seq<char>, RepoKind)>,
    /// Directories that the depth kept the walk from looking inside.
    pub not_descended: nat,
    /// Directories that could not be read.
    pub unreadable: nat,
}

impl View for Discovery {
    type V = Outcome;

    open spec fn view(&self) -> Outcome {
        Outcome {
            found: self.found@.map_values(|d: Discovered| (d.path@, d.kind)),
            not_descended: self.not_descended as nat,
            unreadable: self.unreadable as nat,
        }
    }
}

impl Outcome {
    /// Nothing found, and nothing passed over.
    pub open spec fn nothing() -> Outcome {
        Outcome { found: Seq::empty(), not_descended: 0, unreadable: 0 }
    }

    /// What came of one walk after another.
    pub open spec fn and(self, more: Outcome) -> Outcome {
        Outcome {
            found: self.found + more.found,
            not_descended: self.not_descended + more.not_descended,
            unreadable: self.unreadable + more.unreadable,
        }
    }
}

/// What is in a directory: an entry's name, and whether it is a directory itself and no link to
/// one.
#[derive(Clone, Debug, PartialEq, Eq)]
pub struct DirEntry {
    /// Its name.
    pub name: String,
    /// Whether it is a directory.
    pub is_dir: bool,
}

/// What a look at a directory shows.
#[derive(Clone, Debug, PartialEq, Eq)]
pub struct Seen {
    /// Whether it holds a `.git`, be that a directory or the file of a linked worktree.
    pub git: bool,
    /// Whether it holds a `.svn` directory.
    pub svn: bool,
    /// What is in it, when that could be read.
    pub listing: Option<Vec<DirEntry>>,
}

/// What a look at a directory shows.
pub struct Sight {
    /// Whether it holds a `.git`.
    pub git: bool,
    /// Whether it holds a `.svn` directory.
    pub svn: bool,
    /// Names, each with whether it is a directory, when they could be read.
    pub listing: Option<Seq<(Seq<char>, bool)>>,
}

/// Names, each with whether it is a directory.
pub open spec fn named(entries: Seq<DirEntry>) -> Seq<(Seq<char>, bool)> {
    entries.map_values(|e: DirEntry| (e.name@, e.is_dir))
}

impl View for Seen {
    type V = Sight;

    open spec fn view(&self) -> Sight {
        Sight {
            git: self.git,
            svn: self.svn,
            listing: match self.listing {
                Some(entries) => Some(named(entries@)),
                None => None,
            },
        }
    }
}

/// What kind of working copy a directory is, if it is one.
pub open spec fn kind_seen(git: bool, svn: bool) -> Option<RepoKind> {
    if git {
        Some(RepoKind::Git)
    } else if svn {
        Some(RepoKind::Svn)
    } else {
        None
    }
}

/// What kind of working copy a directory is, if it is one.
pub fn kind_of(git: bool, svn: bool) -> (r: Option<RepoKind>)
    ensures
        r == kind_seen(git, svn),
{
    if git {
        Some(RepoKind::Git)
    } else if svn {
        Some(RepoKind::Svn)
    } else {
        None
    }
}

/// Whether a scan looks inside an entry. Links are not followed: one into a parent turns the
/// walk into a loop. Hidden directories hold caches and state.
pub open spec fn walkable(name: Seq<char>, is_dir: bool) -> bool {
    is_dir && !never_descended().contains(name) && !"."@.is_prefix_of(name)
}

/// Whether a scan looks inside an entry.
pub fn is_walkable(name: &str, is_dir: bool) -> (r: bool)
    ensures
        r == walkable(name@, is_dir),
{
    is_dir && !one_of(name, &never_descend()) && !starts_with(name, ".")
}

/// The names of the entries that a scan looks inside.
pub open spec fn walked_names(listing: Seq<(Seq<char>, bool)>) -> Seq<Seq<char>>
    decreases listing.len(),
{
    if listing.len() == 0 {
        Seq::empty()
    } else {
        let before = walked_names(listing.drop_last());
        if walkable(listing.last().0, listing.last().1) {
            before.push(listing.last().0)
        } else {
            before
        }
    }
}

/// The directories to look at below a path, in the order of their names.
pub open spec fn children(path: Seq<char>, listing: Seq<(Seq<char>, bool)>) -> Seq<Seq<char>> {
    sorted_texts(walked_names(listing)).map_values(|name: Seq<char>| joined_path(path, name))
}

/// What a walk of a tree comes to, below one directory.
pub open spec fn walked(tree: spec_fn(Seq<char>) -> Sight, path: Seq<char>, depth: nat, max_depth: nat) -> Outcome
    decreases max_depth - depth, 0nat, 1nat,
{
    let sight = tree(path);
    match kind_seen(sight.git, sight.svn) {
        Some(kind) => Outcome { found: seq![(path, kind)], not_descended: 0, unreadable: 0 },
        None => if depth >= max_depth {
            Outcome { found: Seq::empty(), not_descended: 1, unreadable: 0 }
        } else {
            match sight.listing {
                None => Outcome { found: Seq::empty(), not_descended: 0, unreadable: 1 },
                Some(listing) => walked_all(tree, children(path, listing), depth + 1, max_depth),
            }
        },
    }
}

/// What a walk of a tree comes to, below several directories in turn.
pub open spec fn walked_all(
    tree: spec_fn(Seq<char>) -> Sight,
    paths: Seq<Seq<char>>,
    depth: nat,
    max_depth: nat,
) -> Outcome
    decreases max_depth - depth, paths.len(), 2nat,
{
    if paths.len() == 0 || depth > max_depth {
        Outcome::nothing()
    } else {
        walked_all(tree, paths.drop_last(), depth, max_depth).and(
            walked(tree, paths.last(), depth, max_depth),
        )
    }
}

/// A walk under way.
#[derive(Debug)]
pub struct Walk {
    /// How deep it goes.
    pub max_depth: usize,
    /// The directories still to look at, the next one last, each with how deep it lies.
    pub pending: Vec<(String, usize)>,
    /// What it has come to so far.
    pub so_far: Discovery,
}

/// Directories and how deep they lie.
pub open spec fn stack(v: Seq<(String, usize)>) -> Seq<(Seq<char>, nat)> {
    v.map_values(|p: (String, usize)| (p.0@, p.1 as nat))
}

/// What a walk of a tree comes to, below the directories of a stack.
pub open spec fn walked_stack(
    tree: spec_fn(Seq<char>) -> Sight,
    pending: Seq<(Seq<char>, nat)>,
    max_depth: nat,
) -> Outcome
    decreases pending.len(),
{
    if pending.len() == 0 {
        Outcome::nothing()
    } else {
        walked(tree, pending.last().0, pending.last().1, max_depth).and(
            walked_stack(tree, pending.drop_last(), max_depth),
        )
    }
}

/// What is still to be looked at after a directory.
pub open spec fn pending_after(
    pending: Seq<(Seq<char>, nat)>,
    max_depth: nat,
    sight: Sight,
) -> Seq<(Seq<char>, nat)> {
    let (path, depth) = pending.last();
    if kind_seen(sight.git, sight.svn) is Some || depth >= max_depth || sight.listing is None {
        pending.drop_last()
    } else {
        pending.drop_last() + children(path, sight.listing->0).reverse().map_values(
            |p: Seq<char>| (p, depth + 1),
        )
    }
}

/// What a directory adds by itself.
pub open spec fn added_by(path: Seq<char>, depth: nat, max_depth: nat, sight: Sight) -> Outcome {
    match kind_seen(sight.git, sight.svn) {
        Some(kind) => Outcome { found: seq![(path, kind)], not_descended: 0, unreadable: 0 },
        None => if depth >= max_depth {
            Outcome { found: Seq::empty(), not_descended: 1, unreadable: 0 }
        } else if sight.listing is None {
            Outcome { found: Seq::empty(), not_descended: 0, unreadable: 1 }
        } else {
            Outcome::nothing()
        },
    }
}

impl Walk {
    /// Whether no directory lies deeper than the walk goes.
    pub open spec fn wf(self) -> bool {
        forall|i: int| 0 <= i < self.pending@.len() ==> (#[trigger] self.pending@[i]).1 <= self.max_depth
    }

    /// Begin a walk. The root is looked at too: a scan of a directory that is a checkout finds
    /// that checkout.
    pub fn discover(root: &str, max_depth: usize) -> (r: Walk)
        ensures
            r.wf(),
            r.max_depth == max_depth,
            stack(r.pending@) == seq![(root@, 0nat)],
            r.so_far@ == Outcome::nothing(),
    {
        let mut pending: Vec<(String, usize)> = Vec::new();
        pending.push((root.to_owned(), 0));
        let r = Walk {
            max_depth,
            pending,
            so_far: Discovery { found: Vec::new(), not_descended: 0, unreadable: 0 },
        };
        assert(stack(r.pending@) =~= seq![(root@, 0nat)]);
        assert(r.so_far@.found =~= Seq::empty());
        r
    }

    /// The directory to look at next.
    pub fn next(&self) -> (r: Option<String>)
        ensures
            crate::text::opt_text(r) == if self.pending@.len() == 0 {
                None
            } else {
                Some(self.pending@.last().0@)
            },
    {
        if self.pending.len() == 0 {
            return None;
        }
        Some(self.pending[self.pending.len() - 1].0.clone())
    }

    /// Whether what is in the next directory has to be read at all.
    pub fn wants_listing(&self, git: bool, svn: bool) -> (r: bool)
        requires
            self.pending@.len() > 0,
        ensures
            r == (!git && !svn && self.pending@.last().1 < self.max_depth),
    {
        !git && !svn && self.pending[self.pending.len() - 1].1 < self.max_depth
    }

    /// Go on, given what a look at the next directory shows.
    pub fn visit(&mut self, seen: &Seen)
        requires
            old(self).wf(),
            old(self).pending@.len() > 0,
            old(self).so_far.not_descended < usize::MAX,
            old(self).so_far.unreadable < usize::MAX,
        ensures
            final(self).wf(),
            final(self).max_depth == old(self).max_depth,
            stack(final(self).pending@) == pending_after(
                stack(old(self).pending@),
                old(self).max_depth as nat,
                seen@,
            ),
            final(self).so_far@ == old(self).so_far@.and(
                added_by(
                    old(self).pending@.last().0@,
                    old(self).pending@.last().1 as nat,
                    old(self).max_depth as nat,
                    seen@,
                ),
            ),
    {
        let ghost was = *self;
        let (path, depth) = self.pending.pop().unwrap();
        assert(stack(self.pending@) =~= stack(was.pending@).drop_last());
        assert(stack(was.pending@).last() == (path@, depth as nat));
        match kind_of(seen.git, seen.svn) {
            Some(kind) => {
                self.so_far.found.push(Discovered { path, kind });
                assert(self.so_far@.found =~= was.so_far@.found + seq![(path@, kind)]);
                return ;
            },
            None => {},
        }
        if depth >= self.max_depth {
            // Counted: the depth is the remedy that a report can name.
            self.so_far.not_descended = self.so_far.not_descended + 1;
            assert(self.so_far@.found =~= was.so_far@.found + Seq::empty());
            return ;
        }
        match &seen.listing {
            None => {
                self.so_far.unreadable = self.so_far.unreadable + 1;
                assert(self.so_far@.found =~= was.so_far@.found + Seq::empty());
            },
            Some(entries) => {
                let names = sort_texts(names_to_walk(entries));
                let ghost below = children(path@, named(entries@));
                let ghost base = stack(self.pending@);
                let ghost added = below.reverse().map_values(|p: Seq<char>| (p, depth as nat + 1));
                assert(below.len() == names@.len());
                let mut i: usize = names.len();
                assert(stack(self.pending@) =~= base + added.take(0));
                while i > 0
                    invariant
                        i <= names@.len() == below.len(),
                        depth < self.max_depth == was.max_depth,
                        self.wf(),
                        self.so_far == was.so_far,
                        texts(names@) == sorted_texts(walked_names(named(entries@))),
                        below == children(path@, named(entries@)),
                        added == below.reverse().map_values(|p: Seq<char>| (p, depth as nat + 1)),
                        stack(self.pending@) == base + added.take(names@.len() - i),
                    decreases i,
                {
                    let ghost before = self.pending@;
                    i -= 1;
                    let ghost k = names@.len() - 1 - i;
                    self.pending.push((join_path(path.as_str(), names[i].as_str()), depth + 1));
                    proof {
                        assert(below[i as int] == joined_path(path@, texts(names@)[i as int]));
                        assert(added[k] == (below[i as int], depth as nat + 1));
                        assert(added.take(k + 1) =~= added.take(k).push(added[k]));
                        assert(stack(self.pending@) =~= stack(before).push(added[k]));
                        assert(stack(self.pending@) =~= base + added.take(names@.len() - i));
                    }
                }
                assert(added.take(names@.len() as int) =~= added);
                assert(self.so_far@.found =~= was.so_far@.found + Seq::empty());
            },
        }
    }
}

fn names_to_walk(entries: &Vec<DirEntry>) -> (r: Vec<String>)
    ensures
        texts(r@) == walked_names(named(entries@)),
{
    let mut r: Vec<String> = Vec::new();
    let ghost all = named(entries@);
    let mut i: usize = 0;
    assert(all.take(0) =~= Seq::empty());
    assert(texts(r@) =~= Seq::empty());
    while i < entries.len()
        invariant
            i <= entries.len(),
            all == named(entries@),
            texts(r@) == walked_names(all.take(i as int)),
        decreases entries.len() - i,
    {
        assert(all.take(i + 1).drop_last() =~= all.take(i as int));
        let ghost was = r@;
        if is_walkable(entries[i].name.as_str(), entries[i].is_dir) {
            r.push(entries[i].name.clone());
            assert(texts(r@) =~= texts(was).push(all[i as int].0));
        }
        i += 1;
    }
    assert(all.take(all.len() as int) =~= all);
    r
}

// --- what holds of every walk ---

/// One outcome after another, put together in either way.
proof fn outcomes_associate(a: Outcome, b: Outcome, c: Outcome)
    ensures
        a.and(b).and(c) == a.and(b.and(c)),
        Outcome::nothing().and(a) == a,
        a.and(Outcome::nothing()) == a,
{
    assert(a.found + b.found + c.found =~= a.found + (b.found + c.found));
    assert(Seq::<(Seq<char>, RepoKind)>::empty() + a.found =~= a.found);
    assert(a.found + Seq::<(Seq<char>, RepoKind)>::empty() =~= a.found);
}

proof fn first_comes_first(
    tree: spec_fn(Seq<char>) -> Sight,
    path: Seq<char>,
    more: Seq<Seq<char>>,
    depth: nat,
    max_depth: nat,
)
    requires
        depth <= max_depth,
    ensures
        walked_all(tree, seq![path] + more, depth, max_depth) == walked(tree, path, depth, max_depth).and(
            walked_all(tree, more, depth, max_depth),
        ),
    decreases more.len(),
{
    let all = seq![path] + more;
    let one = walked(tree, path, depth, max_depth);
    if more.len() == 0 {
        assert(all.drop_last() =~= Seq::empty());
        assert(all.last() == path);
        assert(walked_all(tree, all.drop_last(), depth, max_depth) == Outcome::nothing());
        assert(walked_all(tree, more, depth, max_depth) == Outcome::nothing());
        outcomes_associate(one, one, one);
    } else {
        assert(all.drop_last() =~= seq![path] + more.drop_last());
        first_comes_first(tree, path, more.drop_last(), depth, max_depth);
        outcomes_associate(
            one,
            walked_all(tree, more.drop_last(), depth, max_depth),
            walked(tree, more.last(), depth, max_depth),
        );
    }
}

proof fn stacked_children(
    tree: spec_fn(Seq<char>) -> Sight,
    below: Seq<(Seq<char>, nat)>,
    paths: Seq<Seq<char>>,
    depth: nat,
    max_depth: nat,
)
    requires
        depth <= max_depth,
    ensures
        walked_stack(
            tree,
            below + paths.reverse().map_values(|p: Seq<char>| (p, depth)),
            max_depth,
        ) == walked_all(tree, paths, depth, max_depth).and(walked_stack(tree, below, max_depth)),
    decreases paths.len(),
{
    let pairs = paths.reverse().map_values(|p: Seq<char>| (p, depth));
    let all = below + pairs;
    if paths.len() == 0 {
        assert(all =~= below);
        outcomes_associate(
            walked_stack(tree, below, max_depth),
            Outcome::nothing(),
            Outcome::nothing(),
        );
    } else {
        let more = paths.drop_first();
        assert(paths =~= seq![paths[0]] + more);
        assert(all.last() == (paths[0], depth));
        assert(all.drop_last() =~= below + more.reverse().map_values(|p: Seq<char>| (p, depth)));
        stacked_children(tree, below, more, depth, max_depth);
        first_comes_first(tree, paths[0], more, depth, max_depth);
        outcomes_associate(
            walked(tree, paths[0], depth, max_depth),
            walked_all(tree, more, depth, max_depth),
            walked_stack(tree, below, max_depth),
        );
    }
}

/// Whatever the tree, each look brings the walk nearer to the same end: what it has come to, and
/// what is still to come below the directories it has left, stay one and the same.
pub proof fn a_look_loses_nothing(
    tree: spec_fn(Seq<char>) -> Sight,
    pending: Seq<(Seq<char>, nat)>,
    max_depth: nat,
)
    requires
        pending.len() > 0,
        pending.last().1 <= max_depth,
    ensures
        ({
            let (path, depth) = pending.last();
            added_by(path, depth, max_depth, tree(path)).and(
                walked_stack(tree, pending_after(pending, max_depth, tree(path)), max_depth),
            ) == walked_stack(tree, pending, max_depth)
        }),
{
    let (path, depth) = pending.last();
    let sight = tree(path);
    let below = pending.drop_last();
    let rest = walked_stack(tree, below, max_depth);
    outcomes_associate(rest, rest, rest);
    if kind_seen(sight.git, sight.svn) is None && depth < max_depth && sight.listing is Some {
        stacked_children(tree, below, children(path, sight.listing->0), depth + 1, max_depth);
        let next = pending_after(pending, max_depth, sight);
        assert(next =~= below + children(path, sight.listing->0).reverse().map_values(
            |p: Seq<char>| (p, depth + 1),
        ));
        outcomes_associate(walked_stack(tree, next, max_depth), rest, rest);
    }
}

/// A walk begins with all of the tree before it, and ends with nothing left: so what it has come
/// to at its end is what the tree holds, whatever order its directories were listed in.
pub proof fn a_walk_comes_to_what_the_tree_holds(
    tree: spec_fn(Seq<char>) -> Sight,
    root: Seq<char>,
    max_depth: nat,
)
    ensures
        walked_stack(tree, seq![(root, 0nat)], max_depth) == walked(tree, root, 0, max_depth),
        walked_stack(tree, Seq::empty(), max_depth) == Outcome::nothing(),
{
    let all = seq![(root, 0nat)];
    assert(all.drop_last() =~= Seq::empty());
    assert(walked_stack(tree, all.drop_last(), max_depth) == Outcome::nothing());
    outcomes_associate(walked(tree, root, 0, max_depth), Outcome::nothing(), Outcome::nothing());
}

/// A walk is cut off in words: where a directory is too deep to look inside, that is counted.
pub proof fn a_cut_is_counted(tree: spec_fn(Seq<char>) -> Sight, path: Seq<char>, max_depth: nat)
    requires
        kind_seen(tree(path).git, tree(path).svn) is None,
    ensures
        walked(tree, path, max_depth, max_depth).not_descended == 1,
{
}

/// The order in which a directory is listed makes no difference to the walk.
pub proof fn listings_may_come_in_any_order(
    path: Seq<char>,
    one: Seq<(Seq<char>, bool)>,
    other: Seq<(Seq<char>, bool)>,
)
    requires
        walked_names(one).to_multiset() == walked_names(other).to_multiset(),
    ensures
        children(path, one) == children(path, other),
{
    let a = sorted_texts(walked_names(one));
    crate::text::text_order_is_total();
    walked_names(one).lemma_sort_by_ensures(crate::text::text_order());
    assert forall|i: int, j: int| 0 <= i <= j < a.len() implies crate::text::text_le(
        #[trigger] a[i],
        #[trigger] a[j],
    ) by {
        if i < j {
            assert(crate::text::text_order()(a[i], a[j]));
        } else {
            crate::text::text_le_reflexive(a[i]);
        }
    }
    crate::text::one_order(a, walked_names(other));
}

/// What is a checkout: a directory that git keeps, or else one that Subversion does.
pub proof fn what_is_a_checkout(git: bool, svn: bool)
    ensures
        git ==> kind_seen(git, svn) == Some(RepoKind::Git),
        !git && svn ==> kind_seen(git, svn) == Some(RepoKind::Svn),
        !git && !svn ==> kind_seen(git, svn) is None,
{
}

/// What a scan goes into: directories, but for hidden ones and those that hold what others made.
pub proof fn what_a_scan_goes_into(name: Seq<char>, is_dir: bool)
    ensures
        walkable(name, is_dir) == (is_dir && !(name.len() > 0 && name[0] == '.') && name != "node_modules"@ && name
            != "target"@ && name != "vendor"@ && name != "__pycache__"@ && name != "venv"@),
{
    reveal_strlit(".");
    reveal_strlit(".git");
    reveal_strlit(".svn");
    reveal_strlit(".venv");
    let all = never_descended();
    if name.len() > 0 && name[0] == '.' {
        assert(name.subrange(0, 1) =~= "."@);
    }
    if "."@.is_prefix_of(name) {
        assert("."@ =~= name.subrange(0, 1));
        assert(name.subrange(0, 1)[0] == name[0]);
    }
    assert(".git"@[0] == '.' && ".svn"@[0] == '.' && ".venv"@[0] == '.');
    assert(all[2] == "node_modules"@ && all[3] == "target"@ && all[4] == "vendor"@ && all[5] == "__pycache__"@
        && all[7] == "venv"@);
    assert(all[0] == ".git"@ && all[1] == ".svn"@ && all[6] == ".venv"@);
}

/// The names below a directory that a scan goes into are those of its listing that it may.
pub proof fn what_is_gone_into_was_listed(listing: Seq<(Seq<char>, bool)>, name: Seq<char>)
    ensures
        sorted_texts(walked_names(listing)).contains(name) == exists|i: int|
            0 <= i < listing.len() && (#[trigger] listing[i]).0 == name && walkable(name, listing[i].1),
{
    sorted_texts_means(walked_names(listing), name);
    walked_were_listed(listing, name);
}

proof fn walked_were_listed(listing: Seq<(Seq<char>, bool)>, name: Seq<char>)
    ensures
        walked_names(listing).contains(name) == exists|i: int|
            0 <= i < listing.len() && (#[trigger] listing[i]).0 == name && walkable(name, listing[i].1),
    decreases listing.len(),
{
    if listing.len() > 0 {
        let before = listing.drop_last();
        let last = listing.last();
        walked_were_listed(before, name);
        push_contains(walked_names(before), last.0, name);
        if walked_names(before).contains(name) {
            let i = choose|i: int|
                0 <= i < before.len() && (#[trigger] before[i]).0 == name && walkable(name, before[i].1);
            assert(listing[i].0 == name);
        } else if last.0 == name && walkable(last.0, last.1) {
            assert(listing[listing.len() - 1].0 == name);
        }
        assert forall|i: int|
            0 <= i < listing.len() && (#[trigger] listing[i]).0 == name && walkable(name, listing[i].1) implies walked_names(
            listing,
        ).contains(name) by {
            if i < before.len() {
                assert(before[i].0 == name);
            }
        }
    }
}

/// A checkout is found and not looked into; a directory at the limit is counted as left out, and one
/// that cannot be read as unreadable.
pub proof fn a_checkout_is_found(tree: spec_fn(Seq<char>) -> Sight, path: Seq<char>, depth: nat, max_depth: nat)
    ensures
        tree(path).git ==> walked(tree, path, depth, max_depth).found == seq![(path, RepoKind::Git)],
        !tree(path).git && tree(path).svn ==> walked(tree, path, depth, max_depth).found == seq![
            (path, RepoKind::Svn),
        ],
        !tree(path).git && !tree(path).svn && depth >= max_depth ==> walked(tree, path, depth, max_depth).found.len()
            == 0 && walked(tree, path, depth, max_depth).not_descended == 1,
        !tree(path).git && !tree(path).svn && depth < max_depth && tree(path).listing is None ==> walked(
            tree,
            path,
            depth,
            max_depth,
        ).found.len() == 0 && walked(tree, path, depth, max_depth).unreadable == 1,
{
}

/// What is found below a directory is found below one of what it holds: everything that a scan goes
/// into is scanned.
pub proof fn everything_gone_into_is_scanned(
    tree: spec_fn(Seq<char>) -> Sight,
    paths: Seq<Seq<char>>,
    depth: nat,
    max_depth: nat,
    i: int,
    found: (Seq<char>, RepoKind),
)
    requires
        depth <= max_depth,
    ensures
        0 <= i < paths.len() && walked(tree, paths[i], depth, max_depth).found.contains(found) ==> walked_all(
            tree,
            paths,
            depth,
            max_depth,
        ).found.contains(found),
        walked_all(tree, paths, depth, max_depth).found.contains(found) ==> exists|k: int|
            0 <= k < paths.len() && (#[trigger] walked(tree, paths[k], depth, max_depth)).found.contains(found),
    decreases paths.len(),
{
    if paths.len() > 0 {
        let before = paths.drop_last();
        everything_gone_into_is_scanned(tree, before, depth, max_depth, i, found);
        let a = walked_all(tree, before, depth, max_depth).found;
        let b = walked(tree, paths.last(), depth, max_depth).found;
        let all = walked_all(tree, paths, depth, max_depth).found;
        assert(all == a + b);
        if a.contains(found) {
            let k = choose|k: int| 0 <= k < a.len() && a[k] == found;
            assert(all[k] == found);
        }
        if b.contains(found) {
            let k = choose|k: int| 0 <= k < b.len() && b[k] == found;
            assert(all[a.len() + k] == found);
        }
        if 0 <= i < before.len() {
            assert(before[i] == paths[i]);
        }
        if all.contains(found) {
            let k = choose|k: int| 0 <= k < all.len() && all[k] == found;
            if k < a.len() {
                assert(a[k] == found);
                let m = choose|m: int|
                    0 <= m < before.len() && (#[trigger] walked(tree, before[m], depth, max_depth)).found.contains(
                        found,
                    );
                assert(walked(tree, paths[m], depth, max_depth).found.contains(found));
            } else {
                assert(b[k - a.len()] == found);
                assert(walked(tree, paths[paths.len() - 1], depth, max_depth).found.contains(found));
            }
        }
    }
}

} // verus!
