//! Glob patterns, as `globset` reads them.

use vstd::prelude::*;

use crate::text::{chars_of, texts};

verus! {

/// Whether `globset::Glob::new` accepts a pattern.
pub uninterp spec fn glob_compiles(pattern: Seq<char>) -> bool;

/// What `globset::GlobMatcher::is_match` says of a path, for a pattern that compiles,
/// where `/` alone separates the parts of a path.
pub uninterp spec fn glob_hit(pattern: Seq<char>, path: Seq<char>) -> bool;

/// What `globset::GlobSet::is_match` says of a path, for the patterns of a set in order, where
/// `/` alone separates the parts of a path. A set looks at the parts of a path in ways of its
/// own, so this is not told from what each pattern says alone.
pub uninterp spec fn globset_hit(patterns: Seq<Seq<char>>, path: Seq<char>) -> bool;

/// Whether `globset::GlobSetBuilder::build` succeeds on patterns that each compile.
pub uninterp spec fn globset_builds(patterns: Seq<Seq<char>>) -> bool;

/// The patterns added to a builder, in order.
pub uninterp spec fn builder_patterns(builder: globset::GlobSetBuilder) -> Seq<Seq<char>>;

/// The patterns of a set, in order.
pub uninterp spec fn globset_patterns(set: globset::GlobSet) -> Seq<Seq<char>>;

/// How deeply the alternatives of a pattern may be nested for it to be read at all.
pub const DEEPEST_GLOB: usize = 1_000;

/// How deeply they may be nested for a matcher to be made of it alone.
pub const DEEPEST_MATCHER: usize = 64;

/// How long a pattern may be for a matcher to be made of it alone.
pub const LONGEST_MATCHER: usize = 4_096;

/// Where a character of a pattern stands.
#[derive(Clone, Copy, Debug, PartialEq, Eq, Structural)]
pub enum GlobPlace {
    /// Where it has its own meaning.
    Plain,
    /// After a `\` that takes its meaning away.
    Escaped,
    /// At the beginning of a class, where a `!` or a `^` negates it.
    ClassOpened,
    /// At the beginning of a negated class.
    Negated,
    /// In a class, past its first character.
    Class,
}

/// Of a pattern read from the left, where `\` escapes or does not: where its end stands, how many
/// alternatives are open there, and how many were at most.
pub open spec fn braces(pattern: Seq<char>, escapes: bool) -> (GlobPlace, nat, nat)
    decreases pattern.len(),
{
    if pattern.len() == 0 {
        (GlobPlace::Plain, 0, 0)
    } else {
        let (place, open, most) = braces(pattern.drop_last(), escapes);
        let c = pattern.last();
        match place {
            GlobPlace::Plain => if c == '{' {
                (
                    place,
                    open + 1,
                    if open + 1 > most {
                        open + 1
                    } else {
                        most
                    },
                )
            } else if c == '}' && open > 0 {
                (place, (open - 1) as nat, most)
            } else if c == '[' {
                (GlobPlace::ClassOpened, open, most)
            } else if c == '\\' && escapes {
                (GlobPlace::Escaped, open, most)
            } else {
                (place, open, most)
            },
            GlobPlace::Escaped => (GlobPlace::Plain, open, most),
            GlobPlace::ClassOpened => (
                if c == '!' || c == '^' {
                    GlobPlace::Negated
                } else {
                    GlobPlace::Class
                },
                open,
                most,
            ),
            GlobPlace::Negated => (GlobPlace::Class, open, most),
            GlobPlace::Class => (
                if c == ']' {
                    GlobPlace::Plain
                } else {
                    place
                },
                open,
                most,
            ),
        }
    }
}

/// How deeply the alternatives of a pattern are nested, at most. Whether `\` escapes depends on the
/// platform, so the deeper of the two readings counts.
pub open spec fn nesting(pattern: Seq<char>) -> nat {
    let (escaped, plain) = (braces(pattern, true).2, braces(pattern, false).2);
    if escaped > plain {
        escaped
    } else {
        plain
    }
}

fn depth_of(v: &Vec<char>, escapes: bool) -> (r: usize)
    ensures
        r == braces(v@, escapes).2,
{
    let mut place = GlobPlace::Plain;
    let mut open: usize = 0;
    let mut most: usize = 0;
    let mut i: usize = 0;
    assert(v@.take(0) =~= Seq::empty());
    while i < v.len()
        invariant
            i <= v.len(),
            open <= i,
            most <= i,
            braces(v@.take(i as int), escapes) == (place, open as nat, most as nat),
        decreases v.len() - i,
    {
        assert(v@.take(i + 1).drop_last() =~= v@.take(i as int));
        let c = v[i];
        match place {
            GlobPlace::Plain => {
                if c == '{' {
                    open += 1;
                    if open > most {
                        most = open;
                    }
                } else if c == '}' && open > 0 {
                    open -= 1;
                } else if c == '[' {
                    place = GlobPlace::ClassOpened;
                } else if c == '\\' && escapes {
                    place = GlobPlace::Escaped;
                }
            },
            GlobPlace::Escaped => {
                place = GlobPlace::Plain;
            },
            GlobPlace::ClassOpened => {
                if c == '!' || c == '^' {
                    place = GlobPlace::Negated;
                } else {
                    place = GlobPlace::Class;
                }
            },
            GlobPlace::Negated => {
                place = GlobPlace::Class;
            },
            GlobPlace::Class => {
                if c == ']' {
                    place = GlobPlace::Plain;
                }
            },
        }
        i += 1;
    }
    assert(v@.take(v@.len() as int) =~= v@);
    most
}

fn nesting_of(pattern: &str) -> (r: usize)
    ensures
        r == nesting(pattern@),
{
    let v = chars_of(pattern);
    let escaped: usize = depth_of(&v, true);
    let plain: usize = depth_of(&v, false);
    if escaped > plain {
        escaped
    } else {
        plain
    }
}

/// `globset::GlobSetBuilder`, which patterns are added to.
#[verifier::external_type_specification]
#[verifier::external_body]
pub struct ExGlobSetBuilder(globset::GlobSetBuilder);

/// `globset::GlobSet`, which matches many patterns at once.
#[verifier::external_type_specification]
#[verifier::external_body]
pub struct ExGlobSet(globset::GlobSet);

/// `globset::GlobSetBuilder::new`: a builder without patterns.
#[verifier::external_body]
fn empty_builder() -> (r: globset::GlobSetBuilder)
    ensures
        builder_patterns(r) == Seq::<Seq<char>>::empty(),
{
    globset::GlobSetBuilder::new()
}

/// `globset::Glob::new`, and `globset::GlobSetBuilder::add` of what it gives: the pattern
/// becomes the builder's last. A pattern that does not compile is not added. Reading a pattern
/// goes one call deeper for each alternative inside another, so one that is nested without bound
/// is left out.
#[verifier::external_body]
fn add_glob(builder: &mut globset::GlobSetBuilder, pattern: &str) -> (added: bool)
    requires
        nesting(pattern@) <= DEEPEST_GLOB,
    ensures
        added == glob_compiles(pattern@),
        added ==> builder_patterns(*final(builder)) == builder_patterns(*old(builder)).push(pattern@),
        !added ==> builder_patterns(*final(builder)) == builder_patterns(*old(builder)),
{
    match globset::Glob::new(pattern) {
        Ok(glob) => {
            builder.add(glob);
            true
        },
        Err(_) => false,
    }
}

/// `globset::GlobSetBuilder::build`: the set of the builder's patterns, unless they cannot
/// be compiled together.
#[verifier::external_body]
fn build_set(builder: &globset::GlobSetBuilder) -> (r: Option<globset::GlobSet>)
    ensures
        r is Some == globset_builds(builder_patterns(*builder)),
        r matches Some(set) ==> globset_patterns(set) == builder_patterns(*builder),
{
    builder.build().ok()
}

/// `globset::GlobSet::is_match`: whether the set matches the path. It depends on the patterns of
/// the set and the path alone, and a set without patterns matches nothing.
#[verifier::external_body]
fn set_is_match(set: &globset::GlobSet, path: &str) -> (r: bool)
    ensures
        r == globset_hit(globset_patterns(*set), path@),
        globset_patterns(*set).len() == 0 ==> !r,
{
    set.is_match(path)
}

/// `globset::GlobMatcher::is_match`, for a matcher made from a pattern by
/// `globset::Glob::new` and `compile_matcher`: nothing where the pattern does not compile,
/// and otherwise whether the path matches it. `compile_matcher` panics where the regular
/// expression made of the pattern is nested too deeply or takes too much room, so a pattern that
/// is deeply nested or very long is left out.
#[verifier::external_body]
fn glob_is_match(pattern: &str, path: &str) -> (r: Option<bool>)
    requires
        nesting(pattern@) <= DEEPEST_MATCHER,
        pattern@.len() <= LONGEST_MATCHER,
    ensures
        r is Some == glob_compiles(pattern@),
        r matches Some(b) ==> b == glob_hit(pattern@, path@),
{
    globset::Glob::new(pattern).ok().map(|glob| glob.compile_matcher().is_match(path))
}

/// Whether a pattern alone matches a path. One that does not compile matches nothing, and
/// neither does one that is nested too deeply to be read. One for which no matcher is made, deeply
/// nested or very long, is asked as a set of one, which refuses what is too much for it.
pub open spec fn matches_alone(pattern: Seq<char>, path: Seq<char>) -> bool {
    &&& nesting(pattern) <= DEEPEST_GLOB
    &&& glob_compiles(pattern)
    &&& if nesting(pattern) <= DEEPEST_MATCHER && pattern.len() <= LONGEST_MATCHER {
        glob_hit(pattern, path)
    } else {
        globset_builds(seq![pattern]) && globset_hit(seq![pattern], path)
    }
}

/// Whether a pattern alone matches a path.
pub fn is_match_alone(pattern: &str, path: &str) -> (r: bool)
    ensures
        r == matches_alone(pattern@, path@),
{
    let depth: usize = nesting_of(pattern);
    if depth > DEEPEST_GLOB {
        return false;
    }
    if depth <= DEEPEST_MATCHER && chars_of(pattern).len() <= LONGEST_MATCHER {
        return match glob_is_match(pattern, path) {
            Some(hit) => hit,
            None => false,
        };
    }
    let mut builder = empty_builder();
    if !add_glob(&mut builder, pattern) {
        return false;
    }
    assert(builder_patterns(builder) =~= seq![pattern@]);
    match build_set(&builder) {
        Some(set) => set_is_match(&set, path),
        None => false,
    }
}

/// Whether a list of patterns makes a set: each can be read and compiles, and all together.
pub open spec fn patterns_usable(patterns: Seq<Seq<char>>) -> bool {
    &&& forall|i: int|
        0 <= i < patterns.len() ==> nesting(#[trigger] patterns[i]) <= DEEPEST_GLOB && glob_compiles(
            patterns[i],
        )
    &&& globset_builds(patterns)
}

/// Compile a glob set, or nothing if any pattern is invalid.
pub fn build_globset(patterns: &Vec<String>) -> (r: Option<globset::GlobSet>)
    ensures
        r is Some == patterns_usable(texts(patterns@)),
        r matches Some(set) ==> globset_patterns(set) == texts(patterns@),
{
    let mut builder = empty_builder();
    let mut i: usize = 0;
    assert(texts(patterns@).take(0) =~= Seq::empty());
    while i < patterns.len()
        invariant
            i <= patterns.len(),
            builder_patterns(builder) == texts(patterns@).take(i as int),
            forall|j: int|
                0 <= j < i ==> nesting(#[trigger] texts(patterns@)[j]) <= DEEPEST_GLOB && glob_compiles(
                    texts(patterns@)[j],
                ),
        decreases patterns.len() - i,
    {
        assert(texts(patterns@)[i as int] == patterns@[i as int]@);
        if nesting_of(patterns[i].as_str()) > DEEPEST_GLOB {
            return None;
        }
        if !add_glob(&mut builder, patterns[i].as_str()) {
            return None;
        }
        assert(texts(patterns@).take(i + 1) =~= texts(patterns@).take(i as int).push(patterns@[i as int]@));
        i += 1;
    }
    assert(texts(patterns@).take(patterns@.len() as int) =~= texts(patterns@));
    build_set(&builder)
}

/// Where the first path that the set matches stands.
pub fn first_match(set: &globset::GlobSet, paths: &Vec<String>) -> (r: Option<usize>)
    ensures
        match r {
            Some(i) => i < paths.len() && globset_hit(globset_patterns(*set), paths@[i as int]@) && forall|
                j: int,
            |
                0 <= j < i ==> !globset_hit(globset_patterns(*set), #[trigger] paths@[j]@),
            None => forall|j: int|
                0 <= j < paths.len() ==> !globset_hit(globset_patterns(*set), #[trigger] paths@[j]@),
        },
{
    let mut i: usize = 0;
    while i < paths.len()
        invariant
            i <= paths.len(),
            forall|j: int| 0 <= j < i ==> !globset_hit(globset_patterns(*set), #[trigger] paths@[j]@),
        decreases paths.len() - i,
    {
        if set_is_match(set, paths[i].as_str()) {
            return Some(i);
        }
        i += 1;
    }
    None
}

/// How deep a pattern goes: not at all without a brace, as deep as there are braces where there is
/// nothing else, and never less deep for what is added to it.
pub proof fn how_deep_a_pattern_goes(pattern: Seq<char>, more: char)
    ensures
        (forall|i: int| 0 <= i < pattern.len() ==> #[trigger] pattern[i] != '{') ==> nesting(pattern) == 0,
        (forall|i: int| 0 <= i < pattern.len() ==> #[trigger] pattern[i] == '{') ==> nesting(pattern) == pattern.len(),
        nesting(pattern) <= nesting(pattern.push(more)) <= nesting(pattern) + 1,
        more != '{' ==> nesting(pattern.push(more)) == nesting(pattern),
{
    depth_of_braces(pattern, true);
    depth_of_braces(pattern, false);
    assert(pattern.push(more).drop_last() =~= pattern);
}

proof fn depth_of_braces(pattern: Seq<char>, escapes: bool)
    ensures
        braces(pattern, escapes).1 <= braces(pattern, escapes).2,
        (forall|i: int| 0 <= i < pattern.len() ==> #[trigger] pattern[i] != '{') ==> braces(pattern, escapes).2 == 0,
        (forall|i: int| 0 <= i < pattern.len() ==> #[trigger] pattern[i] == '{') ==> braces(pattern, escapes) == (
            GlobPlace::Plain,
            pattern.len(),
            pattern.len(),
        ),
    decreases pattern.len(),
{
    if pattern.len() > 0 {
        let before = pattern.drop_last();
        depth_of_braces(before, escapes);
        assert(pattern.last() == pattern[pattern.len() - 1]);
        if forall|i: int| 0 <= i < pattern.len() ==> #[trigger] pattern[i] != '{' {
            assert forall|i: int| 0 <= i < before.len() implies #[trigger] before[i] != '{' by {
                assert(before[i] == pattern[i]);
            }
        }
        if forall|i: int| 0 <= i < pattern.len() ==> #[trigger] pattern[i] == '{' {
            assert forall|i: int| 0 <= i < before.len() implies #[trigger] before[i] == '{' by {
                assert(before[i] == pattern[i]);
            }
        }
    }
}

/// A pattern without braces that is not overlong matches what it matches; one that is none matches
/// nothing.
pub proof fn a_plain_pattern_matches_what_it_says(pattern: Seq<char>, path: Seq<char>)
    ensures
        !glob_compiles(pattern) ==> !matches_alone(pattern, path),
        pattern.len() <= 4_096 && glob_compiles(pattern) && (forall|i: int|
            0 <= i < pattern.len() ==> #[trigger] pattern[i] != '{') ==> matches_alone(pattern, path) == glob_hit(
            pattern,
            path,
        ),
{
    how_deep_a_pattern_goes(pattern, 'a');
}

/// Patterns can be used where each of them is one and they can be put together.
pub proof fn every_pattern_has_to_be_one(patterns: Seq<Seq<char>>, i: int)
    requires
        0 <= i < patterns.len(),
        patterns_usable(patterns),
    ensures
        glob_compiles(patterns[i]),
        nesting(patterns[i]) <= 1_000,
        globset_builds(patterns),
{
}

} // verus!
