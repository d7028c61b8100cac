//! Text: what strings hold, and the operations on them that the rest of the library
//! is stated with.
//!
//! A string is a sequence of characters. Every contract that speaks of a message says
//! which characters it holds.

use vstd::prelude::*;
use vstd::utf8::{encode_utf8, encode_utf8_decode_utf8};

verus! {

/// `String::push` appends one character.
pub assume_specification[ String::push ](s: &mut String, c: char)
    ensures
        final(s)@ == old(s)@.push(c),
;

// --- what strings hold ---

/// What each string of a list holds.
pub open spec fn texts(v: Seq<String>) -> Seq<Seq<char>> {
    v.map_values(|s: String| s@)
}

/// What an optional string holds.
pub open spec fn opt_text(o: Option<String>) -> Option<Seq<char>> {
    match o {
        Some(s) => Some(s@),
        None => None,
    }
}

/// What an optional borrowed string holds.
pub open spec fn opt_str(o: Option<&str>) -> Option<Seq<char>> {
    match o {
        Some(s) => Some(s@),
        None => None,
    }
}

/// How many bytes a text takes in UTF-8.
pub open spec fn byte_len(s: Seq<char>) -> nat {
    encode_utf8(s).len()
}

/// How many bytes `s` takes in UTF-8.
pub fn bytes_in(s: &str) -> (n: usize)
    ensures
        n == byte_len(s@),
{
    s.as_bytes().len()
}

/// The characters of a string, one by one.
pub fn chars_of(s: &str) -> (v: Vec<char>)
    ensures
        v@ == s@,
{
    let mut v: Vec<char> = Vec::new();
    for c in it: s.chars()
        invariant
            it.seq() == s@,
            v@ == it.seq().take(it.index() as int),
    {
        v.push(c);
    }
    assert(v@ =~= s@);
    v
}

/// The string made of the characters from `from` up to `to`.
pub fn text_of(v: &Vec<char>, from: usize, to: usize) -> (s: String)
    requires
        from <= to <= v.len(),
    ensures
        s@ == v@.subrange(from as int, to as int),
{
    let mut s = String::new();
    let mut i: usize = from;
    while i < to
        invariant
            from <= i <= to <= v.len(),
            s@ == v@.subrange(from as int, i as int),
        decreases to - i,
    {
        s.push(v[i]);
        assert(v@.subrange(from as int, i + 1) =~= v@.subrange(from as int, i as int).push(v@[i as int]));
        i += 1;
    }
    s
}

/// Whether two strings hold the same characters.
pub fn same(a: &str, b: &str) -> (r: bool)
    ensures
        r == (a@ == b@),
{
    let x: &[u8] = a.as_bytes();
    let y: &[u8] = b.as_bytes();
    if x.len() != y.len() {
        return false;
    }
    let mut i: usize = 0;
    while i < x.len()
        invariant
            x.len() == y.len(),
            i <= x.len(),
            x@ == encode_utf8(a@),
            y@ == encode_utf8(b@),
            forall|j: int| 0 <= j < i ==> x@[j] == y@[j],
        decreases x.len() - i,
    {
        if x[i] != y[i] {
            return false;
        }
        i += 1;
    }
    proof {
        assert(x@ =~= y@);
        encode_utf8_decode_utf8(a@);
        encode_utf8_decode_utf8(b@);
    }
    true
}

/// Whether a list holds a string with these characters.
pub fn has_text(v: &Vec<String>, s: &str) -> (r: bool)
    ensures
        r == texts(v@).contains(s@),
{
    let mut i: usize = 0;
    while i < v.len()
        invariant
            i <= v.len(),
            forall|j: int| 0 <= j < i ==> #[trigger] texts(v@)[j] != s@,
        decreases v.len() - i,
    {
        if same(v[i].as_str(), s) {
            assert(texts(v@)[i as int] == s@);
            return true;
        }
        i += 1;
    }
    assert(texts(v@).len() == v.len());
    false
}

/// A copy of a list of strings, holding the same characters.
pub fn copy_texts(v: &Vec<String>) -> (r: Vec<String>)
    ensures
        r@ == v@,
        texts(r@) == texts(v@),
{
    let mut r: Vec<String> = Vec::new();
    let mut i: usize = 0;
    while i < v.len()
        invariant
            i <= v.len(),
            r@ == v@.take(i as int),
        decreases v.len() - i,
    {
        let s: String = v[i].clone();
        r.push(s);
        assert(v@.take(i + 1) =~= v@.take(i as int).push(v@[i as int]));
        i += 1;
    }
    assert(v@.take(v@.len() as int) =~= v@);
    r
}

// --- putting text together ---

/// `a` followed by `b`.
pub fn cat2(a: &str, b: &str) -> (r: String)
    ensures
        r@ == a@ + b@,
{
    let mut r = a.to_owned();
    r.append(b);
    r
}

/// Three texts, one after another.
pub fn cat3(a: &str, b: &str, c: &str) -> (r: String)
    ensures
        r@ == a@ + b@ + c@,
{
    let mut r = a.to_owned();
    r.append(b);
    r.append(c);
    r
}

/// Four texts, one after another.
pub fn cat4(a: &str, b: &str, c: &str, d: &str) -> (r: String)
    ensures
        r@ == a@ + b@ + c@ + d@,
{
    let mut r = cat3(a, b, c);
    r.append(d);
    r
}

/// Five texts, one after another.
pub fn cat5(a: &str, b: &str, c: &str, d: &str, e: &str) -> (r: String)
    ensures
        r@ == a@ + b@ + c@ + d@ + e@,
{
    let mut r = cat3(a, b, c);
    r.append(d);
    r.append(e);
    r
}

/// Six texts, one after another.
pub fn cat6(a: &str, b: &str, c: &str, d: &str, e: &str, f: &str) -> (r: String)
    ensures
        r@ == a@ + b@ + c@ + d@ + e@ + f@,
{
    let mut r = cat5(a, b, c, d, e);
    r.append(f);
    r
}

/// Seven texts, one after another.
pub fn cat7(a: &str, b: &str, c: &str, d: &str, e: &str, f: &str, g: &str) -> (r: String)
    ensures
        r@ == a@ + b@ + c@ + d@ + e@ + f@ + g@,
{
    let mut r = cat5(a, b, c, d, e);
    r.append(f);
    r.append(g);
    r
}

/// The texts of a list with `sep` between each two.
pub open spec fn joined(parts: Seq<Seq<char>>, sep: Seq<char>) -> Seq<char>
    decreases parts.len(),
{
    if parts.len() == 0 {
        Seq::empty()
    } else if parts.len() == 1 {
        parts[0]
    } else {
        joined(parts.drop_last(), sep) + sep + parts.last()
    }
}

/// The strings of a list with `sep` between each two.
pub fn join(parts: &Vec<String>, sep: &str) -> (r: String)
    ensures
        r@ == joined(texts(parts@), sep@),
{
    let mut r = String::new();
    let mut i: usize = 0;
    while i < parts.len()
        invariant
            i <= parts.len(),
            r@ == joined(texts(parts@).take(i as int), sep@),
        decreases parts.len() - i,
    {
        proof {
            let t = texts(parts@);
            assert(t.take(i + 1).drop_last() =~= t.take(i as int));
            assert(t.take(i + 1).last() == parts@[i as int]@);
        }
        if i > 0 {
            r.append(sep);
        }
        r.append(parts[i].as_str());
        assert(r@ =~= joined(texts(parts@).take(i + 1), sep@));
        i += 1;
    }
    assert(texts(parts@).take(parts@.len() as int) =~= texts(parts@));
    r
}

// --- numbers as text ---

/// The character of a decimal digit.
pub open spec fn digit(n: nat) -> char {
    ((48 + n % 10) as u8) as char
}

/// A natural number in decimal, without leading zeros.
pub open spec fn decimal(n: nat) -> Seq<char>
    decreases n,
{
    if n < 10 {
        seq![digit(n)]
    } else {
        decimal(n / 10).push(digit(n))
    }
}

/// An integer in decimal, with a minus sign when negative.
pub open spec fn decimal_int(n: int) -> Seq<char> {
    if n < 0 {
        seq!['-'] + decimal((-n) as nat)
    } else {
        decimal(n as nat)
    }
}

fn push_decimal(s: &mut String, n: u64)
    ensures
        final(s)@ == old(s)@ + decimal(n as nat),
    decreases n,
{
    if n >= 10 {
        push_decimal(s, n / 10);
    }
    let d: u8 = (48 + n % 10) as u8;
    s.push(d as char);
    assert(s@ =~= old(s)@ + decimal(n as nat));
}

/// A number in decimal.
pub fn num(n: u64) -> (r: String)
    ensures
        r@ == decimal(n as nat),
{
    let mut r = String::new();
    push_decimal(&mut r, n);
    assert(r@ =~= decimal(n as nat));
    r
}

/// A count in decimal.
pub fn count(n: usize) -> (r: String)
    ensures
        r@ == decimal(n as nat),
{
    num(n as u64)
}

/// A signed number in decimal.
pub fn signed(n: i64) -> (r: String)
    ensures
        r@ == decimal_int(n as int),
{
    if n >= 0 {
        return num(n as u64);
    }
    let mut r = String::new();
    r.push('-');
    // The magnitude of the least number does not fit its own type.
    let magnitude: u64 = (-(n + 1)) as u64 + 1;
    push_decimal(&mut r, magnitude);
    assert(r@ =~= decimal_int(n as int));
    r
}

// --- looking inside text ---

/// Whether `needle` stands in `hay` at position `i`.
pub open spec fn stands_at(hay: Seq<char>, needle: Seq<char>, i: int) -> bool {
    0 <= i && i + needle.len() <= hay.len() && hay.subrange(i, i + needle.len()) == needle
}

/// Whether `needle` stands anywhere in `hay`.
pub open spec fn within(hay: Seq<char>, needle: Seq<char>) -> bool {
    exists|i: int| #[trigger] stands_at(hay, needle, i)
}

/// Whether `i` is where `needle` first stands in `hay`.
pub open spec fn first_at(hay: Seq<char>, needle: Seq<char>, i: int) -> bool {
    stands_at(hay, needle, i) && forall|j: int| j < i ==> !#[trigger] stands_at(hay, needle, j)
}

/// Whether `needle` stands in `hay` at position `i`.
pub fn is_at(hay: &Vec<char>, needle: &Vec<char>, i: usize) -> (r: bool)
    requires
        i <= hay.len(),
    ensures
        r == stands_at(hay@, needle@, i as int),
{
    if needle.len() > hay.len() - i {
        return false;
    }
    let mut k: usize = 0;
    while k < needle.len()
        invariant
            k <= needle.len(),
            i + needle.len() <= hay.len(),
            forall|j: int| 0 <= j < k ==> hay@[i + j] == needle@[j],
        decreases needle.len() - k,
    {
        if hay[i + k] != needle[k] {
            assert(hay@.subrange(i as int, i + needle@.len())[k as int] != needle@[k as int]);
            return false;
        }
        k += 1;
    }
    assert(hay@.subrange(i as int, i + needle@.len()) =~= needle@);
    true
}

/// Where `needle` first stands in `hay`.
pub fn find(hay: &Vec<char>, needle: &Vec<char>) -> (r: Option<usize>)
    ensures
        match r {
            Some(i) => i <= hay.len() && first_at(hay@, needle@, i as int),
            None => !within(hay@, needle@),
        },
{
    let mut i: usize = 0;
    while i < hay.len()
        invariant
            i <= hay.len(),
            forall|j: int| j < i ==> !#[trigger] stands_at(hay@, needle@, j),
        decreases hay.len() - i,
    {
        if is_at(hay, needle, i) {
            return Some(i);
        }
        i += 1;
    }
    if is_at(hay, needle, i) {
        return Some(i);
    }
    None
}

/// Whether `needle` stands anywhere in `hay`.
pub fn contains(hay: &str, needle: &str) -> (r: bool)
    ensures
        r == within(hay@, needle@),
{
    find(&chars_of(hay), &chars_of(needle)).is_some()
}

/// Whether `s` begins with `p`.
pub fn starts_with(s: &str, p: &str) -> (r: bool)
    ensures
        r == p@.is_prefix_of(s@),
{
    let r = is_at(&chars_of(s), &chars_of(p), 0);
    assert(r == p@.is_prefix_of(s@));
    r
}

/// Whether `s` ends with `p`.
pub fn ends_with(s: &str, p: &str) -> (r: bool)
    ensures
        r == p@.is_suffix_of(s@),
{
    let v = chars_of(s);
    let w = chars_of(p);
    if w.len() > v.len() {
        return false;
    }
    let r = is_at(&v, &w, v.len() - w.len());
    assert(r == p@.is_suffix_of(s@));
    r
}

/// The characters after the last `c`; all of them where there is no `c`.
pub open spec fn after_last(s: Seq<char>, c: char) -> Seq<char>
    decreases s.len(),
{
    if s.len() == 0 || s.last() == c {
        Seq::empty()
    } else {
        after_last(s.drop_last(), c).push(s.last())
    }
}

/// The characters after the last `c`, and whether there is a `c` at all.
pub fn tail_after(s: &Vec<char>, c: char) -> (r: (String, bool))
    ensures
        r.0@ == after_last(s@, c),
        r.1 == s@.contains(c),
{
    let mut i: usize = s.len();
    proof {
        assert(s@.take(s@.len() as int) =~= s@);
        assert(s@.subrange(i as int, s@.len() as int) =~= Seq::empty());
    }
    while i > 0
        invariant
            i <= s.len(),
            after_last(s@, c) =~= after_last(s@.take(i as int), c) + s@.subrange(i as int, s@.len() as int),
            forall|j: int| i <= j < s@.len() ==> s@[j] != c,
        decreases i,
    {
        proof {
            assert(s@.take(i as int).last() == s@[i - 1]);
            assert(s@.take(i as int).drop_last() =~= s@.take(i - 1));
        }
        if s[i - 1] == c {
            assert(s@.contains(c));
            assert(after_last(s@, c) =~= s@.subrange(i as int, s@.len() as int));
            return (text_of(s, i, s.len()), true);
        }
        assert(s@.subrange(i - 1, s@.len() as int) =~= seq![s@[i - 1]] + s@.subrange(i as int, s@.len() as int));
        i -= 1;
    }
    assert(after_last(s@, c) =~= s@.subrange(0, s@.len() as int));
    (text_of(s, 0, s.len()), false)
}

/// Whether a character is white space, as Unicode has it.
pub open spec fn is_space(c: char) -> bool {
    let n = c as u32;
    ||| 0x9 <= n <= 0xd
    ||| n == 0x20
    ||| n == 0x85
    ||| n == 0xa0
    ||| n == 0x1680
    ||| 0x2000 <= n <= 0x200a
    ||| n == 0x2028
    ||| n == 0x2029
    ||| n == 0x202f
    ||| n == 0x205f
    ||| n == 0x3000
}

/// Whether a character is white space.
pub fn space(c: char) -> (r: bool)
    ensures
        r == is_space(c),
{
    let n: u32 = c as u32;
    (0x9 <= n && n <= 0xd) || n == 0x20 || n == 0x85 || n == 0xa0 || n == 0x1680 || (0x2000 <= n && n
        <= 0x200a) || n == 0x2028 || n == 0x2029 || n == 0x202f || n == 0x205f || n == 0x3000
}

/// Whether a text holds nothing but white space.
pub open spec fn is_blank(s: Seq<char>) -> bool {
    forall|i: int| 0 <= i < s.len() ==> is_space(#[trigger] s[i])
}

/// Whether a text holds nothing but white space.
pub fn blank(s: &str) -> (r: bool)
    ensures
        r == is_blank(s@),
{
    let v = chars_of(s);
    let mut i: usize = 0;
    while i < v.len()
        invariant
            v@ == s@,
            i <= v.len(),
            forall|j: int| 0 <= j < i ==> is_space(#[trigger] v@[j]),
        decreases v.len() - i,
    {
        if !space(v[i]) {
            return false;
        }
        i += 1;
    }
    true
}

/// A text without the white space that it begins with.
pub open spec fn trimmed_start(s: Seq<char>) -> Seq<char>
    decreases s.len(),
{
    if s.len() > 0 && is_space(s[0]) {
        trimmed_start(s.drop_first())
    } else {
        s
    }
}

/// A text without the white space that it ends with.
pub open spec fn trimmed_end(s: Seq<char>) -> Seq<char>
    decreases s.len(),
{
    if s.len() > 0 && is_space(s.last()) {
        trimmed_end(s.drop_last())
    } else {
        s
    }
}

/// A text without the white space around it.
pub open spec fn trimmed(s: Seq<char>) -> Seq<char> {
    trimmed_end(trimmed_start(s))
}

/// Without the white space that it begins with.
pub fn trim_start(v: &Vec<char>) -> (r: Vec<char>)
    ensures
        r@ == trimmed_start(v@),
{
    let mut i: usize = 0;
    assert(v@.skip(0) =~= v@);
    while i < v.len() && space(v[i])
        invariant
            i <= v.len(),
            trimmed_start(v@) == trimmed_start(v@.skip(i as int)),
        decreases v.len() - i,
    {
        assert(v@.skip(i as int).drop_first() =~= v@.skip(i + 1));
        i += 1;
    }
    let mut r: Vec<char> = Vec::new();
    let mut k: usize = i;
    while k < v.len()
        invariant
            i <= k <= v.len(),
            r@ == v@.subrange(i as int, k as int),
        decreases v.len() - k,
    {
        r.push(v[k]);
        assert(v@.subrange(i as int, k + 1) =~= v@.subrange(i as int, k as int).push(v@[k as int]));
        k += 1;
    }
    assert(r@ =~= v@.skip(i as int));
    r
}

/// Without the white space that it ends with.
pub fn trim_end(v: Vec<char>) -> (r: Vec<char>)
    ensures
        r@ == trimmed_end(v@),
{
    let mut r = v;
    while r.len() > 0 && space(r[r.len() - 1])
        invariant
            trimmed_end(v@) == trimmed_end(r@),
        decreases r.len(),
    {
        r.pop();
    }
    r
}

/// Without the white space around it.
pub fn trim(s: &str) -> (r: String)
    ensures
        r@ == trimmed(s@),
{
    let v = trim_end(trim_start(&chars_of(s)));
    let r = text_of(&v, 0, v.len());
    assert(v@.subrange(0, v@.len() as int) =~= v@);
    r
}

/// A character with ASCII capitals made small.
pub open spec fn lower_char(c: char) -> char {
    if 65 <= (c as u32) <= 90 {
        (((c as u32) + 32) as u8) as char
    } else {
        c
    }
}

/// A text with ASCII capitals made small.
pub open spec fn lowered(s: Seq<char>) -> Seq<char> {
    s.map_values(|c: char| lower_char(c))
}

/// The characters of `s` with ASCII capitals made small.
pub fn lower_chars(s: &str) -> (v: Vec<char>)
    ensures
        v@ == lowered(s@),
{
    let cs = chars_of(s);
    let mut v: Vec<char> = Vec::new();
    let mut i: usize = 0;
    while i < cs.len()
        invariant
            i <= cs.len(),
            v.len() == i,
            forall|j: int| 0 <= j < i ==> v@[j] == lower_char(cs@[j]),
        decreases cs.len() - i,
    {
        let c: char = cs[i];
        let n: u32 = c as u32;
        if 65 <= n && n <= 90 {
            let small: u8 = (n + 32) as u8;
            v.push(small as char);
        } else {
            v.push(c);
        }
        i += 1;
    }
    assert(v@ =~= lowered(s@));
    v
}

// --- the order of texts ---

/// Whether `a` comes before `b`, or is `b`: by the first character in which they
/// differ, a text before those that it begins.
pub open spec fn text_le(a: Seq<char>, b: Seq<char>) -> bool
    decreases a.len(),
{
    if a.len() == 0 {
        true
    } else if b.len() == 0 {
        false
    } else if a[0] != b[0] {
        (a[0] as u32) < (b[0] as u32)
    } else {
        text_le(a.drop_first(), b.drop_first())
    }
}

/// Whether a list of texts is in order.
pub open spec fn in_order(v: Seq<Seq<char>>) -> bool {
    forall|i: int, j: int| 0 <= i <= j < v.len() ==> text_le(#[trigger] v[i], #[trigger] v[j])
}

/// Every text is in order with itself.
pub proof fn text_le_reflexive(a: Seq<char>)
    ensures
        text_le(a, a),
    decreases a.len(),
{
    if a.len() > 0 {
        text_le_reflexive(a.drop_first());
    }
}

/// The order is transitive.
pub proof fn text_le_transitive(a: Seq<char>, b: Seq<char>, c: Seq<char>)
    requires
        text_le(a, b),
        text_le(b, c),
    ensures
        text_le(a, c),
    decreases a.len(),
{
    if a.len() > 0 && b.len() > 0 && c.len() > 0 && a[0] == b[0] && b[0] == c[0] {
        text_le_transitive(a.drop_first(), b.drop_first(), c.drop_first());
    }
}

/// Of two texts one comes first.
pub proof fn text_le_total(a: Seq<char>, b: Seq<char>)
    ensures
        text_le(a, b) || text_le(b, a),
    decreases a.len(),
{
    if a.len() > 0 && b.len() > 0 {
        vstd::utf8::char_u32_cast(a[0], a[0] as u32);
        vstd::utf8::char_u32_cast(b[0], b[0] as u32);
    }
    if a.len() > 0 && b.len() > 0 && a[0] == b[0] {
        text_le_total(a.drop_first(), b.drop_first());
    }
}

/// Two texts that come before each other are one text.
pub proof fn text_le_antisymmetric(a: Seq<char>, b: Seq<char>)
    requires
        text_le(a, b),
        text_le(b, a),
    ensures
        a == b,
    decreases a.len(),
{
    if a.len() > 0 && b.len() > 0 && a[0] == b[0] {
        text_le_antisymmetric(a.drop_first(), b.drop_first());
        assert(a =~= seq![a[0]] + a.drop_first());
        assert(b =~= seq![b[0]] + b.drop_first());
    } else {
        assert(a =~= b);
    }
}

/// Whether `a` comes before `b`, or is `b`.
pub fn before_or_same(a: &str, b: &str) -> (r: bool)
    ensures
        r == text_le(a@, b@),
{
    let x = chars_of(a);
    let y = chars_of(b);
    let mut i: usize = 0;
    proof {
        assert(x@.skip(0) =~= a@);
        assert(y@.skip(0) =~= b@);
    }
    while i < x.len() && i < y.len()
        invariant
            i <= x.len(),
            i <= y.len(),
            text_le(a@, b@) == text_le(x@.skip(i as int), y@.skip(i as int)),
        decreases x.len() - i,
    {
        if x[i] != y[i] {
            let p: char = x[i];
            let q: char = y[i];
            return (p as u32) < (q as u32);
        }
        proof {
            assert(x@.skip(i as int).drop_first() =~= x@.skip(i + 1));
            assert(y@.skip(i as int).drop_first() =~= y@.skip(i + 1));
        }
        i += 1;
    }
    i == x.len()
}

proof fn multiset_of_insert(v: Seq<Seq<char>>, at: int, s: Seq<char>)
    requires
        0 <= at <= v.len(),
    ensures
        v.insert(at, s).to_multiset() == v.to_multiset().insert(s),
{
    broadcast use vstd::seq_lib::group_to_multiset_ensures;

    let a = v.take(at);
    let b = v.skip(at);
    assert(v =~= a + b);
    assert(v.insert(at, s) =~= a.push(s) + b);
    vstd::seq_lib::lemma_multiset_commutative(a, b);
    vstd::seq_lib::lemma_multiset_commutative(a.push(s), b);
    assert(v.insert(at, s).to_multiset() =~= v.to_multiset().insert(s));
}

/// The order of texts, as a relation.
pub open spec fn text_order() -> spec_fn(Seq<char>, Seq<char>) -> bool {
    |a: Seq<char>, b: Seq<char>| text_le(a, b)
}

/// The texts of a list, put in order.
pub open spec fn sorted_texts(v: Seq<Seq<char>>) -> Seq<Seq<char>> {
    v.sort_by(text_order())
}

/// The order is a total one.
pub proof fn text_order_is_total()
    ensures
        vstd::relations::total_ordering(text_order()),
{
    let leq = text_order();
    assert forall|a: Seq<char>| #[trigger] leq(a, a) by {
        text_le_reflexive(a);
    }
    assert forall|a: Seq<char>, b: Seq<char>| #[trigger] leq(a, b) && #[trigger] leq(b, a) implies a == b by {
        text_le_antisymmetric(a, b);
    }
    assert forall|a: Seq<char>, b: Seq<char>, c: Seq<char>| #[trigger]
        leq(a, b) && #[trigger] leq(b, c) implies leq(a, c) by {
        text_le_transitive(a, b, c);
    }
    assert forall|a: Seq<char>, b: Seq<char>| #[trigger] leq(a, b) || #[trigger] leq(b, a) by {
        text_le_total(a, b);
    }
}

/// There is one way to put texts in order.
pub proof fn one_order(a: Seq<Seq<char>>, v: Seq<Seq<char>>)
    requires
        in_order(a),
        a.to_multiset() == v.to_multiset(),
    ensures
        a == sorted_texts(v),
{
    text_order_is_total();
    v.lemma_sort_by_ensures(text_order());
    assert forall|i: int, j: int| 0 <= i < j < a.len() implies #[trigger] text_order()(a[i], a[j]) by {
        assert(text_le(a[i], a[j]));
    }
    vstd::seq_lib::lemma_sorted_unique(a, sorted_texts(v), text_order());
}

/// The strings of a list, put in order: the same strings, each as often as before.
pub fn sort_texts(v: Vec<String>) -> (r: Vec<String>)
    ensures
        in_order(texts(r@)),
        texts(r@).to_multiset() == texts(v@).to_multiset(),
        texts(r@) == sorted_texts(texts(v@)),
{
    broadcast use vstd::seq_lib::group_to_multiset_ensures;

    let mut r: Vec<String> = Vec::new();
    let mut i: usize = 0;
    assert(texts(r@) =~= texts(v@).take(0));
    while i < v.len()
        invariant
            i <= v.len(),
            in_order(texts(r@)),
            texts(r@).to_multiset() == texts(v@).take(i as int).to_multiset(),
        decreases v.len() - i,
    {
        broadcast use vstd::seq_lib::group_to_multiset_ensures;

        let s: String = v[i].clone();
        let mut at: usize = r.len();
        while at > 0 && !before_or_same(r[at - 1].as_str(), s.as_str())
            invariant
                at <= r.len(),
                in_order(texts(r@)),
                forall|j: int| at <= j < r.len() ==> !text_le(#[trigger] texts(r@)[j], s@),
            decreases at,
        {
            assert(texts(r@)[at - 1] == r@[at - 1]@);
            at -= 1;
        }
        proof {
            let t = texts(r@);
            if at > 0 {
                assert(t[at - 1] == r@[at - 1]@);
            }
            assert forall|a: int, b: int| 0 <= a <= b < t.insert(at as int, s@).len() implies text_le(
                #[trigger] t.insert(at as int, s@)[a],
                #[trigger] t.insert(at as int, s@)[b],
            ) by {
                let u = t.insert(at as int, s@);
                text_le_reflexive(s@);
                if a < at && b == at {
                    assert(text_le(t[a], t[at - 1]));
                    text_le_transitive(t[a], t[at - 1], s@);
                } else if a == at && b > at {
                    text_le_total(t[b - 1], s@);
                } else if a < at && b < at {
                    assert(text_le(t[a], t[b]));
                } else if a > at {
                    assert(text_le(t[a - 1], t[b - 1]));
                } else if a < at {
                    assert(text_le(t[a], t[b - 1]));
                }
            }
            multiset_of_insert(t, at as int, s@);
            assert(texts(v@).take(i + 1) =~= texts(v@).take(i as int).push(s@));
        }
        let ghost before = r@;
        r.insert(at, s);
        assert(texts(r@) =~= texts(before).insert(at as int, s@));
        i += 1;
    }
    assert(texts(v@).take(v@.len() as int) =~= texts(v@));
    proof {
        one_order(texts(r@), texts(v@));
    }
    r
}

// --- lists of words ---

/// What each borrowed string of a list holds.
pub open spec fn strs(v: Seq<&'static str>) -> Seq<Seq<char>> {
    v.map_values(|s: &'static str| s@)
}

/// Whether a list of words holds `s`.
pub fn one_of(s: &str, words: &Vec<&'static str>) -> (r: bool)
    ensures
        r == strs(words@).contains(s@),
{
    let mut i: usize = 0;
    while i < words.len()
        invariant
            i <= words.len(),
            forall|j: int| 0 <= j < i ==> #[trigger] strs(words@)[j] != s@,
        decreases words.len() - i,
    {
        if same(words[i], s) {
            assert(strs(words@)[i as int] == s@);
            return true;
        }
        i += 1;
    }
    assert(strs(words@).len() == words.len());
    false
}

/// Whether any of the words stands in `hay`.
pub open spec fn any_within(hay: Seq<char>, words: Seq<Seq<char>>) -> bool {
    exists|i: int| 0 <= i < words.len() && within(hay, #[trigger] words[i])
}

/// Whether `i` is the first of the words that stands in `hay`.
pub open spec fn first_within(hay: Seq<char>, words: Seq<Seq<char>>, i: int) -> bool {
    &&& 0 <= i < words.len()
    &&& within(hay, words[i])
    &&& forall|j: int| 0 <= j < i ==> !within(hay, #[trigger] words[j])
}

/// The first of the words that stands in `hay`.
pub fn word_within(hay: &Vec<char>, words: &Vec<&'static str>) -> (r: Option<usize>)
    ensures
        match r {
            Some(i) => first_within(hay@, strs(words@), i as int),
            None => !any_within(hay@, strs(words@)),
        },
{
    let mut i: usize = 0;
    while i < words.len()
        invariant
            i <= words.len(),
            forall|j: int| 0 <= j < i ==> !within(hay@, #[trigger] strs(words@)[j]),
        decreases words.len() - i,
    {
        assert(strs(words@)[i as int] == words@[i as int]@);
        if find(hay, &chars_of(words[i])).is_some() {
            return Some(i);
        }
        i += 1;
    }
    None
}

/// Whether `i` is the first of the words that `s` begins with.
pub open spec fn first_prefix(s: Seq<char>, words: Seq<Seq<char>>, i: int) -> bool {
    &&& 0 <= i < words.len()
    &&& words[i].is_prefix_of(s)
    &&& forall|j: int| 0 <= j < i ==> !(#[trigger] words[j]).is_prefix_of(s)
}

/// The first of the words that `s` begins with.
pub fn word_prefix(s: &Vec<char>, words: &Vec<&'static str>) -> (r: Option<usize>)
    ensures
        match r {
            Some(i) => first_prefix(s@, strs(words@), i as int),
            None => forall|j: int| 0 <= j < words.len() ==> !(#[trigger] strs(words@)[j]).is_prefix_of(s@),
        },
{
    let mut i: usize = 0;
    while i < words.len()
        invariant
            i <= words.len(),
            forall|j: int| 0 <= j < i ==> !(#[trigger] strs(words@)[j]).is_prefix_of(s@),
        decreases words.len() - i,
    {
        assert(strs(words@)[i as int] == words@[i as int]@);
        let w = chars_of(words[i]);
        let here = is_at(s, &w, 0);
        assert(here == words@[i as int]@.is_prefix_of(s@));
        if here {
            return Some(i);
        }
        i += 1;
    }
    None
}

// --- lines ---

/// How long the first line is, the newline that ends it counted in.
pub open spec fn line_len(s: Seq<char>) -> nat
    decreases s.len(),
{
    if s.len() == 0 {
        0
    } else if s[0] == '\n' {
        1
    } else {
        1 + line_len(s.drop_first())
    }
}

/// The lines of a text, each with the newline that ends it. The last may have none.
pub open spec fn pieces(s: Seq<char>) -> Seq<Seq<char>>
    decreases s.len(),
    via pieces_end
{
    if s.len() == 0 {
        Seq::empty()
    } else {
        seq![s.take(line_len(s) as int)] + pieces(s.skip(line_len(s) as int))
    }
}

#[via_fn]
proof fn pieces_end(s: Seq<char>) {
    line_len_bounds(s);
}

/// A first line has a character, and no more than there are.
pub proof fn line_len_bounds(s: Seq<char>)
    ensures
        line_len(s) <= s.len(),
        s.len() > 0 ==> line_len(s) > 0,
    decreases s.len(),
{
    if s.len() > 0 {
        line_len_bounds(s.drop_first());
    }
}

/// The texts of a list, one after another.
pub open spec fn concat(parts: Seq<Seq<char>>) -> Seq<char>
    decreases parts.len(),
{
    if parts.len() == 0 {
        Seq::empty()
    } else {
        concat(parts.drop_last()) + parts.last()
    }
}

/// Putting a text in front of a list puts it in front of the whole.
pub proof fn concat_front(first: Seq<char>, rest: Seq<Seq<char>>)
    ensures
        concat(seq![first] + rest) == first + concat(rest),
    decreases rest.len(),
{
    let all = seq![first] + rest;
    if rest.len() == 0 {
        assert(all =~= seq![first]);
        assert(all.drop_last() =~= Seq::empty());
        assert(concat(all.drop_last()) =~= Seq::empty());
        assert(concat(all) =~= first + concat(rest));
    } else {
        concat_front(first, rest.drop_last());
        assert(all.drop_last() =~= seq![first] + rest.drop_last());
        assert(concat(all) =~= first + concat(rest));
    }
}

/// The lines of a text, put together, are the text.
pub proof fn pieces_make_the_text(s: Seq<char>)
    ensures
        concat(pieces(s)) == s,
    decreases s.len(),
{
    if s.len() > 0 {
        line_len_bounds(s);
        let n = line_len(s) as int;
        pieces_make_the_text(s.skip(n));
        concat_front(s.take(n), pieces(s.skip(n)));
        assert(s.take(n) + s.skip(n) =~= s);
    }
}

/// The lines of a text, each with the newline that ends it.
pub fn split_lines(s: &str) -> (r: Vec<String>)
    ensures
        texts(r@) == pieces(s@),
{
    let v = chars_of(s);
    let mut r: Vec<String> = Vec::new();
    let mut i: usize = 0;
    proof {
        assert(v@.skip(0) =~= s@);
        assert(texts(r@) + pieces(s@) =~= pieces(s@));
    }
    while i < v.len()
        invariant
            v@ == s@,
            i <= v.len(),
            texts(r@) + pieces(v@.skip(i as int)) == pieces(s@),
        decreases v.len() - i,
    {
        let mut n: usize = i;
        while n < v.len() && v[n] != '\n'
            invariant
                i <= n <= v.len(),
                i < v.len(),
                line_len(v@.skip(i as int)) == (n - i) + line_len(v@.skip(n as int)),
            decreases v.len() - n,
        {
            assert(v@.skip(n as int).drop_first() =~= v@.skip(n + 1));
            n += 1;
        }
        if n < v.len() {
            n += 1;
        }
        let piece = text_of(&v, i, n);
        proof {
            let rest = v@.skip(i as int);
            line_len_bounds(rest);
            assert(line_len(rest) == n - i);
            assert(rest.take(n - i) =~= piece@);
            assert(rest.skip(n - i) =~= v@.skip(n as int));
            assert(texts(r@.push(piece)) =~= texts(r@).push(piece@));
            assert(texts(r@) + (seq![piece@] + pieces(v@.skip(n as int))) =~= texts(r@).push(piece@) + pieces(
                v@.skip(n as int),
            ));
        }
        r.push(piece);
        i = n;
    }
    proof {
        assert(v@.skip(v@.len() as int) =~= Seq::empty());
        assert(pieces(v@.skip(i as int)) =~= Seq::empty());
        assert(texts(r@) + Seq::<Seq<char>>::empty() =~= texts(r@));
    }
    r
}

/// UTF-8 takes texts one by one: the bytes of two put together are the bytes of each.
pub proof fn encode_utf8_of_sum(a: Seq<char>, b: Seq<char>)
    ensures
        encode_utf8(a + b) == encode_utf8(a) + encode_utf8(b),
        byte_len(a + b) == byte_len(a) + byte_len(b),
    decreases a.len(),
{
    if a.len() == 0 {
        assert(a + b =~= b);
        assert(encode_utf8(a + b) =~= encode_utf8(a) + encode_utf8(b));
    } else {
        encode_utf8_of_sum(a.drop_first(), b);
        assert((a + b).drop_first() =~= a.drop_first() + b);
        assert((a + b)[0] == a[0]);
        assert(encode_utf8(a + b) =~= encode_utf8(a) + encode_utf8(b));
    }
}

// --- the first of a kind ---

/// Where the first element with a property stands.
pub open spec fn first_index<A>(s: Seq<A>, p: spec_fn(A) -> bool) -> Option<int>
    decreases s.len(),
{
    if s.len() == 0 {
        None
    } else {
        match first_index(s.drop_last(), p) {
            Some(i) => Some(i),
            None => if p(s.last()) {
                Some(s.len() - 1)
            } else {
                None
            },
        }
    }
}

/// An element with the property, with none before it, is the first.
pub proof fn first_index_is<A>(s: Seq<A>, p: spec_fn(A) -> bool, i: int)
    requires
        0 <= i < s.len(),
        p(s[i]),
        forall|j: int| 0 <= j < i ==> !p(#[trigger] s[j]),
    ensures
        first_index(s, p) == Some(i),
    decreases s.len(),
{
    if i == s.len() - 1 {
        assert forall|j: int| 0 <= j < s.drop_last().len() implies !p(#[trigger] s.drop_last()[j]) by {
            assert(s.drop_last()[j] == s[j]);
        }
        first_index_none(s.drop_last(), p);
    } else {
        assert(s.drop_last()[i] == s[i]);
        assert forall|j: int| 0 <= j < i implies !p(#[trigger] s.drop_last()[j]) by {
            assert(s.drop_last()[j] == s[j]);
        }
        first_index_is(s.drop_last(), p, i);
    }
}

/// Where no element has the property, there is no first.
pub proof fn first_index_none<A>(s: Seq<A>, p: spec_fn(A) -> bool)
    requires
        forall|j: int| 0 <= j < s.len() ==> !p(#[trigger] s[j]),
    ensures
        first_index(s, p) is None,
    decreases s.len(),
{
    if s.len() > 0 {
        assert(!p(s[s.len() - 1]));
        assert forall|j: int| 0 <= j < s.drop_last().len() implies !p(#[trigger] s.drop_last()[j]) by {
            assert(s.drop_last()[j] == s[j]);
        }
        first_index_none(s.drop_last(), p);
    }
}

/// The first element has the property, and none before it does.
pub proof fn first_index_means<A>(s: Seq<A>, p: spec_fn(A) -> bool)
    ensures
        match first_index(s, p) {
            Some(i) => 0 <= i < s.len() && p(s[i]) && forall|j: int| 0 <= j < i ==> !p(#[trigger] s[j]),
            None => forall|j: int| 0 <= j < s.len() ==> !p(#[trigger] s[j]),
        },
    decreases s.len(),
{
    if s.len() > 0 {
        first_index_means(s.drop_last(), p);
        match first_index(s.drop_last(), p) {
            Some(i) => {
                assert(s.drop_last()[i] == s[i]);
                assert forall|j: int| 0 <= j < i implies !p(#[trigger] s[j]) by {
                    assert(s.drop_last()[j] == s[j]);
                }
            },
            None => {
                assert forall|j: int| 0 <= j < s.len() - 1 implies !p(#[trigger] s[j]) by {
                    assert(s.drop_last()[j] == s[j]);
                }
            },
        }
    }
}

/// A path and a name below it, with one `/` between them.
pub open spec fn joined_path(base: Seq<char>, name: Seq<char>) -> Seq<char> {
    if base.len() == 0 {
        name
    } else if base.last() == '/' {
        base + name
    } else {
        base + "/"@ + name
    }
}

/// A path and a name below it.
pub fn join_path(base: &str, name: &str) -> (r: String)
    ensures
        r@ == joined_path(base@, name@),
{
    let v = chars_of(base);
    if v.len() == 0 {
        return name.to_owned();
    }
    if v[v.len() - 1] == '/' {
        cat2(base, name)
    } else {
        cat3(base, "/", name)
    }
}

/// What a list holds once one more is added.
pub proof fn push_contains<A>(s: Seq<A>, more: A, a: A)
    ensures
        s.push(more).contains(a) == (s.contains(a) || a == more),
{
    let all = s.push(more);
    if s.contains(a) {
        let i = choose|i: int| 0 <= i < s.len() && s[i] == a;
        assert(all[i] == a);
    }
    if a == more {
        assert(all[s.len() as int] == a);
    }
    if all.contains(a) && a != more {
        let i = choose|i: int| 0 <= i < all.len() && all[i] == a;
        assert(s[i] == a);
    }
}

/// A part of a text stands in it.
pub proof fn stands_inside(before: Seq<char>, part: Seq<char>, after: Seq<char>)
    ensures
        within(before + part + after, part),
{
    let all = before + part + after;
    let n = before.len() as int;
    assert(all.subrange(n, n + part.len()) =~= part);
    assert(stands_at(all, part, n));
}

/// What follows the last `c` of a text, where the last one is known.
pub proof fn after_last_of_sum(a: Seq<char>, c: char, b: Seq<char>)
    requires
        !b.contains(c),
    ensures
        after_last(a.push(c) + b, c) == b,
    decreases b.len(),
{
    let all = a.push(c) + b;
    if b.len() == 0 {
        assert(all =~= a.push(c));
        assert(after_last(all, c) =~= b);
    } else {
        assert(all.last() == b.last());
        assert(all.drop_last() =~= a.push(c) + b.drop_last());
        assert forall|i: int| 0 <= i < b.drop_last().len() implies b.drop_last()[i] != c by {
            assert(b.contains(b[i]));
        }
        assert(b.contains(b.last()));
        after_last_of_sum(a, c, b.drop_last());
        assert(after_last(all, c) =~= b);
    }
}

/// What follows the last `c` of a text ends it, and holds no `c`; where there is none, it is all.
pub proof fn after_last_means(s: Seq<char>, c: char)
    ensures
        after_last(s, c).is_suffix_of(s),
        !after_last(s, c).contains(c),
        !s.contains(c) ==> after_last(s, c) == s,
        s.contains(c) ==> s.len() > after_last(s, c).len() && s[s.len() - after_last(s, c).len() - 1] == c,
    decreases s.len(),
{
    if s.len() == 0 {
        assert(after_last(s, c) =~= s);
    } else if s.last() == c {
        assert(s[s.len() - 1] == c);
        assert(after_last(s, c) =~= s.subrange(s.len() as int, s.len() as int));
    } else {
        let rest = s.drop_last();
        after_last_means(rest, c);
        let tail = after_last(s, c);
        assert(tail =~= s.subrange(s.len() - tail.len(), s.len() as int)) by {
            let t = after_last(rest, c);
            assert(t =~= rest.subrange(rest.len() - t.len(), rest.len() as int));
        }
        if s.contains(c) {
            let i = choose|i: int| 0 <= i < s.len() && s[i] == c;
            assert(rest[i] == c);
        } else {
            assert forall|i: int| 0 <= i < rest.len() implies rest[i] != c by {
                assert(s.contains(s[i]));
            }
            assert(tail =~= s);
        }
        push_contains(after_last(rest, c), s.last(), c);
    }
}

/// Capitals are made small one by one, and nothing else changes.
pub proof fn lowered_means(s: Seq<char>, i: int)
    requires
        0 <= i < s.len(),
    ensures
        lowered(s).len() == s.len(),
        ('A' as u32) <= (s[i] as u32) <= ('Z' as u32) ==> (lowered(s)[i] as u32) == (s[i] as u32) + 32,
        !(('A' as u32) <= (s[i] as u32) <= ('Z' as u32)) ==> lowered(s)[i] == s[i],
{
    let c = s[i];
    if 65 <= (c as u32) <= 90 {
        assert((c as u32) + 32 <= 122);
    }
}

/// Making the capitals of two texts small makes those of the two together small.
pub proof fn lowered_of_sum(a: Seq<char>, b: Seq<char>)
    ensures
        lowered(a + b) == lowered(a) + lowered(b),
{
    assert(lowered(a + b) =~= lowered(a) + lowered(b));
}

/// Making capitals small a second time changes nothing.
pub proof fn lowered_twice(s: Seq<char>)
    ensures
        lowered(lowered(s)) == lowered(s),
{
    assert forall|i: int| 0 <= i < s.len() implies lowered(lowered(s))[i] == lowered(s)[i] by {
        let c = s[i];
        if 65 <= (c as u32) <= 90 {
            let n = (c as u32) + 32;
            assert(97 <= n <= 122);
            assert(((n as u8) as char) as u32 == n);
        }
    }
    assert(lowered(lowered(s)) =~= lowered(s));
}

/// The number that digits write.
pub open spec fn number(s: Seq<char>) -> nat
    decreases s.len(),
{
    if s.len() == 0 {
        0
    } else {
        (10 * number(s.drop_last()) + ((s.last() as u32) - ('0' as u32))) as nat
    }
}

/// What is written in decimal reads back as what it was, without a zero in front.
pub proof fn decimal_reads_back(n: nat)
    ensures
        number(decimal(n)) == n,
        decimal(n).len() > 0,
        forall|i: int| 0 <= i < decimal(n).len() ==> '0' <= #[trigger] decimal(n)[i] <= '9',
        n > 0 ==> decimal(n)[0] != '0',
    decreases n,
{
    let d = n % 10;
    assert(((48 + d) as u8) as char as u32 == 48 + d);
    if n < 10 {
        let s = decimal(n);
        assert(s.drop_last() =~= Seq::empty());
        assert(number(s.drop_last()) == 0);
        assert(s.last() as u32 == 48 + n);
    } else {
        decimal_reads_back(n / 10);
        let s = decimal(n);
        assert(s.drop_last() =~= decimal(n / 10));
        assert(s.last() as u32 == 48 + n % 10);
    }
}

/// Putting texts in order loses none and adds none.
pub proof fn sorted_texts_means(v: Seq<Seq<char>>, t: Seq<char>)
    ensures
        in_order(sorted_texts(v)),
        sorted_texts(v).len() == v.len(),
        sorted_texts(v).contains(t) == v.contains(t),
{
    text_order_is_total();
    v.lemma_sort_by_ensures(text_order());
    let s = sorted_texts(v);
    assert forall|i: int, j: int| 0 <= i <= j < s.len() implies #[trigger] text_le(s[i], s[j]) by {
        text_le_reflexive(s[i]);
        if i < j {
            assert(text_order()(s[i], s[j]));
        }
    }
    assert(s.to_multiset() =~= v.to_multiset());
    s.to_multiset_ensures();
    v.to_multiset_ensures();
    assert(s.to_multiset().len() == v.to_multiset().len());
    assert(s.contains(t) == (s.to_multiset().count(t) > 0));
    assert(v.contains(t) == (v.to_multiset().count(t) > 0));
}

/// Texts of which there are none or one are in order.
pub proof fn few_are_sorted(v: Seq<Seq<char>>)
    requires
        v.len() <= 1,
    ensures
        sorted_texts(v) == v,
{
    if v.len() > 0 {
        text_le_reflexive(v[0]);
    }
    one_order(v, v);
}

/// The lines of a text whose first line is known.
pub proof fn first_piece(line: Seq<char>, more: Seq<char>)
    requires
        !line.contains('\n'),
    ensures
        line_len(line.push('\n') + more) == line.len() + 1,
        pieces(line.push('\n') + more) == seq![line.push('\n')] + pieces(more),
{
    first_line_len(line, more);
    let all = line.push('\n') + more;
    let n = line.len() + 1;
    assert(all.take(n as int) =~= line.push('\n'));
    assert(all.skip(n as int) =~= more);
}

proof fn first_line_len(line: Seq<char>, more: Seq<char>)
    requires
        !line.contains('\n'),
    ensures
        line_len(line.push('\n') + more) == line.len() + 1,
    decreases line.len(),
{
    let all = line.push('\n') + more;
    if line.len() > 0 {
        let rest = line.drop_first();
        assert forall|i: int| 0 <= i < rest.len() implies rest[i] != '\n' by {
            assert(line.contains(line[i + 1]));
        }
        first_line_len(rest, more);
        assert(all.drop_first() =~= rest.push('\n') + more);
        assert(line.contains(line[0]));
        assert(all[0] == line[0]);
    } else {
        assert(all[0] == '\n');
    }
}

/// Each line of a text is a part of it.
pub proof fn a_piece_is_a_part(s: Seq<char>, k: int) -> (i: int)
    requires
        0 <= k < pieces(s).len(),
    ensures
        0 <= i,
        i + pieces(s)[k].len() <= s.len(),
        pieces(s)[k] == s.subrange(i, i + pieces(s)[k].len()),
    decreases s.len(),
{
    line_len_bounds(s);
    let n = line_len(s) as int;
    if k == 0 {
        assert(pieces(s)[0] =~= s.subrange(0, n));
        0
    } else {
        let rest = s.skip(n);
        let j = a_piece_is_a_part(rest, k - 1);
        assert(pieces(s)[k] == pieces(rest)[k - 1]);
        assert(s.subrange(n + j, n + j + pieces(s)[k].len()) =~= rest.subrange(j, j + pieces(s)[k].len()));
        n + j
    }
}

/// What an integer is written as tells it: no two are written alike.
pub proof fn decimal_int_tells(a: int, b: int)
    requires
        decimal_int(a) == decimal_int(b),
    ensures
        a == b,
{
    let (x, y) = (
        if a < 0 {
            (-a) as nat
        } else {
            a as nat
        },
        if b < 0 {
            (-b) as nat
        } else {
            b as nat
        },
    );
    decimal_reads_back(x);
    decimal_reads_back(y);
    let s = decimal_int(a);
    let t = decimal_int(b);
    if a < 0 {
        assert(s[0] == '-');
        if b < 0 {
            assert(decimal(x) =~= s.skip(1));
            assert(decimal(y) =~= t.skip(1));
        } else {
            assert('0' <= decimal(y)[0]);
        }
    } else if b < 0 {
        assert(t[0] == '-');
        assert('0' <= decimal(x)[0]);
    }
}

/// What stands in a text stands in every text that holds it.
pub proof fn inside_stays(before: Seq<char>, hay: Seq<char>, after: Seq<char>, part: Seq<char>)
    requires
        within(hay, part),
    ensures
        within(before + hay + after, part),
{
    let all = before + hay + after;
    let k = choose|k: int| stands_at(hay, part, k);
    let m = before.len() as int;
    assert(all.subrange(m + k, m + k + part.len()) =~= hay.subrange(k, k + part.len()));
    assert(stands_at(all, part, m + k));
}

/// What stands in one of six texts stands in what they make together.
pub proof fn one_of_six(
    a: Seq<char>,
    b: Seq<char>,
    c: Seq<char>,
    d: Seq<char>,
    e: Seq<char>,
    f: Seq<char>,
    part: Seq<char>,
)
    requires
        within(a, part) || within(b, part) || within(c, part) || within(d, part) || within(e, part) || within(
            f,
            part,
        ),
    ensures
        within(a + b + c + d + e + f, part),
{
    let all = a + b + c + d + e + f;
    let none = Seq::<char>::empty();
    if within(a, part) {
        inside_stays(none, a, b + c + d + e + f, part);
        assert(none + a + (b + c + d + e + f) =~= all);
    } else if within(b, part) {
        inside_stays(a, b, c + d + e + f, part);
        assert(a + b + (c + d + e + f) =~= all);
    } else if within(c, part) {
        inside_stays(a + b, c, d + e + f, part);
        assert(a + b + c + (d + e + f) =~= all);
    } else if within(d, part) {
        inside_stays(a + b + c, d, e + f, part);
        assert(a + b + c + d + (e + f) =~= all);
    } else if within(e, part) {
        inside_stays(a + b + c + d, e, f, part);
    } else {
        inside_stays(a + b + c + d + e, f, none, part);
        assert(a + b + c + d + e + f + none =~= all);
    }
}

/// Every part of a list stands in what the list makes.
pub proof fn a_part_is_joined(parts: Seq<Seq<char>>, sep: Seq<char>, i: int)
    requires
        0 <= i < parts.len(),
    ensures
        within(joined(parts, sep), parts[i]),
    decreases parts.len(),
{
    let all = joined(parts, sep);
    if parts.len() == 1 {
        stands_inside(Seq::empty(), parts[0], Seq::empty());
        assert(Seq::<char>::empty() + parts[0] + Seq::empty() =~= all);
    } else if i == parts.len() - 1 {
        let before = joined(parts.drop_last(), sep) + sep;
        stands_inside(before, parts[i], Seq::empty());
        assert(before + parts[i] + Seq::empty() =~= all);
    } else {
        a_part_is_joined(parts.drop_last(), sep, i);
        let before = joined(parts.drop_last(), sep);
        inside_stays(Seq::empty(), before, sep + parts.last(), parts[i]);
        assert(Seq::<char>::empty() + before + (sep + parts.last()) =~= all);
    }
}

/// A list is made of its parts and what stands between them, in order: one that goes on after
/// another is the two with it between them.
pub proof fn a_list_goes_on(parts: Seq<Seq<char>>, more: Seq<char>, sep: Seq<char>)
    ensures
        joined(Seq::empty(), sep).len() == 0,
        joined(seq![more], sep) == more,
        parts.len() > 0 ==> joined(parts.push(more), sep) == joined(parts, sep) + sep + more,
{
    assert(parts.push(more).drop_last() =~= parts);
}

/// What trimming takes off is blank, it is taken off at the ends alone, and what is left neither
/// begins nor ends with a blank.
pub proof fn trimming_takes_off_blanks(s: Seq<char>) -> (r: (Seq<char>, Seq<char>))
    ensures
        s == r.0 + trimmed(s) + r.1,
        is_blank(r.0),
        is_blank(r.1),
        trimmed(s).len() > 0 ==> !is_space(trimmed(s)[0]) && !is_space(trimmed(s).last()),
{
    let start = front_trimmed(s);
    let rest = trimmed_start(s);
    let end = end_trimmed(rest);
    assert(s =~= start + trimmed(s) + end);
    if trimmed(s).len() > 0 {
        assert(trimmed(s)[0] == rest[0]);
    }
    (start, end)
}

proof fn front_trimmed(s: Seq<char>) -> (r: Seq<char>)
    ensures
        s == r + trimmed_start(s),
        is_blank(r),
        trimmed_start(s).len() > 0 ==> !is_space(trimmed_start(s)[0]),
    decreases s.len(),
{
    if s.len() > 0 && is_space(s[0]) {
        let r = front_trimmed(s.drop_first());
        let all = seq![s[0]] + r;
        let rest = trimmed_start(s.drop_first());
        assert(s =~= seq![s[0]] + s.drop_first());
        assert(seq![s[0]] + (r + rest) =~= all + rest);
        all
    } else {
        assert(s =~= Seq::<char>::empty() + s);
        Seq::empty()
    }
}

proof fn end_trimmed(s: Seq<char>) -> (r: Seq<char>)
    ensures
        s == trimmed_end(s) + r,
        is_blank(r),
        trimmed_end(s).len() > 0 ==> !is_space(trimmed_end(s).last()),
    decreases s.len(),
{
    if s.len() > 0 && is_space(s.last()) {
        let r = end_trimmed(s.drop_last());
        let all = r.push(s.last());
        let rest = trimmed_end(s.drop_last());
        assert(s =~= s.drop_last().push(s.last()));
        assert((rest + r).push(s.last()) =~= rest + all);
        all
    } else {
        assert(s =~= s + Seq::<char>::empty());
        Seq::empty()
    }
}

/// Which characters are blank, of those that programs are written in: the space, the tabulator and
/// what ends a line; no other that is printed.
pub proof fn what_is_blank(c: char)
    ensures
        c == ' ' || c == '\t' || c == '\n' || c == '\r' ==> is_space(c),
        33 <= (c as u32) <= 126 ==> !is_space(c),
{
}

/// Texts are in order by the first character that tells them apart, and a text comes before those
/// that go on after it.
pub proof fn what_comes_first(same: Seq<char>, x: char, a: Seq<char>, y: char, b: Seq<char>)
    ensures
        text_le(same, same + b),
        (x as u32) < (y as u32) ==> text_le(same + seq![x] + a, same + seq![y] + b) && !text_le(
            same + seq![y] + b,
            same + seq![x] + a,
        ),
    decreases same.len(),
{
    let left = same + seq![x] + a;
    let right = same + seq![y] + b;
    if same.len() > 0 {
        let rest = same.drop_first();
        what_comes_first(rest, x, a, y, b);
        assert(left.drop_first() =~= rest + seq![x] + a);
        assert(right.drop_first() =~= rest + seq![y] + b);
        assert((same + b).drop_first() =~= rest + b);
        assert(left[0] == right[0]);
    }
}

/// A path below another begins with it and ends with what it is called there, with one mark
/// between them.
pub proof fn a_path_below_another(base: Seq<char>, name: Seq<char>)
    ensures
        base.is_prefix_of(joined_path(base, name)),
        name.is_suffix_of(joined_path(base, name)),
        base.len() > 0 && base.last() != '/' ==> joined_path(base, name).len() == base.len() + 1 + name.len()
            && joined_path(base, name)[base.len() as int] == '/',
        base.len() == 0 || base.last() == '/' ==> joined_path(base, name).len() == base.len() + name.len(),
{
    reveal_strlit("/");
    let all = joined_path(base, name);
    assert(all.subrange(0, base.len() as int) =~= base);
    assert(all.subrange(all.len() - name.len(), all.len() as int) =~= name);
}

/// The first of some words that stands in a text is one, and the one that no other comes before; and
/// there is one wherever any does.
pub proof fn the_first_word_is_one(hay: Seq<char>, words: Seq<Seq<char>>, i: int, j: int)
    ensures
        first_within(hay, words, i) && first_within(hay, words, j) ==> i == j,
        first_within(hay, words, i) ==> any_within(hay, words),
        first_within(hay, words, i) && 0 <= j < words.len() && within(hay, words[j]) ==> i <= j,
        first_prefix(hay, words, i) && first_prefix(hay, words, j) ==> i == j,
        first_prefix(hay, words, i) && 0 <= j < words.len() && words[j].is_prefix_of(hay) ==> i <= j,
{
}

} // verus!
