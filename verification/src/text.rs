//! Text as sequences of characters: classes of characters, copying, comparing
//! and trimming. A string is the sequence of its characters, so every function
//! here is exact on all of Unicode.

use vstd::prelude::*;

verus! {

/// Trusted: `String::push` appends one character to the end of the string.
pub assume_specification[ String::push ](s: &mut String, c: char)
    ensures
        final(s)@ == old(s)@.push(c),
;

/// The contents of a sequence of strings.
pub open spec fn views(v: Seq<String>) -> Seq<Seq<char>> {
    Seq::new(v.len(), |i: int| v[i]@)
}

/// The contents of an optional string slice.
pub open spec fn opt_str(o: Option<&str>) -> Option<Seq<char>> {
    match o {
        Some(s) => Some(s@),
        None => None,
    }
}

/// The contents of an optional string.
pub open spec fn opt_string(o: Option<String>) -> Option<Seq<char>> {
    match o {
        Some(s) => Some(s@),
        None => None,
    }
}

pub broadcast proof fn lemma_views_push(v: Seq<String>, s: String)
    ensures
        #[trigger] views(v.push(s)) == views(v).push(s@),
{
    assert(views(v.push(s)) =~= views(v).push(s@));
}

// ---------------------------------------------------------------------------
// Characters
// ---------------------------------------------------------------------------

/// The characters with the Unicode `White_Space` property.
pub open spec fn white(c: char) -> bool {
    ||| '\u{9}' <= c <= '\u{d}'
    ||| c == '\u{20}'
    ||| c == '\u{85}'
    ||| c == '\u{a0}'
    ||| c == '\u{1680}'
    ||| '\u{2000}' <= c <= '\u{200a}'
    ||| c == '\u{2028}'
    ||| c == '\u{2029}'
    ||| c == '\u{202f}'
    ||| c == '\u{205f}'
    ||| c == '\u{3000}'
}

pub fn is_white(c: char) -> (r: bool)
    ensures
        r == white(c),
{
    ('\u{9}' <= c && c <= '\u{d}') || c == '\u{20}' || c == '\u{85}' || c == '\u{a0}' || c
        == '\u{1680}' || ('\u{2000}' <= c && c <= '\u{200a}') || c == '\u{2028}' || c == '\u{2029}'
        || c == '\u{202f}' || c == '\u{205f}' || c == '\u{3000}'
}

/// A class of characters that text is trimmed of or split at.
#[derive(Clone, Copy, PartialEq, Eq, Structural)]
pub enum Class {
    /// Unicode white space.
    Space,
    /// One character.
    Only(char),
}

pub open spec fn in_class(c: char, k: Class) -> bool {
    match k {
        Class::Space => white(c),
        Class::Only(x) => c == x,
    }
}

pub fn is_in_class(c: char, k: Class) -> (r: bool)
    ensures
        r == in_class(c, k),
{
    match k {
        Class::Space => is_white(c),
        Class::Only(x) => c == x,
    }
}

// ---------------------------------------------------------------------------
// Strings and vectors of characters
// ---------------------------------------------------------------------------

/// The characters of `s`, in order.
pub fn chars_of(s: &str) -> (r: Vec<char>)
    ensures
        r@ == s@,
{
    let mut r: Vec<char> = Vec::new();
    for c in it: s.chars()
        invariant
            r@ == it.seq().take(it.index() as int),
            it.seq() == s@,
    {
        r.push(c);
        assert(it.seq().take(it.index() as int).push(c) =~= it.seq().take(it.index() + 1));
    }
    assert(s@.take(s@.len() as int) =~= s@);
    r
}

/// The string made of the characters `v[from..to]`.
pub fn string_of(v: &Vec<char>, from: usize, to: usize) -> (r: String)
    requires
        from <= to <= v@.len(),
    ensures
        r@ == v@.subrange(from as int, to as int),
{
    let mut r = String::new();
    let mut i: usize = from;
    while i < to
        invariant
            from <= i <= to <= v@.len(),
            r@ == v@.subrange(from as int, i as int),
        decreases to - i,
    {
        r.push(v[i]);
        assert(v@.subrange(from as int, i as int).push(v@[i as int]) =~= v@.subrange(
            from as int,
            i + 1,
        ));
        i = i + 1;
    }
    r
}

/// `a == b`, character by character.
pub fn same(a: &str, b: &str) -> (r: bool)
    ensures
        r == (a@ == b@),
{
    let x = chars_of(a);
    let y = chars_of(b);
    if x.len() != y.len() {
        return false;
    }
    let mut i: usize = 0;
    while i < x.len()
        invariant
            i <= x.len(),
            x@ == a@,
            y@ == b@,
            x.len() == y.len(),
            forall|j: int| 0 <= j < i ==> x@[j] == y@[j],
        decreases x.len() - i,
    {
        if x[i] != y[i] {
            return false;
        }
        i = i + 1;
    }
    assert(x@ =~= y@);
    true
}

/// A copy of a vector of strings.
pub fn copy_strings(v: &Vec<String>) -> (r: Vec<String>)
    ensures
        views(r@) == views(v@),
{
    let mut r: Vec<String> = Vec::new();
    let mut i: usize = 0;
    while i < v.len()
        invariant
            i <= v.len(),
            r.len() == i,
            forall|j: int| 0 <= j < i ==> r@[j]@ == v@[j]@,
        decreases v.len() - i,
    {
        r.push(v[i].clone());
        i = i + 1;
    }
    assert(views(r@) =~= views(v@));
    r
}

/// A copy of an optional string.
pub fn copy_option(o: &Option<String>) -> (r: Option<String>)
    ensures
        opt_string(r) == opt_string(*o),
{
    match o {
        Some(s) => Some(s.clone()),
        None => None,
    }
}

/// Adds `s` to the end of `v`.
pub fn push_text(v: &mut Vec<String>, s: &str)
    ensures
        views(final(v)@) == views(old(v)@).push(s@),
{
    let s = s.to_owned();
    proof {
        lemma_views_push(v@, s);
    }
    v.push(s);
}

/// Adds copies of all of `more` to the end of `v`.
pub fn push_all(v: &mut Vec<String>, more: &Vec<String>)
    ensures
        views(final(v)@) == views(old(v)@) + views(more@),
{
    let ghost start = views(v@);
    let mut i: usize = 0;
    assert(start + views(more@).take(0) =~= start);
    while i < more.len()
        invariant
            i <= more.len(),
            views(v@) == start + views(more@).take(i as int),
        decreases more.len() - i,
    {
        push_text(v, more[i].as_str());
        assert(start + views(more@).take(i + 1) =~= (start + views(more@).take(i as int)).push(
            more@[i as int]@,
        ));
        i = i + 1;
    }
    assert(views(more@).take(more@.len() as int) =~= views(more@));
}

/// Whether two vectors hold the same strings in the same order.
pub fn same_strings(a: &Vec<String>, b: &Vec<String>) -> (r: bool)
    ensures
        r == (views(a@) == views(b@)),
{
    if a.len() != b.len() {
        assert(views(a@).len() != views(b@).len());
        return false;
    }
    let mut i: usize = 0;
    while i < a.len()
        invariant
            i <= a.len(),
            a.len() == b.len(),
            forall|j: int| 0 <= j < i ==> a@[j]@ == b@[j]@,
        decreases a.len() - i,
    {
        if !(a[i] == b[i]) {
            assert(views(a@)[i as int] != views(b@)[i as int]);
            return false;
        }
        i = i + 1;
    }
    assert(views(a@) =~= views(b@));
    true
}

// ---------------------------------------------------------------------------
// Trimming
// ---------------------------------------------------------------------------

/// `s` without its longest prefix of characters in `k`.
pub open spec fn trimmed_start(s: Seq<char>, k: Class) -> Seq<char>
    decreases s.len(),
{
    if s.len() > 0 && in_class(s[0], k) {
        trimmed_start(s.subrange(1, s.len() as int), k)
    } else {
        s
    }
}

/// `s` without its longest suffix of characters in `k`.
pub open spec fn trimmed_end(s: Seq<char>, k: Class) -> Seq<char>
    decreases s.len(),
{
    if s.len() > 0 && in_class(s.last(), k) {
        trimmed_end(s.drop_last(), k)
    } else {
        s
    }
}

pub open spec fn trimmed_of(s: Seq<char>, k: Class) -> Seq<char> {
    trimmed_end(trimmed_start(s, k), k)
}

/// `s` without leading and trailing white space.
pub open spec fn trimmed(s: Seq<char>) -> Seq<char> {
    trimmed_of(s, Class::Space)
}

/// The first `n` characters are in `k` and the next one, if any, is not.
proof fn lemma_trimmed_start_at(s: Seq<char>, k: Class, n: int)
    requires
        0 <= n <= s.len(),
        forall|j: int| 0 <= j < n ==> in_class(#[trigger] s[j], k),
        n < s.len() ==> !in_class(s[n], k),
    ensures
        trimmed_start(s, k) == s.subrange(n, s.len() as int),
    decreases n,
{
    if n == 0 {
        assert(s.subrange(0, s.len() as int) =~= s);
    } else {
        let t = s.subrange(1, s.len() as int);
        assert(in_class(s[0], k));
        assert forall|j: int| 0 <= j < n - 1 implies in_class(#[trigger] t[j], k) by {
            assert(t[j] == s[j + 1]);
        }
        lemma_trimmed_start_at(t, k, n - 1);
        assert(t.subrange(n - 1, t.len() as int) =~= s.subrange(n, s.len() as int));
    }
}

proof fn lemma_trimmed_end_at(s: Seq<char>, k: Class, n: int)
    requires
        0 <= n <= s.len(),
        forall|j: int| n <= j < s.len() ==> in_class(#[trigger] s[j], k),
        0 < n ==> !in_class(s[n - 1], k),
    ensures
        trimmed_end(s, k) == s.subrange(0, n),
    decreases s.len() - n,
{
    if n == s.len() {
        assert(s.subrange(0, n) =~= s);
    } else {
        let t = s.drop_last();
        assert(in_class(s[s.len() - 1], k));
        lemma_trimmed_end_at(t, k, n);
        assert(t.subrange(0, n) =~= s.subrange(0, n));
    }
}

fn start_of(v: &Vec<char>, k: Class) -> (n: usize)
    ensures
        n <= v@.len(),
        trimmed_start(v@, k) == v@.subrange(n as int, v@.len() as int),
{
    let mut n: usize = 0;
    while n < v.len() && is_in_class(v[n], k)
        invariant
            n <= v.len(),
            forall|j: int| 0 <= j < n ==> in_class(#[trigger] v@[j], k),
        decreases v.len() - n,
    {
        n = n + 1;
    }
    proof {
        lemma_trimmed_start_at(v@, k, n as int);
    }
    n
}

fn end_of(v: &Vec<char>, from: usize, k: Class) -> (n: usize)
    requires
        from <= v@.len(),
    ensures
        from <= n <= v@.len(),
        trimmed_end(v@.subrange(from as int, v@.len() as int), k) == v@.subrange(
            from as int,
            n as int,
        ),
{
    let mut n: usize = v.len();
    while n > from && is_in_class(v[n - 1], k)
        invariant
            from <= n <= v.len(),
            forall|j: int| n <= j < v.len() ==> in_class(#[trigger] v@[j], k),
        decreases n - from,
    {
        n = n - 1;
    }
    proof {
        let t = v@.subrange(from as int, v@.len() as int);
        assert forall|j: int| n - from <= j < t.len() implies in_class(#[trigger] t[j], k) by {
            assert(t[j] == v@[j + from]);
        }
        lemma_trimmed_end_at(t, k, n - from);
        assert(t.subrange(0, n - from) =~= v@.subrange(from as int, n as int));
    }
    n
}

/// `s` without leading characters in `k`.
pub fn trim_start_of(s: &str, k: Class) -> (r: String)
    ensures
        r@ == trimmed_start(s@, k),
{
    let v = chars_of(s);
    let n = start_of(&v, k);
    string_of(&v, n, v.len())
}

/// `s` without leading and trailing characters in `k`.
pub fn trim_of(s: &str, k: Class) -> (r: String)
    ensures
        r@ == trimmed_of(s@, k),
{
    let v = chars_of(s);
    let from = start_of(&v, k);
    let to = end_of(&v, from, k);
    string_of(&v, from, to)
}

/// `s` without leading and trailing white space.
pub fn trim(s: &str) -> (r: String)
    ensures
        r@ == trimmed(s@),
{
    trim_of(s, Class::Space)
}

/// Whether nothing but white space is left of `s`.
pub fn is_blank(s: &str) -> (r: bool)
    ensures
        r == (trimmed(s@).len() == 0),
{
    let t = trim(s);
    t.as_str().is_empty()
}

/// What trimming leaves is a piece of the text that neither begins nor ends
/// in the class; and it is all of the text when the text does neither.
pub proof fn lemma_trimmed_of(s: Seq<char>, k: Class)
    ensures
        exists|a: int, b: int|
            0 <= a <= b <= s.len() && #[trigger] s.subrange(a, b) == trimmed_of(s, k),
        trimmed_of(s, k).len() > 0 ==> !in_class(trimmed_of(s, k)[0], k) && !in_class(
            trimmed_of(s, k).last(),
            k,
        ),
        s.len() > 0 && !in_class(s[0], k) && !in_class(s.last(), k) ==> trimmed_of(s, k) == s,
        s.len() == 0 ==> trimmed_of(s, k) == s,
{
    lemma_trimmed_start(s, k);
    let t = trimmed_start(s, k);
    lemma_trimmed_end(t, k);
    let u = trimmed_end(t, k);
    let a = s.len() - t.len();
    let b = a + u.len();
    assert(s.subrange(a, b) =~= u);
    if u.len() > 0 {
        assert(u[0] == t[0]);
    }
}

pub proof fn lemma_trimmed_start(s: Seq<char>, k: Class)
    ensures
        trimmed_start(s, k).len() <= s.len(),
        trimmed_start(s, k) == s.subrange(s.len() - trimmed_start(s, k).len(), s.len() as int),
        trimmed_start(s, k).len() > 0 ==> !in_class(trimmed_start(s, k)[0], k),
        forall|j: int|
            0 <= j < s.len() - trimmed_start(s, k).len() ==> in_class(#[trigger] s[j], k),
    decreases s.len(),
{
    if s.len() > 0 && in_class(s[0], k) {
        let t = s.subrange(1, s.len() as int);
        lemma_trimmed_start(t, k);
        let r = trimmed_start(t, k);
        assert(r =~= s.subrange(s.len() - r.len(), s.len() as int));
        assert forall|j: int| 0 <= j < s.len() - r.len() implies in_class(#[trigger] s[j], k) by {
            if j > 0 {
                assert(t[j - 1] == s[j]);
            }
        }
    } else {
        assert(s.subrange(0, s.len() as int) =~= s);
    }
}

pub proof fn lemma_trimmed_end(s: Seq<char>, k: Class)
    ensures
        trimmed_end(s, k).len() <= s.len(),
        trimmed_end(s, k) == s.subrange(0, trimmed_end(s, k).len() as int),
        trimmed_end(s, k).len() > 0 ==> !in_class(trimmed_end(s, k).last(), k),
        forall|j: int| trimmed_end(s, k).len() <= j < s.len() ==> in_class(#[trigger] s[j], k),
    decreases s.len(),
{
    if s.len() > 0 && in_class(s.last(), k) {
        let t = s.drop_last();
        lemma_trimmed_end(t, k);
        let r = trimmed_end(t, k);
        assert(r =~= s.subrange(0, r.len() as int));
        assert forall|j: int| r.len() <= j < s.len() implies in_class(#[trigger] s[j], k) by {
            if j < s.len() - 1 {
                assert(t[j] == s[j]);
            }
        }
    } else {
        assert(s.subrange(0, s.len() as int) =~= s);
    }
}

} // verus!
