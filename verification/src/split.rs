//! Searching text for text, and cutting it into pieces and lines.

use crate::text;
use crate::text::{chars_of, is_in_class, string_of, Class};
use vstd::prelude::*;

verus! {

// ---------------------------------------------------------------------------
// Searching
// ---------------------------------------------------------------------------

/// `n` stands in `h` at position `i`.
pub open spec fn occurs_at(h: Seq<char>, n: Seq<char>, i: int) -> bool {
    0 <= i && i + n.len() <= h.len() && h.subrange(i, i + n.len()) == n
}

/// `n` stands somewhere in `h`.
pub open spec fn has(h: Seq<char>, n: Seq<char>) -> bool {
    exists|i: int| occurs_at(h, n, i)
}

/// `i` is the first position at which `n` stands in `h`.
pub open spec fn first_at(h: Seq<char>, n: Seq<char>, i: int) -> bool {
    occurs_at(h, n, i) && forall|j: int| j < i ==> !occurs_at(h, n, j)
}

/// `i` is the last position at which `n` stands in `h`.
pub open spec fn last_at(h: Seq<char>, n: Seq<char>, i: int) -> bool {
    occurs_at(h, n, i) && forall|j: int| j > i ==> !occurs_at(h, n, j)
}

/// The first position at which `n` stands in `h`.
pub open spec fn first_of(h: Seq<char>, n: Seq<char>) -> Option<int> {
    if has(h, n) {
        Some(choose|i: int| first_at(h, n, i))
    } else {
        None
    }
}

/// The last position at which `n` stands in `h`.
pub open spec fn last_of(h: Seq<char>, n: Seq<char>) -> Option<int> {
    if has(h, n) {
        Some(choose|i: int| last_at(h, n, i))
    } else {
        None
    }
}

pub proof fn lemma_first_of(h: Seq<char>, n: Seq<char>, i: int)
    requires
        first_at(h, n, i),
    ensures
        first_of(h, n) == Some(i),
{
    let c = choose|k: int| first_at(h, n, k);
    assert(first_at(h, n, c));
    assert(!(c < i));
    assert(!(i < c));
}

pub proof fn lemma_last_of(h: Seq<char>, n: Seq<char>, i: int)
    requires
        last_at(h, n, i),
    ensures
        last_of(h, n) == Some(i),
{
    let c = choose|k: int| last_at(h, n, k);
    assert(last_at(h, n, c));
    assert(!(c > i));
    assert(!(i > c));
}

pub fn stands_at(h: &Vec<char>, n: &Vec<char>, i: usize) -> (r: bool)
    requires
        i + n@.len() <= h@.len(),
    ensures
        r == occurs_at(h@, n@, i as int),
{
    let mut k: usize = 0;
    while k < n.len()
        invariant
            k <= n.len(),
            i + n.len() <= h.len(),
            forall|j: int| 0 <= j < k ==> h@[i + j] == n@[j],
        decreases n.len() - k,
    {
        if h[i + k] != n[k] {
            assert(h@.subrange(i as int, i + n@.len())[k as int] != n@[k as int]);
            return false;
        }
        k = k + 1;
    }
    assert(h@.subrange(i as int, i + n@.len()) =~= n@);
    true
}

fn find_in(h: &Vec<char>, n: &Vec<char>) -> (r: Option<usize>)
    ensures
        match r {
            Some(i) => first_of(h@, n@) == Some(i as int) && occurs_at(h@, n@, i as int),
            None => first_of(h@, n@) is None,
        },
{
    if n.len() > h.len() {
        return None;
    }
    let last: usize = h.len() - n.len();
    let mut i: usize = 0;
    while i <= last
        invariant
            n.len() <= h.len(),
            last == h.len() - n.len(),
            i <= last + 1,
            forall|j: int| j < i ==> !occurs_at(h@, n@, j),
        decreases last + 1 - i,
    {
        if stands_at(h, n, i) {
            proof {
                assert(first_at(h@, n@, i as int));
                lemma_first_of(h@, n@, i as int);
            }
            return Some(i);
        }
        if i == last {
            return None;
        }
        i = i + 1;
    }
    None
}

fn rfind_in(h: &Vec<char>, n: &Vec<char>) -> (r: Option<usize>)
    ensures
        match r {
            Some(i) => last_of(h@, n@) == Some(i as int) && occurs_at(h@, n@, i as int),
            None => last_of(h@, n@) is None,
        },
{
    if n.len() > h.len() {
        return None;
    }
    let mut i: usize = h.len() - n.len();
    loop
        invariant
            n.len() <= h.len(),
            i <= h.len() - n.len(),
            forall|j: int| j > i ==> !occurs_at(h@, n@, j),
        decreases i,
    {
        if stands_at(h, n, i) {
            proof {
                assert(last_at(h@, n@, i as int));
                lemma_last_of(h@, n@, i as int);
            }
            return Some(i);
        }
        if i == 0 {
            return None;
        }
        i = i - 1;
    }
}

/// Whether `n` stands in `h`.
pub fn contains(h: &str, n: &str) -> (r: bool)
    ensures
        r == has(h@, n@),
{
    find_in(&chars_of(h), &chars_of(n)).is_some()
}

/// `n` stands in `h` at position `i`, between white space or the ends of `h`.
pub open spec fn apart_at(h: Seq<char>, n: Seq<char>, i: int) -> bool {
    occurs_at(h, n, i) && (i == 0 || text::white(h[i - 1])) && (i + n.len() == h.len()
        || text::white(h[i + n.len()]))
}

/// `n` stands somewhere in `h` between white space or the ends of `h`.
pub open spec fn stands_apart(h: Seq<char>, n: Seq<char>) -> bool {
    exists|i: int| apart_at(h, n, i)
}

/// The position, in characters, of the first `n` in `h`.
pub fn find(h: &str, n: &str) -> (r: Option<usize>)
    ensures
        match r {
            Some(i) => first_of(h@, n@) == Some(i as int) && occurs_at(h@, n@, i as int),
            None => first_of(h@, n@) is None,
        },
{
    find_in(&chars_of(h), &chars_of(n))
}

/// The position, in characters, of the last `n` in `h`.
pub fn rfind(h: &str, n: &str) -> (r: Option<usize>)
    ensures
        match r {
            Some(i) => last_of(h@, n@) == Some(i as int) && occurs_at(h@, n@, i as int),
            None => last_of(h@, n@) is None,
        },
{
    rfind_in(&chars_of(h), &chars_of(n))
}

/// The characters `from..to` of `s`.
pub fn slice(s: &str, from: usize, to: usize) -> (r: String)
    requires
        from <= to <= s@.len(),
    ensures
        r@ == s@.subrange(from as int, to as int),
{
    string_of(&chars_of(s), from, to)
}

/// Whether `s` begins with `p`.
pub fn starts_with(s: &str, p: &str) -> (r: bool)
    ensures
        r == p@.is_prefix_of(s@),
{
    let h = chars_of(s);
    let n = chars_of(p);
    n.len() <= h.len() && stands_at(&h, &n, 0)
}

/// Whether `s` ends with `p`.
pub fn ends_with(s: &str, p: &str) -> (r: bool)
    ensures
        r == p@.is_suffix_of(s@),
{
    let h = chars_of(s);
    let n = chars_of(p);
    n.len() <= h.len() && stands_at(&h, &n, h.len() - n.len())
}

/// What is left of `s` behind the prefix `p`.
pub open spec fn without_prefix(s: Seq<char>, p: Seq<char>) -> Option<Seq<char>> {
    if p.is_prefix_of(s) {
        Some(s.subrange(p.len() as int, s.len() as int))
    } else {
        None
    }
}

/// What is left of `s` before the suffix `p`.
pub open spec fn without_suffix(s: Seq<char>, p: Seq<char>) -> Option<Seq<char>> {
    if p.is_suffix_of(s) {
        Some(s.subrange(0, s.len() - p.len()))
    } else {
        None
    }
}

pub fn strip_prefix(s: &str, p: &str) -> (r: Option<String>)
    ensures
        text::opt_string(r) == without_prefix(s@, p@),
{
    if starts_with(s, p) {
        let v = chars_of(s);
        Some(string_of(&v, chars_of(p).len(), v.len()))
    } else {
        None
    }
}

pub fn strip_suffix(s: &str, p: &str) -> (r: Option<String>)
    ensures
        text::opt_string(r) == without_suffix(s@, p@),
{
    if ends_with(s, p) {
        let v = chars_of(s);
        Some(string_of(&v, 0, v.len() - chars_of(p).len()))
    } else {
        None
    }
}

/// `s` cut in two around the first `n`.
pub open spec fn cut_once(s: Seq<char>, n: Seq<char>) -> Option<(Seq<char>, Seq<char>)> {
    match first_of(s, n) {
        Some(i) => Some((s.subrange(0, i), s.subrange(i + n.len(), s.len() as int))),
        None => None,
    }
}

pub fn split_once(s: &str, n: &str) -> (r: Option<(String, String)>)
    ensures
        match r {
            Some(p) => cut_once(s@, n@) == Some((p.0@, p.1@)),
            None => cut_once(s@, n@) is None,
        },
{
    let h = chars_of(s);
    let m = chars_of(n);
    match find_in(&h, &m) {
        Some(i) => {
            assert(i + m.len() <= h.len());
            Some((string_of(&h, 0, i), string_of(&h, i + m.len(), h.len())))
        },
        None => None,
    }
}

// ---------------------------------------------------------------------------
// Pieces and lines
// ---------------------------------------------------------------------------

/// The pieces of `s` between the characters in `k`: always at least one, the
/// first and last possibly empty.
pub open spec fn pieces(s: Seq<char>, k: Class) -> Seq<Seq<char>>
    decreases s.len(),
{
    if s.len() == 0 {
        seq![Seq::<char>::empty()]
    } else {
        let before = pieces(s.drop_last(), k);
        if text::in_class(s.last(), k) {
            before.push(Seq::<char>::empty())
        } else {
            before.update(before.len() - 1, before.last().push(s.last()))
        }
    }
}

pub proof fn lemma_pieces_len(s: Seq<char>, k: Class)
    ensures
        pieces(s, k).len() > 0,
    decreases s.len(),
{
    if s.len() > 0 {
        lemma_pieces_len(s.drop_last(), k);
    }
}

/// The pieces of `s` between the characters in `k`.
pub fn split(s: &str, k: Class) -> (r: Vec<String>)
    ensures
        text::views(r@) == pieces(s@, k),
        r.len() > 0,
{
    let v = chars_of(s);
    let mut done: Vec<String> = Vec::new();
    let mut last = String::new();
    let mut i: usize = 0;
    assert(v@.take(0) =~= Seq::<char>::empty());
    assert(text::views(done@).push(last@) =~= pieces(v@.take(0), k));
    while i < v.len()
        invariant
            i <= v.len(),
            v@ == s@,
            text::views(done@).push(last@) == pieces(v@.take(i as int), k),
        decreases v.len() - i,
    {
        let c = v[i];
        let ghost before = text::views(done@).push(last@);
        let ghost part = v@.take(i as int);
        assert(v@.take(i + 1).drop_last() =~= part);
        assert(v@.take(i + 1).last() == c);
        if is_in_class(c, k) {
            let ghost d = done@;
            let ghost l = last;
            done.push(last);
            proof {
                text::lemma_views_push(d, l);
            }
            last = String::new();
            assert(text::views(done@).push(last@) =~= before.push(Seq::<char>::empty()));
        } else {
            let ghost l = last@;
            last.push(c);
            assert(before.last() == l);
            assert(text::views(done@).push(last@) =~= before.update(
                before.len() - 1,
                before.last().push(c),
            ));
        }
        i = i + 1;
    }
    assert(v@.take(v@.len() as int) =~= v@);
    let ghost d = done@;
    let ghost l = last;
    done.push(last);
    proof {
        text::lemma_views_push(d, l);
    }
    done
}

/// Those of `v` that are not empty.
pub open spec fn non_empty(v: Seq<Seq<char>>) -> Seq<Seq<char>>
    decreases v.len(),
{
    if v.len() == 0 {
        v
    } else if v.last().len() == 0 {
        non_empty(v.drop_last())
    } else {
        non_empty(v.drop_last()).push(v.last())
    }
}

/// The words of `s`: its pieces between white space, without the empty ones.
pub open spec fn words_of(s: Seq<char>) -> Seq<Seq<char>> {
    non_empty(pieces(s, Class::Space))
}

/// Those of `v` that are not empty, in order.
pub fn drop_empty(v: &Vec<String>) -> (r: Vec<String>)
    ensures
        text::views(r@) == non_empty(text::views(v@)),
{
    let mut r: Vec<String> = Vec::new();
    let mut i: usize = 0;
    assert(text::views(r@) =~= non_empty(text::views(v@).take(0)));
    while i < v.len()
        invariant
            i <= v.len(),
            text::views(r@) == non_empty(text::views(v@).take(i as int)),
        decreases v.len() - i,
    {
        assert(text::views(v@).take(i + 1).drop_last() =~= text::views(v@).take(i as int));
        assert(text::views(v@).take(i + 1).last() == v@[i as int]@);
        if !v[i].as_str().is_empty() {
            let ghost before = r@;
            let s = v[i].clone();
            r.push(s);
            proof {
                text::lemma_views_push(before, s);
            }
        }
        i = i + 1;
    }
    assert(text::views(v@).take(text::views(v@).len() as int) =~= text::views(v@));
    r
}

/// The texts of `v`, one after the other with `sep` in between.
pub open spec fn joined(v: Seq<Seq<char>>, sep: Seq<char>) -> Seq<char>
    decreases v.len(),
{
    if v.len() == 0 {
        Seq::empty()
    } else if v.len() == 1 {
        v[0]
    } else {
        joined(v.drop_last(), sep) + sep + v.last()
    }
}

pub fn join(v: &Vec<String>, sep: &str) -> (r: String)
    ensures
        r@ == joined(text::views(v@), sep@),
{
    let mut r = String::new();
    let mut i: usize = 0;
    assert(text::views(v@).take(0) =~= Seq::<Seq<char>>::empty());
    while i < v.len()
        invariant
            i <= v.len(),
            r@ == joined(text::views(v@).take(i as int), sep@),
        decreases v.len() - i,
    {
        let ghost part = text::views(v@).take(i + 1);
        assert(part.drop_last() =~= text::views(v@).take(i as int));
        assert(part.last() == v@[i as int]@);
        if i == 0 {
            r = v[i].clone();
        } else {
            r.append(sep);
            r.append(v[i].as_str());
        }
        i = i + 1;
    }
    assert(text::views(v@).take(text::views(v@).len() as int) =~= text::views(v@));
    r
}

/// A carriage return at the end of `s` is taken off.
pub open spec fn without_cr(s: Seq<char>) -> Seq<char> {
    if s.len() > 0 && s.last() == '\r' {
        s.drop_last()
    } else {
        s
    }
}

/// The lines of `s`. A line ends in a line feed, which may follow a carriage
/// return; what stands behind the last line feed is a line if it is not empty.
pub open spec fn lines_of(s: Seq<char>) -> Seq<Seq<char>> {
    let parts = pieces(s, Class::Only('\n'));
    let n = if parts.last().len() == 0 {
        parts.len() - 1
    } else {
        parts.len() as int
    };
    Seq::new(
        n as nat,
        |i: int|
            if i < parts.len() - 1 {
                without_cr(parts[i])
            } else {
                parts[i]
            },
    )
}

pub fn lines(s: &str) -> (r: Vec<String>)
    ensures
        text::views(r@) == lines_of(s@),
{
    let parts = split(s, Class::Only('\n'));
    let last: usize = parts.len() - 1;
    let mut r: Vec<String> = Vec::new();
    let mut i: usize = 0;
    while i < last
        invariant
            i <= last,
            last == parts.len() - 1,
            r.len() == i,
            forall|j: int| 0 <= j < i ==> r@[j]@ == without_cr(#[trigger] parts@[j]@),
        decreases last - i,
    {
        let v = chars_of(parts[i].as_str());
        if v.len() > 0 && v[v.len() - 1] == '\r' {
            let t = string_of(&v, 0, v.len() - 1);
            assert(v@.subrange(0, v@.len() - 1) =~= v@.drop_last());
            r.push(t);
        } else {
            r.push(parts[i].clone());
        }
        i = i + 1;
    }
    if !parts[last].as_str().is_empty() {
        r.push(parts[last].clone());
    }
    assert(text::views(r@) =~= lines_of(s@));
    r
}

/// `s` with each character `c` written as `by`.
pub open spec fn replaced(s: Seq<char>, c: char, by: Seq<char>) -> Seq<char>
    decreases s.len(),
{
    if s.len() == 0 {
        s
    } else if s.last() == c {
        replaced(s.drop_last(), c, by) + by
    } else {
        replaced(s.drop_last(), c, by).push(s.last())
    }
}

pub fn replace(s: &str, c: char, by: &str) -> (r: String)
    ensures
        r@ == replaced(s@, c, by@),
{
    let v = chars_of(s);
    let mut r = String::new();
    let mut i: usize = 0;
    assert(v@.take(0) =~= Seq::<char>::empty());
    assert(r@ =~= replaced(v@.take(0), c, by@));
    while i < v.len()
        invariant
            i <= v.len(),
            v@ == s@,
            r@ == replaced(v@.take(i as int), c, by@),
        decreases v.len() - i,
    {
        assert(v@.take(i + 1).drop_last() =~= v@.take(i as int));
        if v[i] == c {
            r.append(by);
        } else {
            r.push(v[i]);
        }
        i = i + 1;
    }
    assert(v@.take(v@.len() as int) =~= v@);
    r
}

/// Replacing goes through a text from end to end.
pub proof fn lemma_replaced_concat(a: Seq<char>, b: Seq<char>, c: char, by: Seq<char>)
    ensures
        replaced(a + b, c, by) == replaced(a, c, by) + replaced(b, c, by),
    decreases b.len(),
{
    if b.len() == 0 {
        assert(a + b =~= a);
        assert(replaced(a, c, by) + replaced(b, c, by) =~= replaced(a, c, by));
    } else {
        lemma_replaced_concat(a, b.drop_last(), c, by);
        assert((a + b).drop_last() =~= a + b.drop_last());
        assert(replaced(a + b, c, by) =~= replaced(a, c, by) + replaced(b, c, by));
    }
}

/// A text in which the character does not stand is left as it is.
pub proof fn lemma_replaced_none(s: Seq<char>, c: char, by: Seq<char>)
    requires
        !s.contains(c),
    ensures
        replaced(s, c, by) == s,
    decreases s.len(),
{
    if s.len() > 0 {
        assert(s[s.len() - 1] != c);
        assert forall|x: int| 0 <= x < s.drop_last().len() implies s.drop_last()[x] != c by {
            assert(s[x] != c);
        }
        lemma_replaced_none(s.drop_last(), c, by);
        assert(s.drop_last().push(s.last()) =~= s);
    }
}

// ---------------------------------------------------------------------------
// Splitting and joining
// ---------------------------------------------------------------------------

/// No character of the class stands in the text.
pub open spec fn free_of(s: Seq<char>, k: Class) -> bool {
    forall|i: int| 0 <= i < s.len() ==> !text::in_class(#[trigger] s[i], k)
}

/// Splitting at one separator, and then both sides of it.
pub proof fn lemma_pieces_concat(a: Seq<char>, c: char, b: Seq<char>, k: Class)
    requires
        text::in_class(c, k),
    ensures
        pieces(a + seq![c] + b, k) == pieces(a, k) + pieces(b, k),
    decreases b.len(),
{
    let s = a + seq![c] + b;
    lemma_pieces_len(a, k);
    if b.len() == 0 {
        assert(s.drop_last() =~= a);
        assert(s.last() == c);
        assert(pieces(s, k) =~= pieces(a, k) + pieces(b, k));
    } else {
        let shorter = b.drop_last();
        lemma_pieces_concat(a, c, shorter, k);
        lemma_pieces_len(shorter, k);
        assert(s.drop_last() =~= a + seq![c] + shorter);
        assert(s.last() == b.last());
        assert(pieces(s, k) =~= pieces(a, k) + pieces(b, k));
    }
}

/// A text without separators is one piece.
pub proof fn lemma_one_piece(s: Seq<char>, k: Class)
    requires
        free_of(s, k),
    ensures
        pieces(s, k) == seq![s],
    decreases s.len(),
{
    if s.len() == 0 {
        assert(s =~= Seq::<char>::empty());
    } else {
        assert(!text::in_class(s[s.len() - 1], k));
        assert forall|i: int| 0 <= i < s.drop_last().len() implies !text::in_class(
            #[trigger] s.drop_last()[i],
            k,
        ) by {
            assert(s.drop_last()[i] == s[i]);
        }
        lemma_one_piece(s.drop_last(), k);
        assert(s.drop_last().push(s.last()) =~= s);
        assert(pieces(s, k) =~= seq![s]);
    }
}

/// There is no separator in a piece.
pub proof fn lemma_pieces_free(s: Seq<char>, k: Class)
    ensures
        forall|i: int| 0 <= i < pieces(s, k).len() ==> free_of(#[trigger] pieces(s, k)[i], k),
    decreases s.len(),
{
    if s.len() > 0 {
        lemma_pieces_free(s.drop_last(), k);
        lemma_pieces_len(s.drop_last(), k);
        let before = pieces(s.drop_last(), k);
        assert(free_of(before[before.len() - 1], k));
        assert forall|i: int| 0 <= i < pieces(s, k).len() implies free_of(
            #[trigger] pieces(s, k)[i],
            k,
        ) by {
            if i < before.len() - 1 {
                assert(pieces(s, k)[i] == before[i]);
            } else if i == before.len() - 1 {
                assert(free_of(before[i], k));
            }
        }
    }
}

/// What was joined by a separator that stands in none of the parts splits into
/// the parts again.
pub proof fn lemma_pieces_joined(parts: Seq<Seq<char>>, c: char)
    requires
        parts.len() > 0,
        forall|i: int| 0 <= i < parts.len() ==> free_of(#[trigger] parts[i], Class::Only(c)),
    ensures
        pieces(joined(parts, seq![c]), Class::Only(c)) == parts,
    decreases parts.len(),
{
    let k = Class::Only(c);
    if parts.len() == 1 {
        lemma_one_piece(parts[0], k);
        assert(seq![parts[0]] =~= parts);
    } else {
        let before = parts.drop_last();
        assert forall|i: int| 0 <= i < before.len() implies free_of(#[trigger] before[i], k) by {
            assert(before[i] == parts[i]);
        }
        lemma_pieces_joined(before, c);
        lemma_one_piece(parts[parts.len() - 1], k);
        lemma_pieces_concat(joined(before, seq![c]), c, parts.last(), k);
        assert(before + seq![parts.last()] =~= parts);
    }
}

/// A text without white space that stands apart is one of the words.
pub proof fn lemma_apart_is_a_word(h: Seq<char>, n: Seq<char>)
    requires
        stands_apart(h, n),
        free_of(n, Class::Space),
    ensures
        pieces(h, Class::Space).contains(n),
{
    let k = Class::Space;
    let i = choose|i: int| apart_at(h, n, i);
    let end = i + n.len();
    let tail = h.subrange(i, h.len() as int);
    lemma_one_piece(n, k);
    // From the word on, it is the first piece.
    let rest = if end == h.len() {
        assert(tail =~= n);
        Seq::<Seq<char>>::empty()
    } else {
        let behind = h.subrange(end + 1, h.len() as int);
        assert(tail =~= n + seq![h[end]] + behind);
        lemma_pieces_concat(n, h[end], behind, k);
        pieces(behind, k)
    };
    assert(pieces(tail, k) =~= seq![n] + rest);
    assert(pieces(tail, k)[0] == n);
    if i == 0 {
        assert(tail =~= h);
    } else {
        let before = h.subrange(0, i - 1);
        assert(h =~= before + seq![h[i - 1]] + tail);
        lemma_pieces_concat(before, h[i - 1], tail, k);
        assert(pieces(h, k)[pieces(before, k).len() as int] == n);
    }
}

/// Joining goes through a list from end to end.
pub proof fn lemma_joined_concat(a: Seq<Seq<char>>, b: Seq<Seq<char>>, sep: Seq<char>)
    requires
        a.len() > 0,
        b.len() > 0,
    ensures
        joined(a + b, sep) == joined(a, sep) + sep + joined(b, sep),
    decreases b.len(),
{
    let all = a + b;
    assert(all.last() == b.last());
    if b.len() == 1 {
        assert(all.drop_last() =~= a);
    } else {
        lemma_joined_concat(a, b.drop_last(), sep);
        assert(all.drop_last() =~= a + b.drop_last());
        assert(joined(all, sep) =~= joined(a, sep) + sep + joined(b, sep));
    }
}

/// What was joined begins with its first part.
pub proof fn lemma_joined_starts(v: Seq<Seq<char>>, sep: Seq<char>)
    requires
        v.len() > 0,
    ensures
        v[0].is_prefix_of(joined(v, sep)),
    decreases v.len(),
{
    if v.len() > 1 {
        lemma_joined_starts(v.drop_last(), sep);
        let before = joined(v.drop_last(), sep);
        let all = joined(v, sep);
        assert(v.drop_last()[0] == v[0]);
        assert(v[0] =~= before.subrange(0, v[0].len() as int));
        assert(v[0] =~= all.subrange(0, v[0].len() as int));
    } else {
        assert(v[0] =~= v[0].subrange(0, v[0].len() as int));
    }
}

} // verus!
