//! Unix paths as text: joining, components, file names and prefixes.

use crate::split;
use crate::split::{join, split};
use crate::text;
use crate::text::{chars_of, same, Class};
use vstd::prelude::*;

verus! {

/// `p` starts at the root directory.
pub open spec fn absolute(p: Seq<char>) -> bool {
    p.len() > 0 && p[0] == '/'
}

pub fn is_absolute(p: &str) -> (r: bool)
    ensures
        r == absolute(p@),
{
    let v = chars_of(p);
    v.len() > 0 && v[0] == '/'
}

/// `rest` as seen from the directory `base`: an absolute `rest` stands for
/// itself, and one separator is put in where `base` does not end in one.
pub open spec fn joined_path(base: Seq<char>, rest: Seq<char>) -> Seq<char> {
    if absolute(rest) {
        rest
    } else if base.len() == 0 || base.last() == '/' {
        base + rest
    } else {
        base + seq!['/'] + rest
    }
}

pub fn join_path(base: &str, rest: &str) -> (r: String)
    ensures
        r@ == joined_path(base@, rest@),
{
    if is_absolute(rest) {
        return rest.to_owned();
    }
    let v = chars_of(base);
    let mut r = base.to_owned();
    if v.len() != 0 && v[v.len() - 1] != '/' {
        r.push('/');
        assert(r@ =~= base@ + seq!['/']);
    }
    r.append(rest);
    r
}

/// The text between two separators names something: it is neither empty nor
/// the current directory.
pub open spec fn named(segment: Seq<char>) -> bool {
    segment.len() > 0 && segment != seq!['.']
}

fn is_named(segment: &str) -> (r: bool)
    ensures
        r == named(segment@),
{
    let v = chars_of(segment);
    if v.len() == 1 && v[0] == '.' {
        assert(v@ =~= seq!['.']);
        false
    } else {
        v.len() > 0
    }
}

/// The segments that name something.
pub open spec fn kept(segments: Seq<Seq<char>>) -> Seq<Seq<char>>
    decreases segments.len(),
{
    if segments.len() == 0 {
        segments
    } else if named(segments.last()) {
        kept(segments.drop_last()).push(segments.last())
    } else {
        kept(segments.drop_last())
    }
}

pub open spec fn segments(p: Seq<char>) -> Seq<Seq<char>> {
    split::pieces(p, Class::Only('/'))
}

/// A relative path that starts at the current directory, written out.
pub open spec fn starts_here(p: Seq<char>) -> bool {
    !absolute(p) && segments(p)[0] == seq!['.']
}

/// The components of `p` below its root: repeated separators and inner `.`
/// count for nothing, a leading `.` of a relative path is a component.
pub open spec fn components(p: Seq<char>) -> Seq<Seq<char>> {
    if starts_here(p) {
        seq![seq!['.']] + kept(segments(p))
    } else {
        kept(segments(p))
    }
}

/// Two texts write the same path.
pub open spec fn equal_paths(a: Seq<char>, b: Seq<char>) -> bool {
    absolute(a) == absolute(b) && components(a) == components(b)
}

/// The last component, unless it is `.` or `..`.
pub open spec fn name_of(p: Seq<char>) -> Option<Seq<char>> {
    let c = components(p);
    if c.len() > 0 && c.last() != seq!['.'] && c.last() != seq!['.', '.'] {
        Some(c.last())
    } else {
        None
    }
}

fn keep(segs: &Vec<String>) -> (r: Vec<String>)
    ensures
        text::views(r@) == kept(text::views(segs@)),
{
    let mut r: Vec<String> = Vec::new();
    let mut i: usize = 0;
    let ghost all = text::views(segs@);
    assert(text::views(r@) =~= kept(all.take(0)));
    while i < segs.len()
        invariant
            i <= segs.len(),
            all == text::views(segs@),
            text::views(r@) == kept(all.take(i as int)),
        decreases segs.len() - i,
    {
        assert(all.take(i + 1).drop_last() =~= all.take(i as int));
        assert(all.take(i + 1).last() == segs@[i as int]@);
        if is_named(segs[i].as_str()) {
            let ghost before = r@;
            let s = segs[i].clone();
            r.push(s);
            proof {
                text::lemma_views_push(before, s);
            }
        }
        i = i + 1;
    }
    assert(all.take(all.len() as int) =~= all);
    r
}

fn is_dot(segment: &str) -> (r: bool)
    ensures
        r == (segment@ == seq!['.']),
{
    let v = chars_of(segment);
    if v.len() == 1 && v[0] == '.' {
        assert(v@ =~= seq!['.']);
        true
    } else {
        false
    }
}

fn is_dot_dot(segment: &str) -> (r: bool)
    ensures
        r == (segment@ == seq!['.', '.']),
{
    let v = chars_of(segment);
    if v.len() == 2 && v[0] == '.' && v[1] == '.' {
        assert(v@ =~= seq!['.', '.']);
        true
    } else {
        false
    }
}

fn is_here(p: &str, segs: &Vec<String>) -> (r: bool)
    requires
        text::views(segs@) == segments(p@),
        segs.len() > 0,
    ensures
        r == starts_here(p@),
{
    assert(segments(p@)[0] == segs@[0]@);
    !is_absolute(p) && is_dot(segs[0].as_str())
}

/// The components of `p` below its root.
pub fn components_of(p: &str) -> (r: Vec<String>)
    ensures
        text::views(r@) == components(p@),
{
    let segs = split(p, Class::Only('/'));
    let mut rest = keep(&segs);
    if is_here(p, &segs) {
        let mut r: Vec<String> = Vec::new();
        let dot = segs[0].clone();
        assert(segments(p@)[0] == segs@[0]@);
        r.push(dot);
        let ghost before = rest@;
        r.append(&mut rest);
        assert(text::views(r@) =~= seq![seq!['.']] + text::views(before));
        r
    } else {
        rest
    }
}

/// Whether two texts write the same path.
pub fn same_path(a: &str, b: &str) -> (r: bool)
    ensures
        r == equal_paths(a@, b@),
{
    is_absolute(a) == is_absolute(b) && text::same_strings(&components_of(a), &components_of(b))
}

/// The last component of `p`, unless it is `.` or `..`.
pub fn file_name(p: &str) -> (r: Option<String>)
    ensures
        text::opt_string(r) == name_of(p@),
{
    let c = components_of(p);
    if c.len() == 0 {
        assert(components(p@).len() == 0);
        return None;
    }
    let last = c[c.len() - 1].clone();
    assert(components(p@).last() == last@);
    if is_dot(last.as_str()) || is_dot_dot(last.as_str()) {
        None
    } else {
        Some(last)
    }
}

// ---------------------------------------------------------------------------
// Prefixes
// ---------------------------------------------------------------------------

/// The segments from the one that follows the first `k` components on.
pub open spec fn past(segs: Seq<Seq<char>>, k: nat) -> Seq<Seq<char>>
    decreases segs.len(),
{
    if segs.len() == 0 {
        segs
    } else if !named(segs[0]) {
        past(segs.drop_first(), k)
    } else if k == 0 {
        segs
    } else {
        past(segs.drop_first(), (k - 1) as nat)
    }
}

/// The segments up to the last one that names something.
pub open spec fn to_last_named(segs: Seq<Seq<char>>) -> Seq<Seq<char>>
    decreases segs.len(),
{
    if segs.len() == 0 || named(segs.last()) {
        segs
    } else {
        to_last_named(segs.drop_last())
    }
}

/// The text of `p` from the component that follows the first `k` ones to its
/// last component, as it stands.
pub open spec fn rest_of(p: Seq<char>, k: nat) -> Seq<char> {
    let segs = if starts_here(p) && k > 0 {
        past(segments(p).drop_first(), (k - 1) as nat)
    } else {
        past(segments(p), k)
    };
    split::joined(to_last_named(segs), seq!['/'])
}

/// What is left of `p` below the directory `base`; `None` if `p` does not lie
/// there.
pub open spec fn below(p: Seq<char>, base: Seq<char>) -> Option<Seq<char>> {
    if absolute(p) == absolute(base) && components(base).is_prefix_of(components(p)) {
        Some(rest_of(p, components(base).len()))
    } else {
        None
    }
}

fn past_index(segs: &Vec<String>, from: usize, k: usize) -> (r: usize)
    requires
        from <= segs.len(),
    ensures
        from <= r <= segs.len(),
        past(text::views(segs@).skip(from as int), k as nat) == text::views(segs@).skip(r as int),
{
    let ghost all = text::views(segs@);
    let mut i: usize = from;
    let mut left: usize = k;
    while i < segs.len()
        invariant
            from <= i <= segs.len(),
            all == text::views(segs@),
            past(all.skip(from as int), k as nat) == past(all.skip(i as int), left as nat),
        decreases segs.len() - i,
    {
        assert(all.skip(i as int)[0] == segs@[i as int]@);
        assert(all.skip(i as int).drop_first() =~= all.skip(i + 1));
        if is_named(segs[i].as_str()) {
            if left == 0 {
                return i;
            }
            left = left - 1;
        }
        i = i + 1;
    }
    assert(all.skip(i as int).len() == 0);
    i
}

fn named_end(segs: &Vec<String>, from: usize) -> (r: usize)
    requires
        from <= segs.len(),
    ensures
        from <= r <= segs.len(),
        to_last_named(text::views(segs@).skip(from as int)) == text::views(segs@).subrange(
            from as int,
            r as int,
        ),
{
    let ghost all = text::views(segs@);
    let mut i: usize = segs.len();
    assert(all.subrange(from as int, all.len() as int) =~= all.skip(from as int));
    while i > from && !is_named(segs[i - 1].as_str())
        invariant
            from <= i <= segs.len(),
            all == text::views(segs@),
            to_last_named(all.skip(from as int)) == to_last_named(
                all.subrange(from as int, i as int),
            ),
        decreases i,
    {
        let ghost s = all.subrange(from as int, i as int);
        assert(s.last() == segs@[i - 1]@);
        assert(s.drop_last() =~= all.subrange(from as int, i - 1));
        i = i - 1;
    }
    assert(i > from ==> all.subrange(from as int, i as int).last() == segs@[i - 1]@);
    i
}

fn rest_text(p: &str, k: usize) -> (r: String)
    ensures
        r@ == rest_of(p@, k as nat),
{
    let segs = split(p, Class::Only('/'));
    let ghost all = text::views(segs@);
    let from: usize = if is_here(p, &segs) && k > 0 {
        assert(all.skip(1) =~= all.drop_first());
        past_index(&segs, 1, k - 1)
    } else {
        assert(all.skip(0) =~= all);
        past_index(&segs, 0, k)
    };
    let to = named_end(&segs, from);
    let mut part: Vec<String> = Vec::new();
    let mut i: usize = from;
    while i < to
        invariant
            from <= i <= to <= segs.len(),
            all == text::views(segs@),
            part.len() == i - from,
            forall|j: int| 0 <= j < part.len() ==> part@[j]@ == segs@[from + j]@,
        decreases to - i,
    {
        part.push(segs[i].clone());
        i = i + 1;
    }
    assert(text::views(part@) =~= all.subrange(from as int, to as int));
    let mut sep = String::new();
    sep.push('/');
    assert(sep@ =~= seq!['/']);
    join(&part, sep.as_str())
}

fn is_prefix(a: &Vec<String>, b: &Vec<String>) -> (r: bool)
    ensures
        r == text::views(a@).is_prefix_of(text::views(b@)),
{
    if a.len() > b.len() {
        return false;
    }
    let ghost x = text::views(a@);
    let ghost y = text::views(b@);
    let mut i: usize = 0;
    while i < a.len()
        invariant
            i <= a.len() <= b.len(),
            x == text::views(a@),
            y == text::views(b@),
            forall|j: int| 0 <= j < i ==> a@[j]@ == b@[j]@,
        decreases a.len() - i,
    {
        if !(a[i] == b[i]) {
            assert(x[i as int] != y.subrange(0, x.len() as int)[i as int]);
            return false;
        }
        i = i + 1;
    }
    assert(x =~= y.subrange(0, x.len() as int));
    true
}

/// What is left of `p` below the directory `base`.
pub fn strip_base(p: &str, base: &str) -> (r: Option<String>)
    ensures
        text::opt_string(r) == below(p@, base@),
{
    let a = components_of(base);
    let b = components_of(p);
    if is_absolute(p) == is_absolute(base) && is_prefix(&a, &b) {
        let k: usize = a.len();
        assert(components(base@).len() == k);
        Some(rest_text(p, k))
    } else {
        None
    }
}

// ---------------------------------------------------------------------------
// What holds of all paths
// ---------------------------------------------------------------------------

/// What names something does so wherever it stands.
pub proof fn lemma_kept_concat(a: Seq<Seq<char>>, b: Seq<Seq<char>>)
    ensures
        kept(a + b) == kept(a) + kept(b),
    decreases b.len(),
{
    if b.len() == 0 {
        assert(a + b =~= a);
        assert(kept(a) + kept(b) =~= kept(a));
    } else {
        lemma_kept_concat(a, b.drop_last());
        assert((a + b).drop_last() =~= a + b.drop_last());
        assert(kept(a + b) =~= kept(a) + kept(b));
    }
}

/// One segment is a component if it names something.
pub proof fn lemma_kept_one(s: Seq<char>)
    ensures
        kept(seq![s]) == (if named(s) {
            seq![s]
        } else {
            Seq::empty()
        }),
{
    assert(seq![s].drop_last() =~= Seq::<Seq<char>>::empty());
    assert(kept(Seq::<Seq<char>>::empty()) =~= Seq::<Seq<char>>::empty());
    assert(Seq::<Seq<char>>::empty().push(s) =~= seq![s]);
}

/// What follows the first components of a path keeps its own, and begins with one.
pub proof fn lemma_past(segs: Seq<Seq<char>>, k: nat)
    requires
        k <= kept(segs).len(),
    ensures
        kept(past(segs, k)) == kept(segs).skip(k as int),
        past(segs, k).len() == 0 || named(past(segs, k)[0]),
        exists|n: int| 0 <= n <= segs.len() && past(segs, k) == #[trigger] segs.skip(n),
    decreases segs.len(),
{
    if segs.len() == 0 {
        assert(segs.skip(0) =~= segs);
        assert(kept(segs).skip(0) =~= kept(segs));
    } else {
        let first = seq![segs[0]];
        let rest = segs.drop_first();
        assert(segs =~= first + rest);
        lemma_kept_concat(first, rest);
        lemma_kept_one(segs[0]);
        if !named(segs[0]) {
            assert(kept(segs) =~= kept(rest));
            lemma_past(rest, k);
            let n = choose|n: int| 0 <= n <= rest.len() && past(rest, k) == #[trigger] rest.skip(n);
            assert(rest.skip(n) =~= segs.skip(n + 1));
        } else if k == 0 {
            assert(kept(segs).skip(0) =~= kept(segs));
            assert(segs.skip(0) =~= segs);
        } else {
            lemma_past(rest, (k - 1) as nat);
            assert(kept(segs).skip(k as int) =~= kept(rest).skip(k - 1));
            let n = choose|n: int|
                0 <= n <= rest.len() && past(rest, (k - 1) as nat) == #[trigger] rest.skip(n);
            assert(rest.skip(n) =~= segs.skip(n + 1));
        }
    }
}

proof fn lemma_to_last_named(segs: Seq<Seq<char>>)
    ensures
        kept(to_last_named(segs)) == kept(segs),
        to_last_named(segs).len() <= segs.len(),
        to_last_named(segs) == segs.take(to_last_named(segs).len() as int),
        segs.len() > 0 && named(segs[0]) ==> to_last_named(segs).len() > 0,
    decreases segs.len(),
{
    if segs.len() == 0 || named(segs.last()) {
        assert(segs.take(segs.len() as int) =~= segs);
    } else {
        lemma_to_last_named(segs.drop_last());
        let n = to_last_named(segs).len() as int;
        assert(segs.drop_last().take(n) =~= segs.take(n));
        if segs.len() > 1 {
            assert(segs.drop_last()[0] == segs[0]);
        }
    }
}

/// The components of a joined path are those of its parts, one after the other.
proof fn lemma_joined_components(base: Seq<char>, rest: Seq<char>)
    requires
        absolute(base),
        !absolute(rest),
        !starts_here(rest),
    ensures
        components(joined_path(base, rest)) == components(base) + components(rest),
        absolute(joined_path(base, rest)),
{
    let k = Class::Only('/');
    let p = joined_path(base, rest);
    if base.last() == '/' {
        let dir = base.drop_last();
        assert(base =~= dir + seq!['/'] + Seq::<char>::empty());
        assert(p =~= dir + seq!['/'] + rest);
        split::lemma_pieces_concat(dir, '/', Seq::empty(), k);
        split::lemma_pieces_concat(dir, '/', rest, k);
        let nothing = Seq::<char>::empty();
        split::lemma_one_piece(nothing, k);
        lemma_kept_concat(segments(dir), seq![nothing]);
        lemma_kept_concat(segments(dir), segments(rest));
        lemma_kept_one(nothing);
        assert(kept(segments(dir)) + Seq::<Seq<char>>::empty() =~= kept(segments(dir)));
    } else {
        assert(p =~= base + seq!['/'] + rest);
        split::lemma_pieces_concat(base, '/', rest, k);
        lemma_kept_concat(segments(base), segments(rest));
    }
    assert(p[0] == '/');
}

/// What is left of an absolute path below a directory, joined to the directory
/// again, is the same path.
pub proof fn lemma_below_joined(p: Seq<char>, base: Seq<char>)
    requires
        absolute(base),
        below(p, base) is Some,
    ensures
        !absolute(below(p, base)->Some_0),
        equal_paths(joined_path(base, below(p, base)->Some_0), p),
        below(p, base)->Some_0.len() == 0 ==> equal_paths(base, p),
{
    let slash = Class::Only('/');
    let segs = segments(p);
    let n = components(base).len();
    let rest = below(p, base)->Some_0;
    assert(components(base).len() <= components(p).len());
    lemma_past(segs, n);
    let tail = past(segs, n);
    lemma_to_last_named(tail);
    let parts = to_last_named(tail);
    split::lemma_pieces_free(p, slash);
    let from = choose|from: int| 0 <= from <= segs.len() && tail == #[trigger] segs.skip(from);
    assert forall|i: int| 0 <= i < parts.len() implies split::free_of(
        #[trigger] parts[i],
        slash,
    ) by {
        assert(parts[i] == tail[i]);
        assert(tail[i] == segs[from + i]);
    }
    if parts.len() == 0 {
        assert(rest.len() == 0);
        split::lemma_one_piece(rest, slash);
        lemma_kept_one(rest);
        assert(segments(rest)[0] != seq!['.']) by {
            assert(segments(rest)[0].len() == 0);
        }
        assert(tail.len() == 0);
        assert(kept(tail) =~= Seq::<Seq<char>>::empty());
        assert(components(base) =~= components(p));
    } else {
        split::lemma_pieces_joined(parts, '/');
        assert(segments(rest) == parts);
        assert(parts[0] == tail[0]);
        assert(named(parts[0]));
        lemma_starts_with_first(parts);
        assert(rest[0] == parts[0][0]);
        assert(!text::in_class(parts[0][0], slash));
    }
    lemma_joined_components(base, rest);
    assert(components(rest) =~= components(p).skip(n as int));
    assert(components(base) + components(p).skip(n as int) =~= components(p));
}

/// What was joined begins as its first part does.
proof fn lemma_starts_with_first(parts: Seq<Seq<char>>)
    requires
        parts.len() > 0,
        parts[0].len() > 0,
    ensures
        split::joined(parts, seq!['/']).len() > 0,
        split::joined(parts, seq!['/'])[0] == parts[0][0],
    decreases parts.len(),
{
    if parts.len() > 1 {
        assert(parts.drop_last()[0] == parts[0]);
        lemma_starts_with_first(parts.drop_last());
    }
}

} // verus!
