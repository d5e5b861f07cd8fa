//! Text: trimming, cutting, splitting, joining and replacing.

use crate::split;
use crate::text;
use crate::text::Class;
use vstd::prelude::*;

verus! {

/// White space in plain text is the blank and the controls from tab to carriage
/// return; no visible character of plain text is.
pub proof fn lemma_white_in_plain_text(c: char)
    requires
        c <= '\u{7f}',
    ensures
        text::white(c) <==> c == ' ' || c == '\t' || c == '\n' || c == '\r' || c == '\u{b}' || c
            == '\u{c}',
        text::in_class(c, Class::Space) <==> text::white(c),
{
}

/// A class of one character holds that character and no other.
pub proof fn lemma_class_of_one(c: char, x: char)
    ensures
        text::in_class(c, Class::Only(x)) <==> c == x,
{
}

/// All characters of the text are of the class.
pub open spec fn made_of(s: Seq<char>, k: Class) -> bool {
    forall|i: int| 0 <= i < s.len() ==> text::in_class(#[trigger] s[i], k)
}

/// Trimming takes off what is put around a text, all of it and no more.
pub proof fn lemma_padding_is_trimmed(a: Seq<char>, s: Seq<char>, b: Seq<char>, k: Class)
    requires
        made_of(a, k),
        made_of(b, k),
        s.len() > 0,
        !text::in_class(s[0], k),
        !text::in_class(s.last(), k),
    ensures
        text::trimmed_of(a + s + b, k) == s,
        text::trimmed_start(a + s + b, k) == s + b,
        text::trimmed_end(a + s + b, k) == a + s,
        text::trimmed_of(a, k) == Seq::<char>::empty(),
{
    let all = a + s + b;
    lemma_start(a, s + b, k);
    assert(a + (s + b) =~= all);
    lemma_end(s, b, k);
    lemma_end(a + s, b, k);
    assert((a + s).last() == s.last());
    text::lemma_trimmed_start(a, k);
    let t = text::trimmed_start(a, k);
    if t.len() > 0 {
        assert(t[0] == a[a.len() - t.len()]);
    }
    assert(t =~= Seq::<char>::empty());
}

proof fn lemma_start(a: Seq<char>, s: Seq<char>, k: Class)
    requires
        made_of(a, k),
        s.len() > 0,
        !text::in_class(s[0], k),
    ensures
        text::trimmed_start(a + s, k) == s,
    decreases a.len(),
{
    let all = a + s;
    if a.len() > 0 {
        let rest = a.subrange(1, a.len() as int);
        assert(text::in_class(a[0], k));
        assert(all[0] == a[0]);
        assert(made_of(rest, k)) by {
            assert forall|i: int| 0 <= i < rest.len() implies text::in_class(#[trigger] rest[i], k) by {
                assert(rest[i] == a[i + 1]);
            }
        }
        lemma_start(rest, s, k);
        assert(all.subrange(1, all.len() as int) =~= rest + s);
    } else {
        assert(all =~= s);
    }
}

proof fn lemma_end(s: Seq<char>, b: Seq<char>, k: Class)
    requires
        made_of(b, k),
        s.len() > 0,
        !text::in_class(s.last(), k),
    ensures
        text::trimmed_end(s + b, k) == s,
    decreases b.len(),
{
    let all = s + b;
    if b.len() > 0 {
        let rest = b.drop_last();
        assert(text::in_class(b[b.len() - 1], k));
        assert(all.last() == b[b.len() - 1]);
        assert(made_of(rest, k)) by {
            assert forall|i: int| 0 <= i < rest.len() implies text::in_class(#[trigger] rest[i], k) by {
                assert(rest[i] == b[i]);
            }
        }
        lemma_end(s, rest, k);
        assert(all.drop_last() =~= s + rest);
    } else {
        assert(all =~= s);
    }
}

/// What stands in front of the first separator and what stands behind it are
/// found, whatever stands behind it; without a separator nothing is.
pub proof fn lemma_cut_at_the_first(a: Seq<char>, c: char, b: Seq<char>)
    requires
        !a.contains(c),
    ensures
        split::cut_once(a + seq![c] + b, seq![c]) == Some((a, b)),
        split::cut_once(a, seq![c]) is None,
{
    let n = seq![c];
    let s = a + n + b;
    let i = a.len() as int;
    assert(s.subrange(i, i + 1) =~= n);
    assert(split::occurs_at(s, n, i));
    assert forall|j: int| 0 <= j < i implies !split::occurs_at(s, n, j) by {
        if split::occurs_at(s, n, j) {
            assert(s.subrange(j, j + 1)[0] == s[j]);
            assert(s[j] == a[j]);
        }
    }
    split::lemma_first_of(s, n, i);
    assert(s.subrange(0, i) =~= a);
    assert(s.subrange(i + 1, s.len() as int) =~= b);
    assert forall|j: int| !split::occurs_at(a, n, j) by {
        if split::occurs_at(a, n, j) {
            assert(a.subrange(j, j + 1)[0] == a[j]);
        }
    }
}

/// What was put in front of a text, or behind it, comes off again.
pub proof fn lemma_put_on_and_taken_off(p: Seq<char>, s: Seq<char>)
    ensures
        split::without_prefix(p + s, p) == Some(s),
        split::without_suffix(s + p, p) == Some(s),
{
    assert(p =~= (p + s).subrange(0, p.len() as int));
    assert((p + s).subrange(p.len() as int, (p + s).len() as int) =~= s);
    assert(p =~= (s + p).subrange((s + p).len() - p.len(), (s + p).len() as int));
    assert((s + p).subrange(0, (s + p).len() - p.len()) =~= s);
}

/// Splitting a text at a character loses nothing: the pieces, joined by that
/// character, are the text.
pub proof fn lemma_split_and_joined(s: Seq<char>, c: char)
    ensures
        split::joined(split::pieces(s, Class::Only(c)), seq![c]) == s,
    decreases s.len(),
{
    let k = Class::Only(c);
    let sep = seq![c];
    if s.len() > 0 {
        let t = s.drop_last();
        lemma_split_and_joined(t, c);
        split::lemma_pieces_len(t, k);
        let before = split::pieces(t, k);
        let all = split::pieces(s, k);
        if s.last() == c {
            assert(all.drop_last() =~= before);
            assert(split::joined(all, sep) =~= t + sep);
            assert(t + sep =~= s);
        } else {
            assert(all.last() == before.last().push(s.last()));
            assert(all.drop_last() =~= before.drop_last());
            if before.len() == 1 {
                assert(split::joined(all, sep) =~= t.push(s.last()));
            } else {
                assert(split::joined(all, sep) =~= t.push(s.last()));
            }
            assert(t.push(s.last()) =~= s);
        }
    } else {
        assert(s =~= Seq::<char>::empty());
    }
}

/// A line and a line feed, with or without a carriage return, in front of a text
/// is one more line.
pub proof fn lemma_line_by_line(line: Seq<char>, rest: Seq<char>)
    requires
        !line.contains('\n'),
        line.len() > 0 ==> line.last() != '\r',
    ensures
        split::lines_of(line + seq!['\n'] + rest) == seq![line] + split::lines_of(rest),
        split::lines_of(line + seq!['\r', '\n'] + rest) == seq![line] + split::lines_of(rest),
        line.len() > 0 ==> split::lines_of(line) == seq![line],
        split::lines_of(Seq::empty()).len() == 0,
{
    let k = Class::Only('\n');
    let with_cr = line.push('\r');
    let nothing = Seq::<char>::empty();
    assert(split::free_of(line, k)) by {
        assert forall|i: int| 0 <= i < line.len() implies !text::in_class(#[trigger] line[i], k) by {
            assert(line.contains(line[i]));
        }
    }
    assert(split::free_of(with_cr, k)) by {
        assert forall|i: int| 0 <= i < with_cr.len() implies !text::in_class(
            #[trigger] with_cr[i],
            k,
        ) by {
            if i < line.len() {
                assert(with_cr[i] == line[i]);
                assert(line.contains(line[i]));
            }
        }
    }
    split::lemma_one_piece(line, k);
    split::lemma_one_piece(with_cr, k);
    split::lemma_one_piece(nothing, k);
    split::lemma_pieces_len(rest, k);
    split::lemma_pieces_concat(line, '\n', rest, k);
    split::lemma_pieces_concat(with_cr, '\n', rest, k);
    assert(line + seq!['\r', '\n'] + rest =~= with_cr + seq!['\n'] + rest);
    assert(with_cr.drop_last() =~= line);
    let parts = split::pieces(rest, k);
    let a = split::pieces(line + seq!['\n'] + rest, k);
    let b = split::pieces(with_cr + seq!['\n'] + rest, k);
    assert(a.last() == parts.last() && b.last() == parts.last());
    assert forall|i: int| 0 <= i < parts.len() implies a[i + 1] == parts[i] && b[i + 1]
        == #[trigger] parts[i] by {}
    assert(split::lines_of(line + seq!['\n'] + rest) =~= seq![line] + split::lines_of(rest));
    assert(split::lines_of(with_cr + seq!['\n'] + rest) =~= seq![line] + split::lines_of(rest));
}

/// The words of a text are found whatever white space stands between them.
pub proof fn lemma_word_by_word(before: Seq<char>, c: char, word: Seq<char>)
    requires
        text::white(c),
        word.len() > 0,
        split::free_of(word, Class::Space),
    ensures
        split::words_of(before + seq![c] + word) == split::words_of(before).push(word),
        split::words_of(before + seq![c]) == split::words_of(before),
        split::words_of(word) == seq![word],
{
    let k = Class::Space;
    let nothing = Seq::<char>::empty();
    split::lemma_pieces_concat(before, c, word, k);
    split::lemma_pieces_concat(before, c, nothing, k);
    split::lemma_one_piece(word, k);
    split::lemma_one_piece(nothing, k);
    assert(before + seq![c] + nothing =~= before + seq![c]);
    let p = split::pieces(before, k);
    assert((p + seq![word]).drop_last() =~= p);
    assert((p + seq![nothing]).drop_last() =~= p);
    reveal_with_fuel(split::non_empty, 3);
    assert(seq![word].drop_last() =~= Seq::<Seq<char>>::empty());
    assert(split::words_of(word) =~= seq![word]);
}

/// Replacing goes character by character: the one that is replaced becomes the
/// other text, any other stays.
pub proof fn lemma_replaced_by_character(s: Seq<char>, x: char, c: char, by: Seq<char>)
    ensures
        split::replaced(Seq::empty(), c, by) == Seq::<char>::empty(),
        x == c ==> split::replaced(s.push(x), c, by) == split::replaced(s, c, by) + by,
        x != c ==> split::replaced(s.push(x), c, by) == split::replaced(s, c, by).push(x),
{
    assert(s.push(x).drop_last() =~= s);
}

/// A text stands in another just when the other is made of it and something in
/// front of it and something behind it.
pub proof fn lemma_found_where_it_was_put(h: Seq<char>, n: Seq<char>)
    ensures
        split::has(h, n) <==> exists|a: Seq<char>, b: Seq<char>| #[trigger] around(a, n, b) == h,
{
    if split::has(h, n) {
        let i = choose|i: int| split::occurs_at(h, n, i);
        let a = h.subrange(0, i);
        let b = h.subrange(i + n.len(), h.len() as int);
        assert(around(a, n, b) =~= h);
    }
    if exists|a: Seq<char>, b: Seq<char>| #[trigger] around(a, n, b) == h {
        let (a, b) = choose|a: Seq<char>, b: Seq<char>| #[trigger] around(a, n, b) == h;
        assert(h.subrange(a.len() as int, (a.len() + n.len()) as int) =~= n);
        assert(split::occurs_at(h, n, a.len() as int));
    }
}

/// A text with something in front of it and something behind it.
pub open spec fn around(a: Seq<char>, n: Seq<char>, b: Seq<char>) -> Seq<char> {
    a + n + b
}

} // verus!
