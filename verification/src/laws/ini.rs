//! The settings of the AWS command line: what a line of them says.

use crate::ini;
use crate::ini::Reading;
use crate::laws;
use crate::split;
use crate::text;
use vstd::prelude::*;

verus! {

/// A text that begins and ends with visible characters.
pub open spec fn plain(s: Seq<char>) -> bool {
    s.len() > 0 && !text::white(s[0]) && !text::white(s.last())
}

/// A setting in a section is read as it was written, with or without blanks
/// around the equals sign; it changes no other setting and no other section.
pub proof fn lemma_setting_read(r: Reading, section: Seq<char>, key: Seq<char>, value: Seq<char>)
    requires
        r.current == Some(section),
        plain(key),
        plain(value),
        !key.contains('='),
        key[0] != '[',
        key[0] != '#',
        key[0] != ';',
    ensures
        ({
            let after = Reading {
                sections: r.sections.insert(section, r.sections[section].insert(key, value)),
                current: Some(section),
            };
            &&& r.with_line(key + "="@ + value) == after
            &&& r.with_line(key + " = "@ + value) == after
        }),
{
    reveal_strlit("=");
    reveal_strlit(" = ");
    laws::rclone::lemma_nothing_to_trim(key);
    laws::rclone::lemma_nothing_to_trim(value);
    let tight = key + "="@ + value;
    assert("="@ =~= seq!['=']);
    lemma_line_says(r, section, tight, key, value);
    let blank = seq![' '];
    let loose = key + " = "@ + value;
    assert(loose =~= key + blank + seq!['='] + (blank + value));
    let none = Seq::<char>::empty();
    laws::text::lemma_padding_is_trimmed(none, key, blank, text::Class::Space);
    laws::text::lemma_padding_is_trimmed(blank, value, none, text::Class::Space);
    assert(none + key + blank =~= key + blank);
    assert(blank + value + none =~= blank + value);
    assert(!(key + blank).contains('=')) by {
        if (key + blank).contains('=') {
            let i = choose|i: int| 0 <= i < (key + blank).len() && (key + blank)[i] == '=';
            if i < key.len() {
                assert(key[i] == '=');
            }
        }
    }
    lemma_line_says(r, section, loose, key + blank, blank + value);
}

proof fn lemma_line_says(
    r: Reading,
    section: Seq<char>,
    line: Seq<char>,
    left: Seq<char>,
    right: Seq<char>,
)
    requires
        r.current == Some(section),
        line == left + seq!['='] + right,
        !left.contains('='),
        left.len() > 0,
        right.len() > 0,
        !text::white(left[0]),
        !text::white(right.last()),
        left[0] != '[',
        left[0] != '#',
        left[0] != ';',
    ensures
        r.with_line(line) == (Reading {
            sections: r.sections.insert(
                section,
                r.sections[section].insert(text::trimmed(left), text::trimmed(right)),
            ),
            current: Some(section),
        }),
{
    reveal_strlit("=");
    reveal_strlit("[");
    reveal_strlit("#");
    reveal_strlit(";");
    assert("="@ =~= seq!['=']);
    assert(line[0] == left[0]);
    assert(line.last() == right.last());
    laws::rclone::lemma_nothing_to_trim(line);
    if "["@.is_prefix_of(line) {
        assert("["@ =~= line.subrange(0, 1));
        assert("["@[0] == line[0]);
    }
    if "#"@.is_prefix_of(line) {
        assert("#"@ =~= line.subrange(0, 1));
        assert("#"@[0] == line[0]);
    }
    if ";"@.is_prefix_of(line) {
        assert(";"@ =~= line.subrange(0, 1));
        assert(";"@[0] == line[0]);
    }
    assert(!ini::skipped(line));
    assert(ini::heading(line) is None);
    laws::text::lemma_cut_at_the_first(left, '=', right);
}

/// A setting before the first heading belongs to no section and is dropped.
pub proof fn lemma_setting_without_section(r: Reading, key: Seq<char>, value: Seq<char>)
    requires
        r.current is None,
        plain(key),
        plain(value),
        key[0] != '[',
    ensures
        r.with_line(key + "="@ + value) == r,
{
    reveal_strlit("=");
    reveal_strlit("[");
    let line = key + "="@ + value;
    assert(line[0] == key[0] && line.last() == value.last());
    laws::rclone::lemma_nothing_to_trim(line);
    if "["@.is_prefix_of(line) {
        assert("["@ =~= line.subrange(0, 1));
        assert("["@[0] == line[0]);
    }
}

/// A heading of one word begins the section of that name, empty if it is new
/// and with all its settings if it is not; the other sections stay.
pub proof fn lemma_heading_read(r: Reading, name: Seq<char>)
    requires
        name.len() > 0,
        split::free_of(name, text::Class::Space),
    ensures
        ({
            let after = r.with_line("["@ + name + "]"@);
            &&& after.current == Some(name)
            &&& after.sections.contains_key(name)
            &&& r.sections.contains_key(name) ==> after.sections == r.sections
            &&& !r.sections.contains_key(name) ==> after.sections == r.sections.insert(
                name,
                Map::empty(),
            )
        }),
{
    lemma_heading(r, name);
    laws::text::lemma_word_by_word(Seq::empty(), ' ', name);
    assert(split::joined(seq![name], " "@) == name);
}

/// A heading of two words, such as that of a profile, names both, with one blank
/// in between.
pub proof fn lemma_heading_of_two_words(r: Reading, kind: Seq<char>, name: Seq<char>)
    requires
        kind.len() > 0,
        name.len() > 0,
        split::free_of(kind, text::Class::Space),
        split::free_of(name, text::Class::Space),
    ensures
        r.with_line("["@ + (kind + " "@ + name) + "]"@).current == Some(kind + " "@ + name),
        r.with_line("["@ + (kind + "  "@ + name) + "]"@).current == Some(kind + " "@ + name),
{
    reveal_strlit(" ");
    reveal_strlit("  ");
    let blank = seq![' '];
    lemma_heading(r, kind + " "@ + name);
    lemma_heading(r, kind + "  "@ + name);
    laws::text::lemma_word_by_word(Seq::empty(), ' ', kind);
    laws::text::lemma_word_by_word(kind, ' ', name);
    laws::text::lemma_word_by_word(kind + blank, ' ', name);
    assert(kind + " "@ + name =~= kind + blank + name);
    assert(kind + "  "@ + name =~= kind + blank + blank + name);
    reveal_with_fuel(split::joined, 3);
    let words = seq![kind].push(name);
    assert(words.drop_last() =~= seq![kind]);
    assert(split::joined(words, " "@) == kind + " "@ + name);
}

proof fn lemma_heading(r: Reading, inner: Seq<char>)
    ensures
        ({
            let name = split::joined(split::words_of(inner), " "@);
            r.with_line("["@ + inner + "]"@) == (Reading {
                sections: ini::opened(r.sections, name),
                current: Some(name),
            })
        }),
{
    reveal_strlit("[");
    reveal_strlit("]");
    reveal_strlit("#");
    reveal_strlit(";");
    let line = "["@ + inner + "]"@;
    assert(line[0] == '[' && line.last() == ']');
    laws::rclone::lemma_nothing_to_trim(line);
    laws::text::lemma_put_on_and_taken_off("["@, inner + "]"@);
    assert("["@ + (inner + "]"@) =~= line);
    laws::text::lemma_put_on_and_taken_off("]"@, inner);
    if "#"@.is_prefix_of(line) {
        assert("#"@ =~= line.subrange(0, 1));
        assert("#"@[0] == line[0]);
    }
    if ";"@.is_prefix_of(line) {
        assert(";"@ =~= line.subrange(0, 1));
        assert(";"@[0] == line[0]);
    }
}

/// A line that is indented, blank or a comment says nothing.
pub proof fn lemma_lines_that_say_nothing(r: Reading, c: char, rest: Seq<char>)
    requires
        text::white(c) || c == '#' || c == ';',
    ensures
        r.with_line(seq![c] + rest) == r,
        r.with_line(Seq::empty()) == r,
{
    reveal_strlit("#");
    reveal_strlit(";");
    let raw = seq![c] + rest;
    let none = Seq::<char>::empty();
    text::lemma_trimmed_of(none, text::Class::Space);
    assert(raw[0] == c);
    if !text::white(c) {
        let line = text::trimmed(raw);
        assert(text::trimmed_start(raw, text::Class::Space) == raw);
        text::lemma_trimmed_end(raw, text::Class::Space);
        if line.len() > 0 {
            assert(line[0] == raw[0]);
            assert(seq![c] =~= line.subrange(0, 1));
            if c == '#' {
                assert("#"@ =~= line.subrange(0, 1));
            } else {
                assert(";"@ =~= line.subrange(0, 1));
            }
        }
    }
}

} // verus!
