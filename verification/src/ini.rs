//! Minimal INI reader for `~/.aws/config`.

use crate::split;
use crate::split::{drop_empty, join, lines, split, split_once, starts_with, strip_prefix, strip_suffix};
use crate::text;
use crate::text::{chars_of, is_white, same, trim, Class};
use vstd::prelude::*;

verus! {

/// The settings of one section, as a value.
pub type Settings = vstd::map::Map<Seq<char>, Seq<char>>;

/// A section: its name and its settings, no two of them under the same key.
#[derive(Debug)]
pub struct Section {
    pub name: String,
    pub entries: Vec<(String, String)>,
}

/// All sections, no two of them with the same name.
#[derive(Debug)]
pub struct Ini {
    pub sections: Vec<Section>,
}

impl Section {
    /// The entry under the key.
    pub open spec fn entry_at(self, key: Seq<char>, i: int) -> bool {
        0 <= i < self.entries@.len() && self.entries@[i].0@ == key
    }

    pub open spec fn has(self, key: Seq<char>) -> bool {
        exists|i: int| self.entry_at(key, i)
    }

    pub open spec fn wf(self) -> bool {
        forall|key: Seq<char>, i: int, j: int|
            #![trigger self.entry_at(key, i), self.entry_at(key, j)]
            self.entry_at(key, i) && self.entry_at(key, j) ==> i == j
    }

    pub open spec fn settings(self) -> Settings {
        Map::new(
            |key: Seq<char>| self.has(key),
            |key: Seq<char>| self.entries@[choose|i: int| self.entry_at(key, i)].1@,
        )
    }

    proof fn lemma_setting(self, key: Seq<char>, i: int)
        requires
            self.wf(),
            self.entry_at(key, i),
        ensures
            self.settings().contains_key(key),
            self.settings()[key] == self.entries@[i].1@,
    {
        let c = choose|c: int| self.entry_at(key, c);
        assert(self.entry_at(key, c));
    }

    fn find(&self, key: &str) -> (r: Option<usize>)
        ensures
            match r {
                Some(i) => self.entry_at(key@, i as int),
                None => !self.has(key@),
            },
    {
        let mut i: usize = 0;
        while i < self.entries.len()
            invariant
                i <= self.entries.len(),
                forall|j: int| 0 <= j < i ==> !self.entry_at(key@, j),
            decreases self.entries.len() - i,
        {
            if same(self.entries[i].0.as_str(), key) {
                return Some(i);
            }
            i = i + 1;
        }
        None
    }

    /// The setting under the key.
    pub fn get(&self, key: &str) -> (r: Option<&String>)
        requires
            self.wf(),
        ensures
            match r {
                Some(v) => self.settings().contains_key(key@) && self.settings()[key@] == v@,
                None => !self.settings().contains_key(key@),
            },
    {
        match self.find(key) {
            Some(i) => {
                proof {
                    self.lemma_setting(key@, i as int);
                }
                Some(&self.entries[i].1)
            },
            None => None,
        }
    }

    /// Sets what stands under the key.
    fn set(&mut self, key: String, value: String)
        requires
            old(self).wf(),
        ensures
            final(self).wf(),
            final(self).name == old(self).name,
            final(self).settings() == old(self).settings().insert(key@, value@),
    {
        let ghost before = *self;
        let ghost k = key@;
        let ghost v = value@;
        let found = self.find(key.as_str());
        match found {
            Some(i) => {
                self.entries.set(i, (key, value));
            },
            None => {
                self.entries.push((key, value));
            },
        }
        let ghost at = match found {
            Some(i) => i as int,
            None => before.entries@.len() as int,
        };
        proof {
            let after = *self;
            assert(after.entries@[at].0@ == k && after.entries@[at].1@ == v);
            assert forall|key: Seq<char>, i: int|
                after.entry_at(key, i) <==> (i == at && key == k) || (i != at && before.entry_at(
                    key,
                    i,
                )) by {}
            assert forall|key: Seq<char>, i: int, j: int|
                after.entry_at(key, i) && after.entry_at(key, j) implies i == j by {
                if i == at && j != at {
                    assert(before.entry_at(k, j));
                }
                if j == at && i != at {
                    assert(before.entry_at(k, i));
                }
                if i != at && j != at {
                    assert(before.entry_at(key, i) && before.entry_at(key, j));
                }
            }
            assert(after.wf());
            assert forall|key: Seq<char>| #[trigger]
                after.settings().contains_key(key) == before.settings().insert(k, v).contains_key(
                    key,
                ) by {
                if key == k {
                    assert(after.entry_at(key, at));
                } else {
                    if before.has(key) {
                        let i = choose|i: int| before.entry_at(key, i);
                        assert(before.entry_at(key, i));
                        if i == at {
                            assert(found is Some);
                            assert(false);
                        }
                        assert(after.entry_at(key, i));
                    }
                    if after.has(key) {
                        let i = choose|i: int| after.entry_at(key, i);
                        assert(after.entry_at(key, i));
                        assert(before.entry_at(key, i));
                    }
                }
            }
            assert forall|key: Seq<char>| #[trigger]
                after.settings().contains_key(key) implies after.settings()[key]
                == before.settings().insert(k, v)[key] by {
                if key == k {
                    after.lemma_setting(key, at);
                } else {
                    let i = choose|i: int| after.entry_at(key, i);
                    assert(after.entry_at(key, i));
                    assert(before.entry_at(key, i));
                    after.lemma_setting(key, i);
                    before.lemma_setting(key, i);
                }
            }
            assert(after.settings() =~= before.settings().insert(k, v));
        }
    }
}

impl Ini {
    pub open spec fn section_at(self, name: Seq<char>, i: int) -> bool {
        0 <= i < self.sections@.len() && self.sections@[i].name@ == name
    }

    pub open spec fn has(self, name: Seq<char>) -> bool {
        exists|i: int| self.section_at(name, i)
    }

    pub open spec fn wf(self) -> bool {
        &&& forall|name: Seq<char>, i: int, j: int|
            #![trigger self.section_at(name, i), self.section_at(name, j)]
            self.section_at(name, i) && self.section_at(name, j) ==> i == j
        &&& forall|i: int| 0 <= i < self.sections@.len() ==> (#[trigger] self.sections@[i]).wf()
    }

    proof fn lemma_section(self, name: Seq<char>, i: int)
        requires
            self.wf(),
            self.section_at(name, i),
        ensures
            self@.contains_key(name),
            self@[name] == self.sections@[i].settings(),
    {
        let c = choose|c: int| self.section_at(name, c);
        assert(self.section_at(name, c));
    }
}

impl View for Ini {
    type V = vstd::map::Map<Seq<char>, Settings>;

    open spec fn view(&self) -> Self::V {
        Map::new(
            |name: Seq<char>| self.has(name),
            |name: Seq<char>| self.sections@[choose|i: int| self.section_at(name, i)].settings(),
        )
    }
}

impl Ini {
    fn find(&self, name: &str) -> (r: Option<usize>)
        ensures
            match r {
                Some(i) => self.section_at(name@, i as int),
                None => !self.has(name@),
            },
    {
        let mut i: usize = 0;
        while i < self.sections.len()
            invariant
                i <= self.sections.len(),
                forall|j: int| 0 <= j < i ==> !self.section_at(name@, j),
            decreases self.sections.len() - i,
        {
            if same(self.sections[i].name.as_str(), name) {
                return Some(i);
            }
            i = i + 1;
        }
        None
    }

    /// The section of that name.
    pub fn get(&self, name: &str) -> (r: Option<&Section>)
        requires
            self.wf(),
        ensures
            match r {
                Some(s) => self@.contains_key(name@) && s.settings() == self@[name@] && s.wf(),
                None => !self@.contains_key(name@),
            },
    {
        match self.find(name) {
            Some(i) => {
                proof {
                    self.lemma_section(name@, i as int);
                }
                Some(&self.sections[i])
            },
            None => None,
        }
    }
}

/// All sections once one of that name exists.
pub open spec fn opened(m: Map<Seq<char>, Settings>, name: Seq<char>) -> Map<Seq<char>, Settings> {
    if m.contains_key(name) {
        m
    } else {
        m.insert(name, Map::empty())
    }
}

impl Ini {
    /// Makes sure that there is a section of that name.
    fn open(&mut self, name: &str)
        requires
            old(self).wf(),
        ensures
            final(self).wf(),
            final(self)@ == opened(old(self)@, name@),
    {
        if self.find(name).is_some() {
            return;
        }
        let ghost before = *self;
        let entries: Vec<(String, String)> = Vec::new();
        let fresh = Section { name: name.to_owned(), entries };
        self.sections.push(fresh);
        proof {
            let after = *self;
            let at = before.sections@.len() as int;
            assert(after.sections@[at] == fresh);
            assert(fresh.settings() =~= Map::empty());
            assert forall|n: Seq<char>, i: int|
                after.section_at(n, i) <==> (i == at && n == name@) || before.section_at(n, i) by {}
            assert forall|n: Seq<char>, i: int, j: int|
                after.section_at(n, i) && after.section_at(n, j) implies i == j by {
                if i == at && j != at {
                    assert(before.section_at(name@, j));
                }
                if j == at && i != at {
                    assert(before.section_at(name@, i));
                }
                if i != at && j != at {
                    assert(before.section_at(n, i) && before.section_at(n, j));
                }
            }
            assert(after.wf());
            lemma_same_but(before, after, name@, at);
            assert(after@ =~= before@.insert(name@, Map::empty()));
        }
    }

    /// Sets what stands under the key in the section of that name.
    fn set(&mut self, name: &str, key: String, value: String)
        requires
            old(self).wf(),
            old(self)@.contains_key(name@),
        ensures
            final(self).wf(),
            final(self)@ == old(self)@.insert(name@, old(self)@[name@].insert(key@, value@)),
    {
        let ghost before = *self;
        match self.find(name) {
            Some(i) => {
                let ghost settings = self.sections@[i as int].settings().insert(key@, value@);
                proof {
                    self.lemma_section(name@, i as int);
                }
                self.sections[i].set(key, value);
                proof {
                    let after = *self;
                    assert forall|n: Seq<char>, j: int|
                        after.section_at(n, j) <==> before.section_at(n, j) by {}
                    assert forall|n: Seq<char>, a: int, b: int|
                        after.section_at(n, a) && after.section_at(n, b) implies a == b by {
                        assert(before.section_at(n, a) && before.section_at(n, b));
                    }
                    assert(after.wf());
                    lemma_same_but(before, after, name@, i as int);
                    assert(after@ =~= before@.insert(name@, settings));
                }
            },
            None => {},
        }
    }
}

/// Two files that differ in the section of one name only.
proof fn lemma_same_but(before: Ini, after: Ini, name: Seq<char>, at: int)
    requires
        before.wf(),
        after.wf(),
        after.section_at(name, at),
        before.sections@.len() <= after.sections@.len() <= before.sections@.len() + 1,
        after.sections@.len() == before.sections@.len() + 1 ==> at == before.sections@.len(),
        forall|i: int|
            0 <= i < before.sections@.len() && i != at ==> after.sections@[i] == before.sections@[i],
        at < before.sections@.len() ==> before.section_at(name, at),
    ensures
        after@ == before@.insert(name, after.sections@[at].settings()),
{
    after.lemma_section(name, at);
    let want = before@.insert(name, after.sections@[at].settings());
    assert forall|n: Seq<char>| #[trigger] after@.contains_key(n) == want.contains_key(n) by {
        if n != name {
            if before.has(n) {
                let i = choose|i: int| before.section_at(n, i);
                assert(before.section_at(n, i));
                assert(after.section_at(n, i));
            }
            if after.has(n) {
                let i = choose|i: int| after.section_at(n, i);
                assert(after.section_at(n, i));
                assert(before.section_at(n, i));
            }
        }
    }
    assert forall|n: Seq<char>| #[trigger] after@.contains_key(n) implies after@[n] == want[n] by {
        if n != name {
            let i = choose|i: int| after.section_at(n, i);
            assert(after.section_at(n, i));
            assert(before.section_at(n, i));
            after.lemma_section(n, i);
            before.lemma_section(n, i);
        }
    }
    assert(after@ =~= want);
}

// ---------------------------------------------------------------------------
// Reading
// ---------------------------------------------------------------------------

/// What has been read: all sections, and the name of the one that lines now
/// belong to.
#[verifier::ext_equal]
pub struct Reading {
    pub sections: Map<Seq<char>, Settings>,
    pub current: Option<Seq<char>>,
}

/// The name in a heading: what stands in brackets, its words separated by
/// single spaces.
pub open spec fn heading(line: Seq<char>) -> Option<Seq<char>> {
    match split::without_prefix(line, "["@) {
        Some(rest) => match split::without_suffix(rest, "]"@) {
            Some(name) => Some(split::joined(split::words_of(name), " "@)),
            None => None,
        },
        None => None,
    }
}

/// The line says nothing: it is blank, a comment, or indented (nested settings
/// such as `s3 =` blocks).
pub open spec fn skipped(raw: Seq<char>) -> bool {
    let line = text::trimmed(raw);
    (raw.len() > 0 && text::white(raw[0])) || line.len() == 0 || "#"@.is_prefix_of(line)
        || ";"@.is_prefix_of(line)
}

impl Reading {
    /// What has been read after one more line.
    pub open spec fn with_line(self, raw: Seq<char>) -> Reading {
        let line = text::trimmed(raw);
        if skipped(raw) {
            self
        } else {
            match heading(line) {
                Some(name) => Reading {
                    sections: opened(self.sections, name),
                    current: Some(name),
                },
                None => match (self.current, split::cut_once(line, "="@)) {
                    (Some(name), Some((key, value))) => Reading {
                        sections: self.sections.insert(
                            name,
                            self.sections[name].insert(text::trimmed(key), text::trimmed(value)),
                        ),
                        current: self.current,
                    },
                    _ => self,
                },
            }
        }
    }
}

/// What has been read after all the lines.
pub open spec fn reading(lines: Seq<Seq<char>>) -> Reading
    decreases lines.len(),
{
    if lines.len() == 0 {
        Reading { sections: Map::empty(), current: None }
    } else {
        reading(lines.drop_last()).with_line(lines.last())
    }
}

/// The sections that `text` writes.
pub open spec fn sections_of(text: Seq<char>) -> Map<Seq<char>, Settings> {
    reading(split::lines_of(text)).sections
}

fn read_heading(line: &str) -> (r: Option<String>)
    ensures
        text::opt_string(r) == heading(line@),
{
    match strip_prefix(line, "[") {
        Some(rest) => match strip_suffix(rest.as_str(), "]") {
            Some(name) => {
                let words = drop_empty(&split(name.as_str(), Class::Space));
                Some(join(&words, " "))
            },
            None => None,
        },
        None => None,
    }
}

fn is_skipped(raw: &str) -> (r: bool)
    ensures
        r == skipped(raw@),
{
    let v = chars_of(raw);
    if v.len() > 0 && is_white(v[0]) {
        return true;
    }
    let line = trim(raw);
    line.as_str().is_empty() || starts_with(line.as_str(), "#") || starts_with(line.as_str(), ";")
}

/// Minimal INI reader for ~/.aws/config. Indented lines (nested settings
/// such as `s3 =` blocks) are skipped.
pub fn parse_ini(text: &str) -> (r: Ini)
    ensures
        r.wf(),
        r@ == sections_of(text@),
{
    let all = lines(text);
    let ghost want = split::lines_of(text@);
    let sections: Vec<Section> = Vec::new();
    let mut out = Ini { sections };
    let mut current: Option<String> = None;
    let mut i: usize = 0;
    assert(out@ =~= Map::empty());
    assert(reading(want.take(0)) == (Reading { sections: Map::empty(), current: None }));
    while i < all.len()
        invariant
            i <= all.len(),
            text::views(all@) == want,
            want == split::lines_of(text@),
            out.wf(),
            out@ == reading(want.take(i as int)).sections,
            text::opt_string(current) == reading(want.take(i as int)).current,
            current matches Some(name) ==> out@.contains_key(name@),
        decreases all.len() - i,
    {
        assert(want.take(i + 1).drop_last() =~= want.take(i as int));
        assert(want.take(i + 1).last() == all@[i as int]@);
        let raw = all[i].as_str();
        if !is_skipped(raw) {
            let line = trim(raw);
            match read_heading(line.as_str()) {
                Some(name) => {
                    out.open(name.as_str());
                    current = Some(name);
                },
                None => match (&current, split_once(line.as_str(), "=")) {
                    (Some(name), Some((key, value))) => {
                        out.set(name.as_str(), trim(key.as_str()), trim(value.as_str()));
                    },
                    _ => {},
                },
            }
        }
        i = i + 1;
    }
    assert(want.take(want.len() as int) =~= want);
    out
}

/// The lines that say something.
pub open spec fn telling_lines(lines: Seq<Seq<char>>) -> Seq<Seq<char>>
    decreases lines.len(),
{
    if lines.len() == 0 {
        lines
    } else if skipped(lines.last()) {
        telling_lines(lines.drop_last())
    } else {
        telling_lines(lines.drop_last()).push(lines.last())
    }
}

/// Blank lines, comments and indented lines make no difference, wherever they
/// stand.
pub proof fn lemma_skipped_lines(lines: Seq<Seq<char>>)
    ensures
        reading(telling_lines(lines)) == reading(lines),
    decreases lines.len(),
{
    if lines.len() > 0 {
        lemma_skipped_lines(lines.drop_last());
        if !skipped(lines.last()) {
            assert(telling_lines(lines).drop_last() =~= telling_lines(lines.drop_last()));
        }
    }
}

} // verus!
