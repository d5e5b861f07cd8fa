//! Paths: what is joined is found again.

use crate::config;
use crate::path;
use crate::split;
use crate::text;
use vstd::prelude::*;

verus! {

/// The last component of a file's path is the file's name, whatever directory it
/// lies in.
pub proof fn lemma_name_of_file(dir: Seq<char>, name: Seq<char>)
    requires
        crate::laws::sync::file_like(name),
    ensures
        path::name_of(dir + seq!['/'] + name) == Some(name),
{
    let slash = text::Class::Only('/');
    let p = dir + seq!['/'] + name;
    split::lemma_pieces_concat(dir, '/', name, slash);
    split::lemma_one_piece(name, slash);
    let all = path::segments(p);
    assert(all =~= path::segments(dir).push(name));
    assert(all.drop_last() =~= path::segments(dir));
    assert(path::named(name));
    assert(path::kept(all).last() == name);
    assert(path::components(p).last() == name);
}

/// Joining puts one slash between a directory and what lies in it, none where
/// there is one already, and goes to an absolute path as it stands.
pub proof fn lemma_joined(base: Seq<char>, rest: Seq<char>)
    requires
        base.len() > 0,
        rest.len() > 0,
        rest[0] != '/',
    ensures
        base.last() != '/' ==> path::joined_path(base, rest) == base + "/"@ + rest,
        base.last() == '/' ==> path::joined_path(base, rest) == base + rest,
        path::joined_path(base, "/"@ + rest) == "/"@ + rest,
{
    reveal_strlit("/");
    assert(base + seq!['/'] + rest =~= base + "/"@ + rest);
    assert(("/"@ + rest)[0] == '/');
}

/// A file's path is that of its directory and its name: two files are the same
/// when their directories and their names are.
pub proof fn lemma_same_file(d: Seq<char>, n: Seq<char>, e: Seq<char>, m: Seq<char>)
    requires
        path::absolute(d),
        path::absolute(e),
        crate::laws::sync::file_like(n),
        crate::laws::sync::file_like(m),
    ensures
        path::equal_paths(d + seq!['/'] + n, e + seq!['/'] + m) <==> path::equal_paths(d, e) && n
            == m,
        path::equal_paths(d + seq!['/'], d),
        path::equal_paths(d + seq!['/', '/'] + n, d + seq!['/'] + n),
        path::equal_paths(d + seq!['/', '.', '/'] + n, d + seq!['/'] + n),
        !path::equal_paths(d, n),
{
    let slash = text::Class::Only('/');
    let nothing = Seq::<char>::empty();
    let dot = seq!['.'];
    lemma_components_in(d, n);
    lemma_components_in(e, m);
    let (dn, em) = (d + seq!['/'] + n, e + seq!['/'] + m);
    let (a, b) = (path::components(d), path::components(e));
    if path::components(dn) == path::components(em) {
        assert(a.push(n).drop_last() =~= a);
        assert(b.push(m).drop_last() =~= b);
        assert(a.push(n).last() == n && b.push(m).last() == m);
    }
    split::lemma_pieces_concat(d, '/', nothing, slash);
    split::lemma_one_piece(nothing, slash);
    path::lemma_kept_concat(path::segments(d), seq![nothing]);
    path::lemma_kept_one(nothing);
    assert(d + seq!['/'] + nothing =~= d + seq!['/']);
    assert((d + seq!['/'])[0] == '/');
    assert(path::components(d + seq!['/']) =~= a);
    lemma_components_in(d + seq!['/'], n);
    assert(d + seq!['/'] + seq!['/'] + n =~= d + seq!['/', '/'] + n);
    let dd = d + seq!['/'] + dot;
    split::lemma_pieces_concat(d, '/', dot, slash);
    split::lemma_one_piece(dot, slash);
    path::lemma_kept_concat(path::segments(d), seq![dot]);
    path::lemma_kept_one(dot);
    assert(dd[0] == '/');
    assert(path::components(dd) =~= a);
    lemma_components_in(dd, n);
    assert(dd + seq!['/'] + n =~= d + seq!['/', '.', '/'] + n);
    assert(!text::in_class(n[0], slash));
}

/// The components of a file's path are those of its directory and its name.
proof fn lemma_components_in(d: Seq<char>, n: Seq<char>)
    requires
        path::absolute(d),
        crate::laws::sync::file_like(n),
    ensures
        path::absolute(d + seq!['/'] + n),
        path::components(d + seq!['/'] + n) == path::components(d).push(n),
        path::segments(d + seq!['/'] + n) == path::segments(d).push(n),
{
    let slash = text::Class::Only('/');
    let p = d + seq!['/'] + n;
    split::lemma_pieces_concat(d, '/', n, slash);
    split::lemma_one_piece(n, slash);
    path::lemma_kept_concat(path::segments(d), seq![n]);
    path::lemma_kept_one(n);
    assert(p[0] == d[0]);
    assert(path::segments(p) =~= path::segments(d).push(n));
    assert(path::components(p) =~= path::components(d).push(n));
}

/// A directory is shown as `~` if it is the home directory, what lies in the home
/// directory by `~/` and its name, and nothing that lies elsewhere is shortened.
pub proof fn lemma_shown_in_short(home: Seq<char>, name: Seq<char>, p: Seq<char>)
    requires
        path::absolute(home),
        crate::laws::sync::file_like(name),
    ensures
        config::collapsed(home, home) == "~"@,
        config::collapsed(home + seq!['/'] + name, home) == "~/"@ + name,
        !path::components(home).is_prefix_of(path::components(p)) ==> config::collapsed(p, home) == p,
        !path::absolute(p) ==> config::collapsed(p, home) == p,
{
    let inside = home + seq!['/'] + name;
    let a = path::components(home);
    let n = a.len();
    lemma_components_in(home, name);
    let b = path::components(inside);
    assert(a =~= b.subrange(0, n as int));
    assert(a =~= a.subrange(0, n as int));
    path::lemma_past(path::segments(home), n);
    let none = path::past(path::segments(home), n);
    assert(a.skip(n as int).len() == 0);
    if none.len() > 0 {
        let first = none.subrange(0, 1);
        assert(first =~= seq![none[0]]);
        assert(none =~= first + none.skip(1));
        path::lemma_kept_concat(first, none.skip(1));
        path::lemma_kept_one(none[0]);
        assert(path::kept(none)[0] == none[0]);
    }
    assert(split::joined(path::to_last_named(none), seq!['/']).len() == 0);
    path::lemma_past(path::segments(inside), n);
    let rest = path::past(path::segments(inside), n);
    let from = choose|i: int|
        0 <= i <= path::segments(inside).len() && rest == #[trigger] path::segments(inside).skip(i);
    assert(b.skip(n as int) =~= seq![name]);
    assert(rest.len() > 0);
    assert(rest.last() == name);
    if rest.len() > 1 {
        let first = rest.subrange(0, 1);
        let mid = rest.subrange(1, rest.len() - 1);
        assert(first =~= seq![rest[0]]);
        assert(rest =~= first + mid + seq![name]);
        path::lemma_kept_concat(first + mid, seq![name]);
        path::lemma_kept_concat(first, mid);
        path::lemma_kept_one(rest[0]);
        path::lemma_kept_one(name);
        assert(path::kept(rest).len() >= 2);
    }
    assert(rest =~= seq![name]);
    assert(path::to_last_named(rest) == rest);
    assert(split::joined(rest, seq!['/']) == name);
}

} // verus!
