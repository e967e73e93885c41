use vstd::prelude::*;

use crate::text::{
    concat, concat3, first_index_of, join_sep, join_strings, split_char, split_pieces, str_eq, texts,
};

verus! {

/// Index of the last occurrence of `c` in `s`, if any.
pub open spec fn last_index_of(s: Seq<char>, c: char) -> Option<int>
    decreases s.len(),
{
    if s.len() == 0 {
        None
    } else if s.last() == c {
        Some(s.len() - 1)
    } else {
        last_index_of(s.drop_last(), c)
    }
}

/// The normal components of a `/`-separated path: empty pieces and `.` are dropped.
pub open spec fn path_components(path: Seq<char>) -> Seq<Seq<char>> {
    split_pieces(path, '/').filter(|p: Seq<char>| p.len() > 0 && p != "."@)
}

/// The final component of a path, unless there is none or it is `..`.
pub open spec fn file_name_of(path: Seq<char>) -> Option<Seq<char>> {
    let comps = path_components(path);
    if comps.len() == 0 || comps.last() == ".."@ {
        None
    } else {
        Some(comps.last())
    }
}

/// The extension of a file name: the part after the final `.`, unless there is
/// no `.`, or the only `.` is the leading one.
pub open spec fn name_extension(name: Seq<char>) -> Option<Seq<char>> {
    match last_index_of(name, '.') {
        None => None,
        Some(i) => if i == 0 {
            None
        } else {
            Some(name.subrange(i + 1, name.len() as int))
        },
    }
}

/// The extension of the file a path names, if any.
pub open spec fn path_extension(path: Seq<char>) -> Option<Seq<char>> {
    match file_name_of(path) {
        None => None,
        Some(name) => name_extension(name),
    }
}

pub proof fn lemma_last_index_of(s: Seq<char>, c: char)
    ensures
        match last_index_of(s, c) {
            Some(i) => 0 <= i < s.len() && s[i] == c && forall|j: int| i < j < s.len() ==> s[j] != c,
            None => forall|j: int| 0 <= j < s.len() ==> s[j] != c,
        },
    decreases s.len(),
{
    if s.len() > 0 && s.last() != c {
        lemma_last_index_of(s.drop_last(), c);
        assert forall|j: int| 0 <= j < s.len() - 1 implies s[j] == s.drop_last()[j] by {}
    }
}

/// Character index of the last occurrence of `c` in `s`.
pub fn find_last_char(s: &str, c: char) -> (r: Option<usize>)
    ensures
        match r {
            Some(i) => last_index_of(s@, c) == Some(i as int),
            None => last_index_of(s@, c).is_none(),
        },
{
    let n = s.unicode_len();
    let mut i: usize = n;
    proof {
        assert(s@.subrange(0, n as int) =~= s@);
    }
    while i > 0
        invariant
            n == s@.len(),
            i <= n,
            last_index_of(s@, c) == last_index_of(s@.subrange(0, i as int), c),
        decreases i,
    {
        let ghost prefix = s@.subrange(0, i as int);
        if s.get_char(i - 1) == c {
            return Some(i - 1);
        }
        proof {
            assert(prefix.drop_last() =~= s@.subrange(0, i - 1));
        }
        i = i - 1;
    }
    None
}

/// The extension of a file name (see [`name_extension`]).
pub fn extension_of_name(name: &str) -> (r: Option<String>)
    ensures
        match name_extension(name@) {
            Some(e) => r matches Some(x) && x@ == e,
            None => r.is_none(),
        },
{
    match find_last_char(name, '.') {
        None => None,
        Some(i) => {
            if i == 0 {
                None
            } else {
                proof {
                    lemma_last_index_of(name@, '.');
                }
                let n = name.unicode_len();
                Some(name.substring_char(i + 1, n).to_owned())
            }
        },
    }
}

/// The normal components of a path (see [`path_components`]).
pub fn components_of(path: &str) -> (r: Vec<String>)
    ensures
        r@.map_values(|s: String| s@) == path_components(path@),
{
    let pieces = split_char(path, '/');
    let ghost all = split_pieces(path@, '/');
    let ghost keep = |p: Seq<char>| p.len() > 0 && p != "."@;
    let mut out: Vec<String> = Vec::new();
    let mut i: usize = 0;
    assert(all.take(0).filter(keep) =~= Seq::<Seq<char>>::empty());
    while i < pieces.len()
        invariant
            i <= pieces@.len(),
            pieces@.len() == all.len(),
            all == split_pieces(path@, '/'),
            keep == (|p: Seq<char>| p.len() > 0 && p != "."@),
            forall|j: int| 0 <= j < pieces@.len() ==> #[trigger] pieces@[j]@ == all[j],
            out@.map_values(|s: String| s@) == all.take(i as int).filter(keep),
        decreases pieces@.len() - i,
    {
        let p = pieces[i].as_str();
        let ghost before = out@;
        proof {
            assert(all.take(i + 1).drop_last() =~= all.take(i as int));
            all.take(i as int).lemma_filter_push(all[i as int], keep);
            assert(all.take(i + 1) =~= all.take(i as int).push(all[i as int]));
        }
        if p.unicode_len() > 0 && !str_eq(p, ".") {
            out.push(p.to_owned());
            proof {
                assert(out@.map_values(|s: String| s@) =~= before.map_values(|s: String| s@).push(
                    p@,
                ));
            }
        }
        i = i + 1;
    }
    assert(all.take(all.len() as int) =~= all);
    out
}

/// The extension of the file a path names (see [`path_extension`]).
pub fn extension_of_path(path: &str) -> (r: Option<String>)
    ensures
        match path_extension(path@) {
            Some(e) => r matches Some(x) && x@ == e,
            None => r.is_none(),
        },
{
    let comps = components_of(path);
    if comps.len() == 0 {
        return None;
    }
    let last = comps[comps.len() - 1].as_str();
    proof {
        let m = comps@.map_values(|s: String| s@);
        assert(m.last() == last@);
    }
    if str_eq(last, "..") {
        return None;
    }
    extension_of_name(last)
}


/// Whether a path is absolute (starts at the root).
pub open spec fn is_absolute(p: Seq<char>) -> bool {
    p.len() > 0 && p[0] == '/'
}

/// Applies path components to a list of components: `..` removes the last one
/// (where there is one), any other is appended.
pub open spec fn resolve_components(start: Seq<Seq<char>>, comps: Seq<Seq<char>>) -> Seq<Seq<char>>
    decreases comps.len(),
{
    if comps.len() == 0 {
        start
    } else {
        let prev = resolve_components(start, comps.drop_last());
        if comps.last() == ".."@ {
            if prev.len() > 0 {
                prev.drop_last()
            } else {
                prev
            }
        } else {
            prev.push(comps.last())
        }
    }
}

/// A path in normal form: a leading `/` where it is absolute, then its
/// components separated by single `/`.
pub open spec fn render_path(root: bool, comps: Seq<Seq<char>>) -> Seq<char> {
    (if root {
        "/"@
    } else {
        Seq::empty()
    }) + join_sep(comps, "/"@)
}

/// `path` resolved against the directory `cwd` without following links: an
/// absolute path stands alone, a relative one continues `cwd`; `.` is dropped and
/// `..` removes the component before it.
pub open spec fn normalized_path(cwd: Seq<char>, path: Seq<char>) -> Seq<char> {
    if is_absolute(path) {
        render_path(true, resolve_components(Seq::empty(), path_components(path)))
    } else {
        render_path(is_absolute(cwd), resolve_components(path_components(cwd), path_components(path)))
    }
}

/// Resolves `path` against `cwd` (see [`normalized_path`]).
pub fn normalize_path(cwd: &str, path: &str) -> (r: String)
    ensures
        r@ == normalized_path(cwd@, path@),
{
    let absolute = path.unicode_len() > 0 && path.get_char(0) == '/';
    let base_absolute = cwd.unicode_len() > 0 && cwd.get_char(0) == '/';
    let mut acc: Vec<String> = if absolute {
        Vec::new()
    } else {
        components_of(cwd)
    };
    let ghost start = texts(acc@);
    proof {
        if absolute {
            assert(start =~= Seq::<Seq<char>>::empty());
        } else {
            assert(start == path_components(cwd@));
        }
    }
    let comps = components_of(path);
    let ghost cs = texts(comps@);
    assert(cs == path_components(path@));
    let mut i: usize = 0;
    assert(cs.take(0) =~= Seq::<Seq<char>>::empty());
    while i < comps.len()
        invariant
            i <= comps@.len(),
            cs == texts(comps@),
            texts(acc@) == resolve_components(start, cs.take(i as int)),
        decreases comps@.len() - i,
    {
        let c = comps[i].as_str();
        proof {
            assert(cs.take(i + 1).drop_last() =~= cs.take(i as int));
            assert(cs.take(i + 1).last() == c@);
        }
        if str_eq(c, "..") {
            if acc.len() > 0 {
                let ghost before = texts(acc@);
                acc.pop();
                proof {
                    assert(texts(acc@) =~= before.drop_last());
                }
            }
        } else {
            let ghost before = texts(acc@);
            acc.push(c.to_owned());
            proof {
                assert(texts(acc@) =~= before.push(c@));
            }
        }
        i = i + 1;
    }
    assert(cs.take(comps@.len() as int) =~= cs);
    let body = join_strings(&acc, "/");
    if absolute || (!absolute && base_absolute) {
        concat("/", body.as_str())
    } else {
        body
    }
}

/// `path` without the separators and `.` components that end it.
pub open spec fn trim_path_end(path: Seq<char>) -> Seq<char>
    decreases path.len(),
{
    if path.len() > 0 && path.last() == '/' {
        trim_path_end(path.drop_last())
    } else if path.len() > 1 && path.last() == '.' && path[path.len() - 2] == '/' {
        trim_path_end(path.drop_last())
    } else {
        path
    }
}

/// The path of the bitcode that stands for a file: the path up to the end of its
/// file name, followed by `.bc`; the path itself where it names no file.
pub open spec fn bitcode_path_of(path: Seq<char>) -> Seq<char> {
    match file_name_of(path) {
        None => path,
        Some(_) => trim_path_end(path) + ".bc"@,
    }
}

/// Whether a path names a file (see [`file_name_of`]).
pub fn names_file(path: &str) -> (r: bool)
    ensures
        r == file_name_of(path@) is Some,
{
    let comps = components_of(path);
    if comps.len() == 0 {
        return false;
    }
    let last = comps[comps.len() - 1].as_str();
    proof {
        let m = comps@.map_values(|s: String| s@);
        assert(m.last() == last@);
    }
    !str_eq(last, "..")
}

/// The path without the separators and `.` components that end it (see
/// [`trim_path_end`]).
pub fn trim_end(path: &str) -> (r: String)
    ensures
        r@ == trim_path_end(path@),
{
    let mut n = path.unicode_len();
    proof {
        assert(path@.subrange(0, n as int) =~= path@);
    }
    while n > 0
        invariant
            n <= path@.len(),
            trim_path_end(path@) == trim_path_end(path@.subrange(0, n as int)),
        ensures
            n <= path@.len(),
            trim_path_end(path@) == path@.subrange(0, n as int),
        decreases n,
    {
        let ghost cur = path@.subrange(0, n as int);
        let last_char = path.get_char(n - 1);
        if last_char == '/' {
            proof {
                assert(cur.drop_last() =~= path@.subrange(0, n - 1));
            }
            n = n - 1;
        } else if n > 1 && last_char == '.' && path.get_char(n - 2) == '/' {
            proof {
                assert(cur.drop_last() =~= path@.subrange(0, n - 1));
            }
            n = n - 1;
        } else {
            proof {
                assert(trim_path_end(cur) == cur);
            }
            break;
        }
    }
    proof {
        if n == 0 {
            assert(path@.subrange(0, 0) =~= Seq::<char>::empty());
        }
    }
    path.substring_char(0, n).to_owned()
}

/// The path of the bitcode that stands for a file (see [`bitcode_path_of`]).
pub fn bitcode_path(path: &str) -> (r: String)
    ensures
        r@ == bitcode_path_of(path@),
{
    if !names_file(path) {
        return path.to_owned();
    }
    let trimmed = trim_end(path);
    concat(trimmed.as_str(), ".bc")
}

/// `rel` joined onto `base`: `rel` itself where it is absolute or `base` is empty,
/// otherwise `base`, a `/` unless `base` ends with one, and `rel`.
pub open spec fn joined_path(base: Seq<char>, rel: Seq<char>) -> Seq<char> {
    if is_absolute(rel) || base.len() == 0 {
        rel
    } else if base.last() == '/' {
        base + rel
    } else {
        base + "/"@ + rel
    }
}

/// Joins `rel` onto `base` (see [`joined_path`]).
pub fn join_path(base: &str, rel: &str) -> (r: String)
    ensures
        r@ == joined_path(base@, rel@),
{
    let n = base.unicode_len();
    if (rel.unicode_len() > 0 && rel.get_char(0) == '/') || n == 0 {
        rel.to_owned()
    } else if base.get_char(n - 1) == '/' {
        concat(base, rel)
    } else {
        let mut s = concat(base, "/");
        s.append(rel);
        s
    }
}

/// `path` with the extension of its file name replaced by `ext`: the path up to
/// the end of the file name's stem (the name without its last `.` part, unless
/// that `.` opens the name), a `.`, then `ext`; the path itself where it names no file.
pub open spec fn with_extension(path: Seq<char>, ext: Seq<char>) -> Seq<char> {
    match file_name_of(path) {
        None => path,
        Some(_) => {
            let t = trim_path_end(path);
            let name_start = match last_index_of(t, '/') {
                Some(i) => i + 1,
                None => 0,
            };
            let cut = match last_index_of(t, '.') {
                Some(d) => if d > name_start {
                    d
                } else {
                    t.len() as int
                },
                None => t.len() as int,
            };
            t.subrange(0, cut) + "."@ + ext
        },
    }
}

/// The path with the extension of its file name replaced (see [`with_extension`]).
pub fn replace_extension(path_wks: &str, ext: &str) -> (r: String)
    ensures
        r@ == with_extension(path_wks@, ext@),
{
    if !names_file(path_wks) {
        return path_wks.to_owned();
    }
    let owned = trim_end(path_wks);
    let trimmed = owned.as_str();
    proof {
        lemma_last_index_of(trimmed@, '.');
        lemma_last_index_of(trimmed@, '/');
    }
    let len = trimmed.unicode_len();
    let slash = find_last_char(trimmed, '/');
    let name_start: usize = match slash {
        Some(i) => i + 1,
        None => 0,
    };
    let cut: usize = match find_last_char(trimmed, '.') {
        Some(d) => if d > name_start {
            d
        } else {
            len
        },
        None => len,
    };
    let stem = trimmed.substring_char(0, cut);
    concat3(stem, ".", ext)
}


/// A component as normal paths hold it: not empty, neither `.` nor `..`, and
/// free of `/`.
#[verifier::opaque]
pub open spec fn normal_component(c: Seq<char>) -> bool {
    c.len() > 0 && c != "."@ && c != ".."@ && !c.contains('/')
}

/// The pieces of a text split at a separator hold no separator.
proof fn lemma_pieces_free(s: Seq<char>, sep: char)
    ensures
        forall|i: int| 0 <= i < split_pieces(s, sep).len() ==> !(#[trigger] split_pieces(s, sep)[i]).contains(sep),
    decreases s.len(),
{
    crate::text::lemma_first_index_of(s, sep);
    match first_index_of(s, sep) {
        None => {
            assert(split_pieces(s, sep) == seq![s]);
            assert(!s.contains(sep));
        },
        Some(i) => {
            let head = s.subrange(0, i);
            let tail = s.subrange(i + 1, s.len() as int);
            lemma_pieces_free(tail, sep);
            assert(split_pieces(s, sep) == seq![head] + split_pieces(tail, sep));
            assert(!head.contains(sep)) by {
                if head.contains(sep) {
                    let j = choose|j: int| 0 <= j < head.len() && head[j] == sep;
                    assert(s[j] == sep);
                }
            }
            assert forall|k: int| 0 <= k < split_pieces(s, sep).len() implies !(#[trigger] split_pieces(
                s,
                sep,
            )[k]).contains(sep) by {
                if k > 0 {
                    assert(split_pieces(s, sep)[k] == split_pieces(tail, sep)[k - 1]);
                }
            }
        },
    }
}

/// The components of a path are not empty, not `.`, and free of `/`.
proof fn lemma_components_shape(path: Seq<char>)
    ensures
        forall|i: int|
            0 <= i < path_components(path).len() ==> (#[trigger] path_components(path)[i]).len() > 0
                && path_components(path)[i] != "."@ && !path_components(path)[i].contains('/'),
{
    let keep = |p: Seq<char>| p.len() > 0 && p != "."@;
    let all = split_pieces(path, '/');
    lemma_pieces_free(path, '/');
    assert forall|i: int| 0 <= i < path_components(path).len() implies (#[trigger] path_components(
        path,
    )[i]).len() > 0 && path_components(path)[i] != "."@ && !path_components(path)[i].contains('/') by {
        all.lemma_filter_pred(keep, i);
        let x = path_components(path)[i];
        assert(all.filter(keep).contains(x));
        all.lemma_filter_contains_rev(keep, x);
        let j = choose|j: int| 0 <= j < all.len() && all[j] == x;
        assert(!all[j].contains('/'));
    }
}

/// Resolving normal components with components free of `/` gives normal components.
proof fn lemma_resolve_normal(start: Seq<Seq<char>>, cs: Seq<Seq<char>>)
    requires
        forall|i: int| 0 <= i < start.len() ==> normal_component(#[trigger] start[i]),
        forall|i: int|
            0 <= i < cs.len() ==> (#[trigger] cs[i]).len() > 0 && cs[i] != "."@ && !cs[i].contains('/'),
    ensures
        forall|i: int| 0 <= i < resolve_components(start, cs).len() ==> normal_component(
            #[trigger] resolve_components(start, cs)[i],
        ),
    decreases cs.len(),
{
    if cs.len() > 0 {
        let init = cs.drop_last();
        assert forall|i: int| 0 <= i < init.len() implies (#[trigger] init[i]).len() > 0 && init[i] != "."@
            && !init[i].contains('/') by {
            assert(init[i] == cs[i]);
        }
        lemma_resolve_normal(start, init);
        let prev = resolve_components(start, init);
        let r = resolve_components(start, cs);
        assert(cs.last() == cs[cs.len() - 1]);
        assert forall|i: int| 0 <= i < r.len() implies normal_component(#[trigger] r[i]) by {
            reveal(normal_component);
            if cs.last() == ".."@ {
                if prev.len() > 0 {
                    assert(r[i] == prev[i]);
                }
            } else {
                if i < prev.len() {
                    assert(r[i] == prev[i]);
                }
            }
        }
    }
}

/// Components without `..` are appended as they are.
proof fn lemma_resolve_plain(start: Seq<Seq<char>>, cs: Seq<Seq<char>>)
    requires
        forall|i: int| 0 <= i < cs.len() ==> #[trigger] cs[i] != ".."@,
    ensures
        resolve_components(start, cs) == start + cs,
    decreases cs.len(),
{
    if cs.len() > 0 {
        let init = cs.drop_last();
        assert forall|i: int| 0 <= i < init.len() implies #[trigger] init[i] != ".."@ by {
            assert(init[i] == cs[i]);
        }
        lemma_resolve_plain(start, init);
        assert(cs[cs.len() - 1] != ".."@);
        assert(start + cs =~= (start + init).push(cs.last()));
    }
}

/// Joining from the front: the first word, the separator, then the rest joined.
proof fn lemma_join_front(ws: Seq<Seq<char>>, sep: Seq<char>)
    requires
        ws.len() >= 2,
    ensures
        join_sep(ws, sep) == ws[0] + sep + join_sep(ws.drop_first(), sep),
    decreases ws.len(),
{
    if ws.len() == 2 {
        assert(ws.drop_first().len() == 1);
        assert(ws.drop_last().len() == 1);
        assert(join_sep(ws.drop_first(), sep) == ws[1]);
        assert(join_sep(ws.drop_last(), sep) == ws[0]);
    } else {
        let init = ws.drop_last();
        lemma_join_front(init, sep);
        assert(init.drop_first() =~= ws.drop_first().drop_last());
        assert(ws.drop_first().last() == ws.last());
        assert(init[0] == ws[0]);
    }
}

/// Splitting words joined by `/` gives the words back, where none holds a `/`.
proof fn lemma_split_join(ws: Seq<Seq<char>>)
    requires
        ws.len() >= 1,
        forall|i: int| 0 <= i < ws.len() ==> !(#[trigger] ws[i]).contains('/'),
    ensures
        split_pieces(join_sep(ws, "/"@), '/') == ws,
    decreases ws.len(),
{
    reveal_strlit("/");
    if ws.len() == 1 {
        assert(join_sep(ws, "/"@) == ws[0]);
        assert(!ws[0].contains('/'));
        crate::text::lemma_first_index_none(ws[0], '/');
        assert(split_pieces(ws[0], '/') == seq![ws[0]]);
        assert(seq![ws[0]] =~= ws);
    } else {
        lemma_join_front(ws, "/"@);
        let rest = ws.drop_first();
        assert forall|i: int| 0 <= i < rest.len() implies !(#[trigger] rest[i]).contains('/') by {
            assert(rest[i] == ws[i + 1]);
        }
        lemma_split_join(rest);
        let w0 = ws[0];
        let j = join_sep(rest, "/"@);
        let s = w0 + "/"@ + j;
        assert(!w0.contains('/'));
        assert(s[w0.len() as int] == '/');
        assert forall|k: int| 0 <= k < w0.len() implies s[k] != '/' by {
            assert(s[k] == w0[k]);
        }
        crate::text::lemma_first_index_is(s, '/', w0.len() as int);
        assert(s.subrange(0, w0.len() as int) =~= w0);
        assert(s.subrange(w0.len() as int + 1, s.len() as int) =~= j);
        assert(split_pieces(s, '/') == seq![w0] + split_pieces(j, '/'));
        assert(seq![w0] + rest =~= ws);
    }
}

/// Keeping the normal components of a list of normal components keeps them all.
proof fn lemma_keep_all(cs: Seq<Seq<char>>)
    requires
        forall|i: int| 0 <= i < cs.len() ==> normal_component(#[trigger] cs[i]),
    ensures
        cs.filter(|p: Seq<char>| p.len() > 0 && p != "."@) == cs,
    decreases cs.len(),
{
    let keep = |p: Seq<char>| p.len() > 0 && p != "."@;
    if cs.len() == 0 {
        reveal(Seq::filter);
        assert(cs.filter(keep) =~= cs);
    } else {
        let init = cs.drop_last();
        assert forall|i: int| 0 <= i < init.len() implies normal_component(#[trigger] init[i]) by {
            assert(init[i] == cs[i]);
        }
        lemma_keep_all(init);
        let last = cs[cs.len() - 1];
        assert(keep(last)) by {
            reveal(normal_component);
        }
        init.lemma_filter_push(last, keep);
        assert(init.push(last) =~= cs);
    }
}

/// Keeping the components of a list that opens with an empty piece drops the piece.
proof fn lemma_keep_after_empty(cs: Seq<Seq<char>>)
    requires
        forall|i: int| 0 <= i < cs.len() ==> normal_component(#[trigger] cs[i]),
    ensures
        (seq![Seq::<char>::empty()] + cs).filter(|p: Seq<char>| p.len() > 0 && p != "."@) == cs,
{
    let keep = |p: Seq<char>| p.len() > 0 && p != "."@;
    let e = Seq::<char>::empty();
    cs.lemma_filter_prepend(e, keep);
    assert(!keep(e));
    lemma_keep_all(cs);
    assert(Seq::<Seq<char>>::empty() + cs =~= cs);
}

/// The components of an absolute path written from normal components are those components.
proof fn lemma_components_of_rendered(cs: Seq<Seq<char>>)
    requires
        forall|i: int| 0 <= i < cs.len() ==> normal_component(#[trigger] cs[i]),
    ensures
        path_components(render_path(true, cs)) == cs,
{
    reveal_strlit("/");
    let j = join_sep(cs, "/"@);
    let s = render_path(true, cs);
    assert(s == "/"@ + j);
    assert(s[0] == '/');
    crate::text::lemma_first_index_is(s, '/', 0);
    assert(s.subrange(0, 0) =~= Seq::<char>::empty());
    assert(s.subrange(1, s.len() as int) =~= j);
    assert(split_pieces(s, '/') == seq![Seq::<char>::empty()] + split_pieces(j, '/'));
    if cs.len() == 0 {
        assert(j == Seq::<char>::empty());
        crate::text::lemma_first_index_none(j, '/');
        assert(split_pieces(j, '/') == seq![Seq::<char>::empty()]);
        lemma_keep_after_empty(cs);
        assert(seq![Seq::<char>::empty()] == seq![Seq::<char>::empty()] + cs);
    } else {
        assert forall|i: int| 0 <= i < cs.len() implies !(#[trigger] cs[i]).contains('/') by {
            assert(normal_component(cs[i]));
            reveal(normal_component);
        }
        lemma_split_join(cs);
        lemma_keep_after_empty(cs);
    }
}

/// Normalizing against a working directory that is absolute and holds no `..`
/// gives an absolute path that normalizing again, against any directory, leaves
/// as it is.
pub proof fn law_normalize_idempotent(cwd: Seq<char>, other: Seq<char>, path: Seq<char>)
    requires
        is_absolute(cwd),
        forall|i: int| 0 <= i < path_components(cwd).len() ==> #[trigger] path_components(cwd)[i] != ".."@,
    ensures
        is_absolute(normalized_path(cwd, path)),
        normalized_path(other, normalized_path(cwd, path)) == normalized_path(cwd, path),
{
    reveal_strlit("/");
    lemma_components_shape(cwd);
    lemma_components_shape(path);
    let start = if is_absolute(path) {
        Seq::<Seq<char>>::empty()
    } else {
        path_components(cwd)
    };
    assert forall|i: int| 0 <= i < start.len() implies normal_component(#[trigger] start[i]) by {
        assert(path_components(cwd)[i] != ".."@);
        reveal(normal_component);
    }
    lemma_resolve_normal(start, path_components(path));
    let r = resolve_components(start, path_components(path));
    let n = normalized_path(cwd, path);
    assert(n == render_path(true, r));
    assert(n[0] == '/');
    lemma_components_of_rendered(r);
    assert forall|i: int| 0 <= i < r.len() implies #[trigger] r[i] != ".."@ by {
        assert(normal_component(r[i]));
        reveal(normal_component);
    }
    lemma_resolve_plain(Seq::empty(), r);
    assert(Seq::<Seq<char>>::empty() + r =~= r);
}

} // verus!
