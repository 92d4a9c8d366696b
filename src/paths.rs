//! Path text as the resolver builds it: joining, the platform's search-path
//! list, extensions, and the form a path takes on a command line.
use vstd::prelude::*;
use crate::text::{chars_of, has_prefix, text_of};

verus! {

/// Relies on `std::path::MAIN_SEPARATOR`: the separator of the platform the
/// library was built for.
#[verifier::external_body]
fn main_separator() -> char {
    std::path::MAIN_SEPARATOR
}

/// Whether the library runs on Windows (its paths use `\`).
pub fn is_windows() -> bool {
    main_separator() == '\\'
}

/// The separator that `join_path` inserts.
pub open spec fn sep_of(windows: bool) -> char {
    if windows {
        '\\'
    } else {
        '/'
    }
}

/// A character that separates path components.
pub open spec fn is_sep(c: char, windows: bool) -> bool {
    c == '/' || (windows && c == '\\')
}

/// `Path::join` with a relative part: the part itself after an empty base,
/// else the base, a separator unless it ends with one, and the part.
pub open spec fn join_path(base: Seq<char>, part: Seq<char>, windows: bool) -> Seq<char> {
    if base.len() == 0 {
        part
    } else if is_sep(base.last(), windows) {
        base + part
    } else {
        base + seq![sep_of(windows)] + part
    }
}

pub fn join_on(base: &str, part: &str, windows: bool) -> (r: String)
    ensures
        r@ == join_path(base@, part@, windows),
{
    let mut v = chars_of(base);
    let p = chars_of(part);
    if v.len() > 0 {
        let last = v[v.len() - 1];
        if !(last == '/' || (windows && last == '\\')) {
            v.push(if windows {
                '\\'
            } else {
                '/'
            });
        }
    }
    crate::text::push_all(&mut v, &p);
    text_of(v.as_slice())
}

/// How a path is written on a command line: on Windows the extended-length
/// prefixes `\\?\UNC\` (which becomes `\\`) and `\\?\` are dropped.
pub open spec fn cmd_path(p: Seq<char>, windows: bool) -> Seq<char> {
    if !windows {
        p
    } else if has_prefix(p, "\\\\?\\UNC\\"@) {
        seq!['\\', '\\'] + p.subrange(8, p.len() as int)
    } else if has_prefix(p, "\\\\?\\"@) {
        p.subrange(4, p.len() as int)
    } else {
        p
    }
}

/// A path as written on a command line, on Windows or elsewhere.
pub fn path_for_cmd(path: &str, windows: bool) -> (r: String)
    ensures
        r@ == cmd_path(path@, windows),
{
    if !windows {
        return crate::text::owned(path);
    }
    let v = chars_of(path);
    proof {
        reveal_strlit("\\\\?\\UNC\\");
        reveal_strlit("\\\\?\\");
    }
    if crate::text::starts_with(&v, "\\\\?\\UNC\\") {
        let mut out: Vec<char> = Vec::new();
        out.push('\\');
        out.push('\\');
        let rest = crate::text::slice_chars(&v, 8, v.len());
        crate::text::push_all(&mut out, &rest);
        return text_of(out.as_slice());
    }
    if crate::text::starts_with(&v, "\\\\?\\") {
        let rest = crate::text::slice_chars(&v, 4, v.len());
        return text_of(rest.as_slice());
    }
    crate::text::owned(path)
}

/// One character of the search-path split: entries so far, the entry being
/// read, and (on Windows) whether a double quote is open.
pub open spec fn split_path_step(st: (Seq<Seq<char>>, Seq<char>, bool), c: char, windows: bool) -> (
    Seq<Seq<char>>,
    Seq<char>,
    bool,
) {
    let (done, cur, quoted) = st;
    if windows && c == '"' {
        (done, cur, !quoted)
    } else if c == (if windows {
        ';'
    } else {
        ':'
    }) && !quoted {
        (done.push(cur), Seq::empty(), quoted)
    } else {
        (done, cur.push(c), quoted)
    }
}

pub open spec fn split_path_state(s: Seq<char>, windows: bool) -> (Seq<Seq<char>>, Seq<char>, bool)
    decreases s.len(),
{
    if s.len() == 0 {
        (Seq::empty(), Seq::empty(), false)
    } else {
        split_path_step(split_path_state(s.drop_last(), windows), s.last(), windows)
    }
}

/// The directories of a search-path value, as `env::split_paths` reads it:
/// split at `:` (at `;` outside double quotes on Windows, quotes dropped).
pub open spec fn search_dirs(s: Seq<char>, windows: bool) -> Seq<Seq<char>> {
    let (done, cur, _) = split_path_state(s, windows);
    done.push(cur)
}

pub open spec fn texts_of(v: Seq<String>) -> Seq<Seq<char>> {
    v.map_values(|x: String| x@)
}

pub fn split_search_path(s: &str, windows: bool) -> (r: Vec<String>)
    ensures
        texts_of(r@) == search_dirs(s@, windows),
{
    let v = chars_of(s);
    let mut done: Vec<String> = Vec::new();
    let mut cur: Vec<char> = Vec::new();
    let mut quoted = false;
    let mut k: usize = 0;
    let list_sep = if windows {
        ';'
    } else {
        ':'
    };
    assert(v@.subrange(0, 0) =~= Seq::<char>::empty());
    assert(texts_of(done@) =~= Seq::<Seq<char>>::empty());
    while k < v.len()
        invariant
            k <= v.len(),
            v@ == s@,
            list_sep == (if windows {
                ';'
            } else {
                ':'
            }),
            (texts_of(done@), cur@, quoted) == split_path_state(v@.subrange(0, k as int), windows),
        decreases v.len() - k,
    {
        let c = v[k];
        assert(v@.subrange(0, k + 1).drop_last() =~= v@.subrange(0, k as int));
        if windows && c == '"' {
            quoted = !quoted;
        } else if c == list_sep && !quoted {
            let ghost before = texts_of(done@);
            let entry = text_of(cur.as_slice());
            done.push(entry);
            assert(texts_of(done@) =~= before.push(cur@));
            cur = Vec::new();
            assert(cur@ =~= Seq::<char>::empty());
        } else {
            cur.push(c);
        }
        k = k + 1;
    }
    assert(v@.subrange(0, v.len() as int) =~= v@);
    let ghost before = texts_of(done@);
    let entry = text_of(cur.as_slice());
    done.push(entry);
    assert(texts_of(done@) =~= before.push(cur@));
    done
}

/// The file name of a path: what follows its last separator.
pub open spec fn last_sep_after(p: Seq<char>, windows: bool) -> int
    decreases p.len(),
{
    if p.len() == 0 {
        0
    } else if is_sep(p.last(), windows) {
        p.len() as int
    } else {
        last_sep_after(p.drop_last(), windows)
    }
}

pub open spec fn file_name(p: Seq<char>, windows: bool) -> Seq<char> {
    p.subrange(last_sep_after(p, windows), p.len() as int)
}

/// Index of the last `.` of a name, or -1.
pub open spec fn last_dot(n: Seq<char>) -> int
    decreases n.len(),
{
    if n.len() == 0 {
        -1
    } else if n.last() == '.' {
        n.len() - 1
    } else {
        last_dot(n.drop_last())
    }
}

/// `Path::extension` on a file name: what follows its last `.`, unless that
/// dot begins the name or the name is `..`.
pub open spec fn extension(n: Seq<char>) -> Option<Seq<char>> {
    if n == ".."@ || last_dot(n) <= 0 {
        None
    } else {
        Some(n.subrange(last_dot(n) + 1, n.len() as int))
    }
}

proof fn lemma_last_sep_bounds(p: Seq<char>, windows: bool)
    ensures
        0 <= last_sep_after(p, windows) <= p.len(),
    decreases p.len(),
{
    if p.len() > 0 {
        lemma_last_sep_bounds(p.drop_last(), windows);
    }
}

proof fn lemma_last_dot_bounds(n: Seq<char>)
    ensures
        -1 <= last_dot(n) < n.len(),
        last_dot(n) >= 0 ==> n[last_dot(n)] == '.',
    decreases n.len(),
{
    if n.len() > 0 {
        lemma_last_dot_bounds(n.drop_last());
    }
}

pub fn file_name_of(p: &Vec<char>, windows: bool) -> (r: Vec<char>)
    ensures
        r@ == file_name(p@, windows),
{
    let mut j: usize = p.len();
    assert(p@.subrange(0, p.len() as int) =~= p@);
    while j > 0 && !(p[j - 1] == '/' || (windows && p[j - 1] == '\\'))
        invariant
            j <= p.len(),
            last_sep_after(p@, windows) == last_sep_after(p@.subrange(0, j as int), windows),
        decreases j,
    {
        assert(p@.subrange(0, j as int).drop_last() =~= p@.subrange(0, j - 1));
        j = j - 1;
    }
    crate::text::slice_chars(p, j, p.len())
}

pub fn extension_of(n: &Vec<char>) -> (r: Option<Vec<char>>)
    ensures
        match r {
            Some(e) => extension(n@) == Some(e@),
            None => extension(n@) is None,
        },
{
    let mut j: usize = n.len();
    assert(n@.subrange(0, n.len() as int) =~= n@);
    while j > 0 && n[j - 1] != '.'
        invariant
            j <= n.len(),
            last_dot(n@) == last_dot(n@.subrange(0, j as int)),
        decreases j,
    {
        assert(n@.subrange(0, j as int).drop_last() =~= n@.subrange(0, j - 1));
        j = j - 1;
    }
    if j > 0 {
        assert(n@.subrange(0, j as int).drop_last() =~= n@.subrange(0, j - 1));
    }
    proof {
        reveal_strlit("..");
    }
    let dots = n.len() == 2 && n[0] == '.' && n[1] == '.';
    assert(dots == (n@ == ".."@)) by {
        if n@ == ".."@ {
            assert(n@[0] == '.' && n@[1] == '.');
        }
        if dots {
            assert(n@ =~= ".."@);
        }
    }
    if dots || j <= 1 {
        None
    } else {
        Some(crate::text::slice_chars(n, j, n.len()))
    }
}

} // verus!
