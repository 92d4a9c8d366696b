//! Command lines for the agent CLI, its installer, and the Python tools:
//! where the executables are looked for and how each invocation is built.
use vstd::prelude::*;
use crate::json::{Json, JsonField, field_lookup, get, get_member, member_text, str_of};
use crate::normalize::{ascii_lower, dedup};
use crate::options::CodexError;
use crate::paths::{
    cmd_path, extension, extension_of, file_name, file_name_of, is_sep, is_windows, join_on,
    join_path, path_for_cmd, search_dirs, split_search_path, texts_of,
};
use crate::text::{chars_of, has_prefix, owned, text_of, trim, trim_chars, trim_start, trim_start_chars};
use crate::wrap::{split_words, words};

verus! {

/// `base / a / b`.
pub open spec fn join2(base: Seq<char>, a: Seq<char>, b: Seq<char>, w: bool) -> Seq<char> {
    join_path(join_path(base, a, w), b, w)
}

/// Where the Python tools are installed under a workspace root.
pub open spec fn tools_prefix(root: Seq<char>, w: bool) -> Seq<char> {
    join2(root, ".usbide"@, "tools"@, w)
}

/// Where the agent CLI is installed under a workspace root.
pub open spec fn codex_prefix(root: Seq<char>, w: bool) -> Seq<char> {
    join2(root, ".usbide"@, "codex"@, w)
}

/// The portable runtime's directory under a workspace root.
pub open spec fn node_dir(root: Seq<char>, w: bool) -> Seq<char> {
    join2(root, "tools"@, "node"@, w)
}

pub fn tools_install_prefix_on(root: &str, windows: bool) -> (r: String)
    ensures
        r@ == tools_prefix(root@, windows),
{
    join_on(join_on(root, ".usbide", windows).as_str(), "tools", windows)
}

pub fn tools_install_prefix(root: &str) -> (r: String)
    ensures
        exists|w: bool| r@ == tools_prefix(root@, w),
{
    let w = is_windows();
    let r = tools_install_prefix_on(root, w);
    assert(r@ == tools_prefix(root@, w));
    r
}

/// The scripts directory of an install prefix: `Scripts` on Windows, `bin`
/// elsewhere.
pub open spec fn scripts_dir(prefix: Seq<char>, w: bool) -> Seq<char> {
    join_path(prefix, if w { "Scripts"@ } else { "bin"@ }, w)
}

pub fn python_scripts_dir_on(prefix: &str, windows: bool) -> (r: String)
    ensures
        r@ == scripts_dir(prefix@, windows),
{
    if windows {
        join_on(prefix, "Scripts", windows)
    } else {
        join_on(prefix, "bin", windows)
    }
}

pub fn python_scripts_dir(prefix: &str) -> (r: String)
    ensures
        exists|w: bool| r@ == scripts_dir(prefix@, w),
{
    let w = is_windows();
    let r = python_scripts_dir_on(prefix, w);
    assert(r@ == scripts_dir(prefix@, w));
    r
}

pub fn codex_install_prefix(root: &str) -> (r: String)
    ensures
        exists|w: bool| r@ == codex_prefix(root@, w),
{
    let w = is_windows();
    let r = join_on(join_on(root, ".usbide", w).as_str(), "codex", w);
    assert(r@ == codex_prefix(root@, w));
    r
}

/// The directory of the launchers that the CLI's package installs.
pub fn codex_bin_dir(prefix: &str) -> (r: String)
    ensures
        exists|w: bool| r@ == join2(prefix@, "node_modules"@, ".bin"@, w),
{
    let w = is_windows();
    let r = join_on(join_on(prefix, "node_modules", w).as_str(), ".bin", w);
    assert(r@ == join2(prefix@, "node_modules"@, ".bin"@, w));
    r
}

pub fn node_tools_dir(root: &str) -> (r: String)
    ensures
        exists|w: bool| r@ == node_dir(root@, w),
{
    let w = is_windows();
    let r = join_on(join_on(root, "tools", w).as_str(), "node", w);
    assert(r@ == node_dir(root@, w));
    r
}

/// The manifest of the installed CLI package.
pub open spec fn package_json(prefix: Seq<char>, w: bool) -> Seq<char> {
    join2(join2(prefix, "node_modules"@, "@openai"@, w), "codex"@, "package.json"@, w)
}

pub fn codex_package_json(prefix: &str) -> (r: String)
    ensures
        exists|w: bool| r@ == package_json(prefix@, w),
{
    let w = is_windows();
    let a = join_on(join_on(prefix, "node_modules", w).as_str(), "@openai", w);
    let r = join_on(join_on(a.as_str(), "codex", w).as_str(), "package.json", w);
    assert(r@ == package_json(prefix@, w));
    r
}

/// Where the portable runtime may stand, in the order they are tried; the
/// runtime found on the search path, if any, comes last.
pub open spec fn node_candidates_spec(root: Seq<char>, w: bool, on_path: Option<Seq<char>>) -> Seq<Seq<char>> {
    let d = node_dir(root, w);
    (if w {
        seq![join_path(d, "node.exe"@, w)]
    } else {
        seq![join2(d, "bin"@, "node"@, w), join_path(d, "node"@, w)]
    }) + match on_path {
        Some(p) => seq![p],
        None => Seq::empty(),
    }
}

pub fn node_candidates(root: &str, windows: bool, on_path: Option<&str>) -> (r: Vec<String>)
    ensures
        texts_of(r@) == node_candidates_spec(root@, windows, match on_path {
            Some(p) => Some(p@),
            None => None,
        }),
{
    let d = join_on(join_on(root, "tools", windows).as_str(), "node", windows);
    let mut out: Vec<String> = Vec::new();
    if windows {
        out.push(join_on(d.as_str(), "node.exe", windows));
    } else {
        out.push(join_on(join_on(d.as_str(), "bin", windows).as_str(), "node", windows));
        out.push(join_on(d.as_str(), "node", windows));
    }
    match on_path {
        Some(p) => out.push(owned(p)),
        None => {},
    }
    assert(texts_of(out@) =~= node_candidates_spec(root@, windows, match on_path {
        Some(p) => Some(p@),
        None => None,
    }));
    out
}

/// The first candidate marked as existing.
pub open spec fn first_found(cands: Seq<Seq<char>>, exists: Seq<bool>) -> Option<Seq<char>>
    decreases cands.len(),
{
    if cands.len() == 0 || exists.len() == 0 {
        None
    } else if exists[0] {
        Some(cands[0])
    } else {
        first_found(cands.drop_first(), exists.drop_first())
    }
}

/// The first of `candidates` whose flag in `exists` is set; first match
/// wins, in the candidates' order.
pub fn first_existing(candidates: &Vec<String>, exists: &Vec<bool>) -> (r: Option<String>)
    ensures
        crate::text::opt_view(r) == first_found(texts_of(candidates@), exists@),
{
    let mut i: usize = 0;
    let ghost c = texts_of(candidates@);
    assert(c.subrange(0, c.len() as int) =~= c);
    assert(exists@.subrange(0, exists.len() as int) =~= exists@);
    while i < candidates.len() && i < exists.len()
        invariant
            i <= candidates.len(),
            c == texts_of(candidates@),
            c.len() == candidates.len(),
            i <= exists.len(),
            first_found(c, exists@) == first_found(
                c.subrange(i as int, c.len() as int),
                exists@.subrange(i as int, exists.len() as int),
            ),
        decreases candidates.len() - i,
    {
        let ghost cs = c.subrange(i as int, c.len() as int);
        let ghost es = exists@.subrange(i as int, exists.len() as int);
        assert(cs.drop_first() =~= c.subrange(i + 1, c.len() as int));
        assert(es.drop_first() =~= exists@.subrange(i + 1, exists.len() as int));
        if exists[i] {
            return Some(candidates[i].clone());
        }
        i = i + 1;
    }
    assert(c.subrange(i as int, c.len() as int).len() == 0 || exists@.subrange(
        i as int,
        exists.len() as int,
    ).len() == 0);
    None
}

/// The pieces of `s` between occurrences of `d`, empty pieces left out.
pub open spec fn piece_state(s: Seq<char>, d: char) -> (Seq<Seq<char>>, Seq<char>)
    decreases s.len(),
{
    if s.len() == 0 {
        (Seq::empty(), Seq::empty())
    } else {
        let (ps, cur) = piece_state(s.drop_last(), d);
        if s.last() == d {
            (if cur.len() > 0 {
                ps.push(cur)
            } else {
                ps
            }, Seq::empty())
        } else {
            (ps, cur.push(s.last()))
        }
    }
}

pub open spec fn nonempty_pieces(s: Seq<char>, d: char) -> Seq<Seq<char>> {
    let (ps, cur) = piece_state(s, d);
    if cur.len() > 0 {
        ps.push(cur)
    } else {
        ps
    }
}

fn split_nonempty(s: &str, d: char) -> (r: Vec<String>)
    ensures
        texts_of(r@) == nonempty_pieces(s@, d),
{
    let v = chars_of(s);
    let mut ps: Vec<String> = Vec::new();
    let mut cur: Vec<char> = Vec::new();
    let mut k: usize = 0;
    assert(v@.subrange(0, 0) =~= Seq::<char>::empty());
    assert(texts_of(ps@) =~= Seq::<Seq<char>>::empty());
    while k < v.len()
        invariant
            k <= v.len(),
            v@ == s@,
            (texts_of(ps@), cur@) == piece_state(v@.subrange(0, k as int), d),
        decreases v.len() - k,
    {
        assert(v@.subrange(0, k + 1).drop_last() =~= v@.subrange(0, k as int));
        if v[k] == d {
            if cur.len() > 0 {
                let ghost before = texts_of(ps@);
                let t = text_of(cur.as_slice());
                ps.push(t);
                assert(texts_of(ps@) =~= before.push(cur@));
            }
            cur = Vec::new();
            assert(cur@ =~= Seq::<char>::empty());
        } else {
            cur.push(v[k]);
        }
        k = k + 1;
    }
    assert(v@.subrange(0, v.len() as int) =~= v@);
    if cur.len() > 0 {
        let ghost before = texts_of(ps@);
        let t = text_of(cur.as_slice());
        ps.push(t);
        assert(texts_of(ps@) =~= before.push(cur@));
    }
    ps
}

/// The extensions tried after a bare name: those of the executable-extension
/// list on Windows when the name has none, else only the name itself.
pub open spec fn extensions_for(c: Seq<char>, windows: bool, pathext: Seq<char>) -> Seq<Seq<char>> {
    if windows && extension(c) is None && nonempty_pieces(pathext, ';').len() > 0 {
        nonempty_pieces(pathext, ';')
    } else {
        seq![Seq::<char>::empty()]
    }
}

pub open spec fn dir_candidates(dir: Seq<char>, c: Seq<char>, exts: Seq<Seq<char>>, w: bool) -> Seq<Seq<char>> {
    exts.map_values(|e: Seq<char>| join_path(dir, c + e, w))
}

pub open spec fn all_candidates(dirs: Seq<Seq<char>>, c: Seq<char>, exts: Seq<Seq<char>>, w: bool) -> Seq<Seq<char>>
    decreases dirs.len(),
{
    if dirs.len() == 0 {
        Seq::empty()
    } else {
        all_candidates(dirs.drop_last(), c, exts, w) + dir_candidates(dirs.last(), c, exts, w)
    }
}

/// The paths at which a command is looked for, in order: the command itself
/// when it holds a separator, else each directory of the search path with
/// each extension tried.
pub open spec fn search_candidates_spec(
    cmd: Seq<char>,
    path: Seq<char>,
    windows: bool,
    pathext: Seq<char>,
) -> Seq<Seq<char>> {
    let c = trim(cmd);
    if c.len() == 0 {
        Seq::empty()
    } else if exists|i: int| 0 <= i < c.len() && is_sep(#[trigger] c[i], windows) {
        seq![c]
    } else {
        all_candidates(search_dirs(path, windows), c, extensions_for(c, windows, pathext), windows)
    }
}

/// The default executable-extension list.
pub open spec fn default_pathext() -> Seq<char> {
    ".COM;.EXE;.BAT;.CMD;.PS1"@
}

pub open spec fn or_empty(s: Option<Seq<char>>) -> Seq<char> {
    match s {
        Some(t) => t,
        None => Seq::empty(),
    }
}

pub open spec fn opt_str(s: Option<&str>) -> Option<Seq<char>> {
    match s {
        Some(t) => Some(t@),
        None => None,
    }
}

/// The paths at which `cmd` is looked for, given the search-path value and
/// the executable-extension list (the default one when absent).
pub fn search_candidates(cmd: &str, path: Option<&str>, windows: bool, pathext: Option<&str>) -> (r: Vec<String>)
    ensures
        texts_of(r@) == search_candidates_spec(
            cmd@,
            or_empty(opt_str(path)),
            windows,
            match pathext {
                Some(p) => p@,
                None => default_pathext(),
            },
        ),
{
    let c = trim_chars(&chars_of(cmd));
    let ghost pe = match pathext {
        Some(p) => p@,
        None => default_pathext(),
    };
    let mut out: Vec<String> = Vec::new();
    if c.len() == 0 {
        assert(texts_of(out@) =~= Seq::<Seq<char>>::empty());
        return out;
    }
    let mut i: usize = 0;
    while i < c.len()
        invariant
            i <= c.len(),
            out@.len() == 0,
            c@ == trim(cmd@),
            forall|k: int| 0 <= k < i ==> !is_sep(#[trigger] c@[k], windows),
        decreases c.len() - i,
    {
        if c[i] == '/' || (windows && c[i] == '\\') {
            out.push(text_of(c.as_slice()));
            assert(texts_of(out@) =~= seq![c@]);
            return out;
        }
        i = i + 1;
    }
    let ct = text_of(c.as_slice());
    let raw_path = match path {
        Some(p) => owned(p),
        None => String::new(),
    };
    let dirs = split_search_path(raw_path.as_str(), windows);
    let mut exts: Vec<String> = Vec::new();
    let mut use_list = false;
    if windows && extension_of(&c).is_none() {
        let list = match pathext {
            Some(p) => owned(p),
            None => owned(".COM;.EXE;.BAT;.CMD;.PS1"),
        };
        exts = split_nonempty(list.as_str(), ';');
        use_list = exts.len() > 0;
    }
    if !use_list {
        exts = Vec::new();
        exts.push(String::new());
        assert(texts_of(exts@) =~= seq![Seq::<char>::empty()]);
    }
    let ghost ev = texts_of(exts@);
    assert(ev == extensions_for(c@, windows, pe));
    let ghost dv = texts_of(dirs@);
    let mut d: usize = 0;
    assert(dv.subrange(0, 0) =~= Seq::<Seq<char>>::empty());
    assert(texts_of(out@) =~= Seq::<Seq<char>>::empty());
    while d < dirs.len()
        invariant
            d <= dirs.len(),
            dv == texts_of(dirs@),
            ev == texts_of(exts@),
            ct@ == c@,
            texts_of(out@) == all_candidates(dv.subrange(0, d as int), c@, ev, windows),
        decreases dirs.len() - d,
    {
        assert(dv.subrange(0, d + 1).drop_last() =~= dv.subrange(0, d as int));
        assert(dv[d as int] == dirs@[d as int]@);
        let ghost before = texts_of(out@);
        let mut e: usize = 0;
        while e < exts.len()
            invariant
                e <= exts.len(),
                d < dirs.len(),
                dv == texts_of(dirs@),
                ev == texts_of(exts@),
                ct@ == c@,
                texts_of(out@) == before + dir_candidates(dv[d as int], c@, ev.subrange(0, e as int), windows),
            decreases exts.len() - e,
        {
            let name = crate::text::concat(ct.as_str(), exts[e].as_str());
            let cand = join_on(dirs[d].as_str(), name.as_str(), windows);
            let ghost b2 = texts_of(out@);
            out.push(cand);
            assert(texts_of(out@) =~= b2.push(cand@));
            e = e + 1;
            assert(ev[e - 1] == exts@[e - 1]@);
            assert(texts_of(out@) =~= before + dir_candidates(dv[d as int], c@, ev.subrange(0, e as int), windows));
        }
        assert(ev.subrange(0, exts.len() as int) =~= ev);
        d = d + 1;
    }
    assert(dv.subrange(0, dirs.len() as int) =~= dv);
    assert(dv == search_dirs(or_empty(opt_str(path)), windows)) by {
        match path {
            Some(p) => {},
            None => {
                assert(raw_path@ =~= Seq::<char>::empty());
            },
        }
    }
    out
}

/// Where the agent CLI was found.
pub enum AgentLocation {
    /// The bundled runtime and the package's entry script.
    Portable { node: String, entry: String },
    /// A launcher found on the search path.
    OnPath(String),
    /// Nothing found: the bare command is left to the system.
    Bare,
}

pub open spec fn opt_or(s: Option<Seq<char>>, d: Seq<char>) -> Seq<char> {
    match s {
        Some(t) => t,
        None => d,
    }
}

/// The lowercased extension of a path's file name, if it has one.
pub open spec fn lower_ext(p: Seq<char>, w: bool) -> Option<Seq<char>> {
    match extension(file_name(p, w)) {
        Some(e) => Some(ascii_lower(e)),
        None => None,
    }
}

/// The command that starts the agent CLI. A Windows launcher script is run
/// through the command processor (`.cmd`, `.bat`) or PowerShell (`.ps1`),
/// not executed directly.
pub open spec fn base_argv(
    loc: AgentLocation,
    windows: bool,
    comspec: Option<Seq<char>>,
    powershell: Option<Seq<char>>,
) -> Seq<Seq<char>> {
    match loc {
        AgentLocation::Portable { node, entry } => seq![cmd_path(node@, windows), cmd_path(entry@, windows)],
        AgentLocation::OnPath(p) => if !windows {
            seq!["codex"@]
        } else if lower_ext(p@, windows) == Some("cmd"@) || lower_ext(p@, windows) == Some("bat"@) {
            seq![opt_or(comspec, "cmd.exe"@), "/d"@, "/s"@, "/c"@, cmd_path(p@, windows)]
        } else if lower_ext(p@, windows) == Some("ps1"@) {
            seq![
                opt_or(powershell, "powershell"@),
                "-NoProfile"@,
                "-ExecutionPolicy"@,
                "Bypass"@,
                "-File"@,
                cmd_path(p@, windows),
            ]
        } else {
            seq![cmd_path(p@, windows)]
        },
        AgentLocation::Bare => seq!["codex"@],
    }
}

fn opt_owned(s: Option<&str>, d: &str) -> (r: String)
    ensures
        r@ == opt_or(opt_str(s), d@),
{
    match s {
        Some(t) => owned(t),
        None => owned(d),
    }
}

fn lower_ext_is(p: &str, windows: bool, e: &str) -> (r: bool)
    ensures
        r == (lower_ext(p@, windows) == Some(e@)),
{
    let name = file_name_of(&chars_of(p), windows);
    match extension_of(&name) {
        Some(x) => {
            let l = text_of(crate::normalize::ascii_lower_chars(&x).as_slice());
            crate::text::same_text(l.as_str(), e)
        },
        None => false,
    }
}

/// The command that starts the agent CLI found at `loc`; `comspec` and
/// `powershell` are the interpreters found for launcher scripts, if any.
pub fn codex_base_argv(
    loc: &AgentLocation,
    windows: bool,
    comspec: Option<&str>,
    powershell: Option<&str>,
) -> (r: Vec<String>)
    ensures
        texts_of(r@) == base_argv(*loc, windows, opt_str(comspec), opt_str(powershell)),
{
    let mut out: Vec<String> = Vec::new();
    match loc {
        AgentLocation::Portable { node, entry } => {
            out.push(path_for_cmd(node.as_str(), windows));
            out.push(path_for_cmd(entry.as_str(), windows));
        },
        AgentLocation::OnPath(p) => {
            if !windows {
                out.push(owned("codex"));
            } else if lower_ext_is(p.as_str(), windows, "cmd") || lower_ext_is(p.as_str(), windows, "bat") {
                out.push(opt_owned(comspec, "cmd.exe"));
                out.push(owned("/d"));
                out.push(owned("/s"));
                out.push(owned("/c"));
                out.push(path_for_cmd(p.as_str(), windows));
            } else if lower_ext_is(p.as_str(), windows, "ps1") {
                out.push(opt_owned(powershell, "powershell"));
                out.push(owned("-NoProfile"));
                out.push(owned("-ExecutionPolicy"));
                out.push(owned("Bypass"));
                out.push(owned("-File"));
                out.push(path_for_cmd(p.as_str(), windows));
            } else {
                out.push(path_for_cmd(p.as_str(), windows));
            }
        },
        AgentLocation::Bare => {
            out.push(owned("codex"));
        },
    }
    assert(texts_of(out@) =~= base_argv(*loc, windows, opt_str(comspec), opt_str(powershell)));
    out
}

/// A `.cmd` launcher found on the search path on Windows is run through the
/// command processor: the command holds `/c` and the launcher's path, the
/// processor comes first, and so the launcher is not executed directly
/// unless it is itself the processor.
pub proof fn lemma_cmd_shim_runs_through_processor(
    p: String,
    comspec: Option<Seq<char>>,
    powershell: Option<Seq<char>>,
)
    requires
        lower_ext(p@, true) == Some("cmd"@),
    ensures
        base_argv(AgentLocation::OnPath(p), true, comspec, powershell)[0] == opt_or(comspec, "cmd.exe"@),
        base_argv(AgentLocation::OnPath(p), true, comspec, powershell).contains("/c"@),
        base_argv(AgentLocation::OnPath(p), true, comspec, powershell).contains(cmd_path(p@, true)),
        base_argv(AgentLocation::OnPath(p), true, comspec, powershell).len() == 5,
        opt_or(comspec, "cmd.exe"@) != cmd_path(p@, true) ==> base_argv(
            AgentLocation::OnPath(p),
            true,
            comspec,
            powershell,
        )[0] != cmd_path(p@, true),
{
    let a = base_argv(AgentLocation::OnPath(p), true, comspec, powershell);
    assert(a[3] == "/c"@);
    assert(a[4] == cmd_path(p@, true));
}

/// `base login`, with `--device-auth` when asked.
pub fn codex_login_argv(base: &Vec<String>, device_auth: bool) -> (r: Vec<String>)
    ensures
        texts_of(r@) == texts_of(base@) + seq!["login"@] + if device_auth {
            seq!["--device-auth"@]
        } else {
            Seq::empty()
        },
{
    let mut argv = copy_strings(base);
    argv.push(owned("login"));
    if device_auth {
        argv.push(owned("--device-auth"));
    }
    assert(texts_of(argv@) =~= texts_of(base@) + seq!["login"@] + if device_auth {
        seq!["--device-auth"@]
    } else {
        Seq::empty()
    });
    argv
}

/// `base login status`.
pub fn codex_status_argv(base: &Vec<String>) -> (r: Vec<String>)
    ensures
        texts_of(r@) == texts_of(base@) + seq!["login"@, "status"@],
{
    let mut argv = copy_strings(base);
    argv.push(owned("login"));
    argv.push(owned("status"));
    assert(texts_of(argv@) =~= texts_of(base@) + seq!["login"@, "status"@]);
    argv
}

fn copy_strings(v: &Vec<String>) -> (r: Vec<String>)
    ensures
        texts_of(r@) == texts_of(v@),
{
    let mut out: Vec<String> = Vec::new();
    let mut k: usize = 0;
    while k < v.len()
        invariant
            k <= v.len(),
            texts_of(out@) == texts_of(v@).subrange(0, k as int),
        decreases v.len() - k,
    {
        let ghost before = texts_of(out@);
        let t = v[k].clone();
        out.push(t);
        assert(texts_of(out@) =~= before.push(t@));
        k = k + 1;
        assert(texts_of(out@) =~= texts_of(v@).subrange(0, k as int));
    }
    assert(texts_of(v@).subrange(0, v.len() as int) =~= texts_of(v@));
    out
}

/// The texts of `v` that are not blank.
pub open spec fn nonblank(v: Seq<Seq<char>>) -> Seq<Seq<char>>
    decreases v.len(),
{
    if v.len() == 0 {
        Seq::empty()
    } else {
        nonblank(v.drop_last()) + if trim(v.last()).len() > 0 {
            seq![v.last()]
        } else {
            Seq::empty()
        }
    }
}

/// `base exec [--json] <extra args> [--] <prompt>`: the non-blank extra
/// arguments in order, and `--` when the prompt would read as an option.
pub open spec fn exec_argv(base: Seq<Seq<char>>, prompt: Seq<char>, json: bool, extra: Seq<Seq<char>>) -> Seq<Seq<char>> {
    base + seq!["exec"@] + (if json {
        seq!["--json"@]
    } else {
        Seq::empty()
    }) + nonblank(extra) + (if has_prefix(trim_start(prompt), "-"@) {
        seq!["--"@]
    } else {
        Seq::empty()
    }) + seq![prompt]
}

pub fn codex_exec_argv(
    prompt: &str,
    base: &Vec<String>,
    json_output: bool,
    extra_args: Option<&Vec<String>>,
) -> (r: Result<Vec<String>, CodexError>)
    ensures
        trim(prompt@).len() == 0 <==> r == Err::<Vec<String>, CodexError>(CodexError::EmptyPrompt),
        trim(prompt@).len() > 0 ==> r is Ok && texts_of(r->Ok_0@) == exec_argv(
            texts_of(base@),
            prompt@,
            json_output,
            match extra_args {
                Some(e) => texts_of(e@),
                None => Seq::empty(),
            },
        ),
{
    if trim_chars(&chars_of(prompt)).len() == 0 {
        return Err(CodexError::EmptyPrompt);
    }
    let mut argv = copy_strings(base);
    let ghost b0 = texts_of(argv@);
    argv.push(owned("exec"));
    assert(texts_of(argv@) =~= b0 + seq!["exec"@]);
    if json_output {
        let ghost b1 = texts_of(argv@);
        argv.push(owned("--json"));
        assert(texts_of(argv@) =~= b1 + seq!["--json"@]);
    }
    let ghost head = texts_of(argv@);
    assert(head =~= texts_of(base@) + seq!["exec"@] + (if json_output {
        seq!["--json"@]
    } else {
        Seq::empty()
    }));
    let ghost ev = match extra_args {
        Some(e) => texts_of(e@),
        None => Seq::<Seq<char>>::empty(),
    };
    match extra_args {
        Some(extra) => {
            let mut k: usize = 0;
            assert(ev.subrange(0, 0) =~= Seq::<Seq<char>>::empty());
            assert(texts_of(argv@) =~= head + nonblank(ev.subrange(0, 0)));
            while k < extra.len()
                invariant
                    k <= extra.len(),
                    ev == texts_of(extra@),
                    texts_of(argv@) == head + nonblank(ev.subrange(0, k as int)),
                decreases extra.len() - k,
            {
                assert(ev.subrange(0, k + 1).drop_last() =~= ev.subrange(0, k as int));
                assert(ev[k as int] == extra@[k as int]@);
                let ghost before = texts_of(argv@);
                if trim_chars(&chars_of(extra[k].as_str())).len() > 0 {
                    let t = extra[k].clone();
                    argv.push(t);
                    assert(texts_of(argv@) =~= before.push(t@));
                }
                k = k + 1;
                assert(texts_of(argv@) =~= head + nonblank(ev.subrange(0, k as int)));
            }
            assert(ev.subrange(0, extra.len() as int) =~= ev);
        },
        None => {
            assert(texts_of(argv@) =~= head + nonblank(ev));
        },
    }
    let ghost mid = texts_of(argv@);
    let dash = crate::text::starts_with(&trim_start_chars(&chars_of(prompt)), "-");
    if dash {
        argv.push(owned("--"));
        assert(texts_of(argv@) =~= mid + seq!["--"@]);
    }
    let ghost m2 = texts_of(argv@);
    let p = owned(prompt);
    argv.push(p);
    assert(texts_of(argv@) =~= m2 + seq![prompt@]);
    assert(texts_of(argv@) =~= exec_argv(texts_of(base@), prompt@, json_output, ev));
    Ok(argv)
}

/// `node npm-cli.js install --prefix <prefix> --no-audit --no-fund <package>`.
pub open spec fn install_argv(node: Seq<char>, npm: Seq<char>, prefix: Seq<char>, package: Seq<char>, w: bool) -> Seq<Seq<char>> {
    seq![
        cmd_path(node, w),
        cmd_path(npm, w),
        "install"@,
        "--prefix"@,
        cmd_path(prefix, w),
        "--no-audit"@,
        "--no-fund"@,
        package,
    ]
}

/// The command that installs the CLI's package with the bundled runtime
/// `node` and package manager `npm`, as found.
pub fn codex_install_argv(
    node: Option<&str>,
    npm: Option<&str>,
    prefix: &str,
    package: &str,
) -> (r: Result<Vec<String>, CodexError>)
    ensures
        trim(package@).len() == 0 ==> r == Err::<Vec<String>, CodexError>(CodexError::EmptyPackage),
        trim(package@).len() > 0 && node is None ==> r == Err::<Vec<String>, CodexError>(
            CodexError::NodeMissing,
        ),
        trim(package@).len() > 0 && node is Some && npm is None ==> r == Err::<
            Vec<String>,
            CodexError,
        >(CodexError::NpmMissing),
        trim(package@).len() > 0 && node is Some && npm is Some ==> r is Ok && exists|w: bool|
            texts_of(r->Ok_0@) == install_argv(node->0@, npm->0@, prefix@, package@, w),
{
    if trim_chars(&chars_of(package)).len() == 0 {
        return Err(CodexError::EmptyPackage);
    }
    let n = match node {
        Some(n) => n,
        None => {
            return Err(CodexError::NodeMissing);
        },
    };
    let m = match npm {
        Some(m) => m,
        None => {
            return Err(CodexError::NpmMissing);
        },
    };
    let w = is_windows();
    let mut argv: Vec<String> = Vec::new();
    argv.push(path_for_cmd(n, w));
    argv.push(path_for_cmd(m, w));
    argv.push(owned("install"));
    argv.push(owned("--prefix"));
    argv.push(path_for_cmd(prefix, w));
    argv.push(owned("--no-audit"));
    argv.push(owned("--no-fund"));
    argv.push(owned(package));
    assert(texts_of(argv@) =~= install_argv(n@, m@, prefix@, package@, w));
    Ok(argv)
}

/// The packages as given, each trimmed, blank ones left out.
pub open spec fn cleaned_packages(v: Seq<Seq<char>>) -> Seq<Seq<char>>
    decreases v.len(),
{
    if v.len() == 0 {
        Seq::empty()
    } else {
        cleaned_packages(v.drop_last()) + if trim(v.last()).len() > 0 {
            seq![trim(v.last())]
        } else {
            Seq::empty()
        }
    }
}

/// `python -m pip install --upgrade --prefix <prefix> [--no-index]
/// [--find-links <dir>] <packages>`.
pub open spec fn pip_argv(prefix: Seq<char>, packages: Seq<Seq<char>>, links: Option<Seq<char>>, no_index: bool, w: bool) -> Seq<Seq<char>> {
    seq!["python"@, "-m"@, "pip"@, "install"@, "--upgrade"@, "--prefix"@, cmd_path(prefix, w)] + (if no_index {
        seq!["--no-index"@]
    } else {
        Seq::empty()
    }) + (match links {
        Some(l) => seq!["--find-links"@, cmd_path(l, w)],
        None => Seq::empty(),
    }) + cleaned_packages(packages)
}

pub fn pip_install_argv(
    prefix: &str,
    packages: &Vec<String>,
    find_links: Option<&str>,
    no_index: bool,
) -> (r: Result<Vec<String>, CodexError>)
    ensures
        cleaned_packages(texts_of(packages@)).len() == 0 <==> r == Err::<Vec<String>, CodexError>(
            CodexError::EmptyPackages,
        ),
        cleaned_packages(texts_of(packages@)).len() > 0 ==> r is Ok && exists|w: bool|
            texts_of(r->Ok_0@) == pip_argv(prefix@, texts_of(packages@), opt_str(find_links), no_index, w),
{
    let ghost pv = texts_of(packages@);
    let mut cleaned: Vec<String> = Vec::new();
    let mut k: usize = 0;
    assert(pv.subrange(0, 0) =~= Seq::<Seq<char>>::empty());
    assert(texts_of(cleaned@) =~= Seq::<Seq<char>>::empty());
    while k < packages.len()
        invariant
            k <= packages.len(),
            pv == texts_of(packages@),
            texts_of(cleaned@) == cleaned_packages(pv.subrange(0, k as int)),
        decreases packages.len() - k,
    {
        assert(pv.subrange(0, k + 1).drop_last() =~= pv.subrange(0, k as int));
        assert(pv[k as int] == packages@[k as int]@);
        let t = crate::text::trim_text(packages[k].as_str());
        if !t.as_str().is_empty() {
            let ghost before = texts_of(cleaned@);
            cleaned.push(t);
            assert(texts_of(cleaned@) =~= before.push(t@));
        }
        k = k + 1;
        assert(texts_of(cleaned@) =~= cleaned_packages(pv.subrange(0, k as int)));
    }
    assert(pv.subrange(0, packages.len() as int) =~= pv);
    if cleaned.len() == 0 {
        return Err(CodexError::EmptyPackages);
    }
    let w = is_windows();
    let mut argv: Vec<String> = Vec::new();
    argv.push(owned("python"));
    argv.push(owned("-m"));
    argv.push(owned("pip"));
    argv.push(owned("install"));
    argv.push(owned("--upgrade"));
    argv.push(owned("--prefix"));
    argv.push(path_for_cmd(prefix, w));
    let ghost a0 = texts_of(argv@);
    if no_index {
        argv.push(owned("--no-index"));
    }
    let ghost a1 = texts_of(argv@);
    match find_links {
        Some(l) => {
            argv.push(owned("--find-links"));
            argv.push(path_for_cmd(l, w));
        },
        None => {},
    }
    let ghost a2 = texts_of(argv@);
    assert(a2 =~= seq!["python"@, "-m"@, "pip"@, "install"@, "--upgrade"@, "--prefix"@, cmd_path(prefix@, w)] + (if no_index {
        seq!["--no-index"@]
    } else {
        Seq::empty()
    }) + (match opt_str(find_links) {
        Some(l) => seq!["--find-links"@, cmd_path(l, w)],
        None => Seq::empty(),
    }));
    let mut j: usize = 0;
    let ghost cv = texts_of(cleaned@);
    assert(cv.subrange(0, 0) =~= Seq::<Seq<char>>::empty());
    assert(texts_of(argv@) =~= a2 + cv.subrange(0, 0));
    while j < cleaned.len()
        invariant
            j <= cleaned.len(),
            cv == texts_of(cleaned@),
            texts_of(argv@) == a2 + cv.subrange(0, j as int),
        decreases cleaned.len() - j,
    {
        let ghost before = texts_of(argv@);
        let t = cleaned[j].clone();
        argv.push(t);
        assert(texts_of(argv@) =~= before.push(t@));
        j = j + 1;
        assert(texts_of(argv@) =~= a2 + cv.subrange(0, j as int));
    }
    assert(cv.subrange(0, cleaned.len() as int) =~= cv);
    assert(texts_of(argv@) =~= pip_argv(prefix@, pv, opt_str(find_links), no_index, w));
    Ok(argv)
}

/// `pip_install_argv` for the `pyinstaller` package alone.
pub fn pyinstaller_install_argv(prefix: &str, find_links: Option<&str>, no_index: bool) -> (r: Result<
    Vec<String>,
    CodexError,
>)
    ensures
        r is Ok && exists|w: bool|
            texts_of(r->Ok_0@) == pip_argv(prefix@, seq!["pyinstaller"@], opt_str(find_links), no_index, w),
{
    let mut packages: Vec<String> = Vec::new();
    packages.push(owned("pyinstaller"));
    assert(texts_of(packages@) =~= seq!["pyinstaller"@]);
    proof {
        reveal_strlit("pyinstaller");
        let v = seq!["pyinstaller"@];
        assert(v.drop_last() =~= Seq::<Seq<char>>::empty());
        assert(trim(v.last()).len() > 0) by {
            reveal_strlit("pyinstaller");
            assert(!crate::text::is_space(v.last()[0]));
            assert(!crate::text::is_space(v.last().last()));
        }
    }
    pip_install_argv(prefix, &packages, find_links, no_index)
}

/// `pyinstaller --noconfirm --onedir --distpath <dist> [--workpath <w>]
/// [--specpath <s>] <script>`; with `onefile`, `--onefile` comes second in
/// place of the `--onedir` flag.
pub open spec fn build_argv(script: Seq<char>, dist: Seq<char>, onefile: bool, work: Option<Seq<char>>, spec: Option<Seq<char>>, w: bool) -> Seq<Seq<char>> {
    let d = cmd_path(dist, w);
    (if onefile {
        seq!["pyinstaller"@, "--onefile"@, "--noconfirm"@, "--distpath"@, d]
    } else {
        seq!["pyinstaller"@, "--noconfirm"@, "--onedir"@, "--distpath"@, d]
    }) + (match work {
        Some(x) => seq!["--workpath"@, cmd_path(x, w)],
        None => Seq::empty(),
    }) + (match spec {
        Some(x) => seq!["--specpath"@, cmd_path(x, w)],
        None => Seq::empty(),
    }) + seq![cmd_path(script, w)]
}

pub fn pyinstaller_build_argv(
    script: &str,
    dist_dir: &str,
    onefile: bool,
    work_dir: Option<&str>,
    spec_dir: Option<&str>,
) -> (r: Result<Vec<String>, CodexError>)
    ensures
        script@.len() == 0 <==> r == Err::<Vec<String>, CodexError>(CodexError::EmptyScript),
        script@.len() > 0 ==> r is Ok && exists|w: bool|
            texts_of(r->Ok_0@) == build_argv(script@, dist_dir@, onefile, opt_str(work_dir), opt_str(spec_dir), w),
{
    if script.is_empty() {
        return Err(CodexError::EmptyScript);
    }
    let w = is_windows();
    let d = path_for_cmd(dist_dir, w);
    let mut argv: Vec<String> = Vec::new();
    argv.push(owned("pyinstaller"));
    if onefile {
        argv.push(owned("--onefile"));
        argv.push(owned("--noconfirm"));
        argv.push(owned("--distpath"));
        argv.push(d);
    } else {
        argv.push(owned("--noconfirm"));
        argv.push(owned("--onedir"));
        argv.push(owned("--distpath"));
        argv.push(d);
    }
    match work_dir {
        Some(x) => {
            argv.push(owned("--workpath"));
            argv.push(path_for_cmd(x, w));
        },
        None => {},
    }
    match spec_dir {
        Some(x) => {
            argv.push(owned("--specpath"));
            argv.push(path_for_cmd(x, w));
        },
        None => {},
    }
    argv.push(path_for_cmd(script, w));
    assert(texts_of(argv@) =~= build_argv(script@, dist_dir@, onefile, opt_str(work_dir), opt_str(spec_dir), w));
    Ok(argv)
}

/// `,` read as a space.
pub open spec fn commas_as_spaces(s: Seq<char>) -> Seq<char> {
    s.map_values(|c: char| if c == ',' { ' ' } else { c })
}

/// The tool names of a list separated by commas or white space, each kept
/// at its first occurrence.
pub open spec fn tool_list(raw: Seq<char>) -> Seq<Seq<char>> {
    dedup(words(commas_as_spaces(raw)))
}

pub fn parse_tool_list(raw: &str) -> (r: Vec<String>)
    ensures
        texts_of(r@) == tool_list(raw@),
{
    let v = chars_of(raw);
    let mut spaced: Vec<char> = Vec::new();
    let mut k: usize = 0;
    while k < v.len()
        invariant
            k <= v.len(),
            v@ == raw@,
            spaced@ == commas_as_spaces(v@.subrange(0, k as int)),
        decreases v.len() - k,
    {
        spaced.push(if v[k] == ',' {
            ' '
        } else {
            v[k]
        });
        k = k + 1;
        assert(spaced@ =~= commas_as_spaces(v@.subrange(0, k as int)));
    }
    assert(v@.subrange(0, v.len() as int) =~= v@);
    let ws = split_words(&spaced);
    let ghost wv = crate::wrap::texts_of(ws@);
    let mut out: Vec<String> = Vec::new();
    let mut i: usize = 0;
    assert(wv.subrange(0, 0) =~= Seq::<Seq<char>>::empty());
    assert(texts_of(out@) =~= Seq::<Seq<char>>::empty());
    while i < ws.len()
        invariant
            i <= ws.len(),
            wv == crate::wrap::texts_of(ws@),
            texts_of(out@) == dedup(wv.subrange(0, i as int)),
        decreases ws.len() - i,
    {
        let ghost pre = wv.subrange(0, i + 1);
        assert(pre.drop_last() =~= wv.subrange(0, i as int));
        assert(pre.last() == ws@[i as int]@);
        let t = text_of(ws[i].as_slice());
        let mut seen = false;
        let mut j: usize = 0;
        while j < out.len()
            invariant
                j <= out.len(),
                seen == exists|m: int| 0 <= m < j && texts_of(out@)[m] == t@,
            decreases out.len() - j,
        {
            assert(texts_of(out@)[j as int] == out@[j as int]@);
            if crate::text::same_text(out[j].as_str(), t.as_str()) {
                seen = true;
            }
            j = j + 1;
        }
        if !seen {
            let ghost before = texts_of(out@);
            out.push(t);
            assert(texts_of(out@) =~= before.push(pre.last()));
        } else {
            assert(texts_of(out@).contains(pre.last()));
        }
        i = i + 1;
    }
    assert(wv.subrange(0, ws.len() as int) =~= wv);
    out
}

/// The first member of an object whose value is a string.
pub open spec fn first_text_value(fields: Seq<JsonField>) -> Option<Seq<char>>
    decreases fields.len(),
{
    if fields.len() == 0 {
        None
    } else {
        match fields[0].value {
            Json::Str(s) => Some(s@),
            _ => first_text_value(fields.drop_first()),
        }
    }
}

/// The entry script that a package manifest declares in `bin`: the string
/// itself, or from a mapping the `codex` entry, else its first string entry.
pub open spec fn manifest_entry_spec(m: Json) -> Option<Seq<char>> {
    match get(m, "bin"@) {
        Some(Json::Str(s)) => Some(s@),
        Some(Json::Object(fields)) => match str_of(field_lookup(fields@, "codex"@)) {
            Some(t) => Some(t),
            None => first_text_value(fields@),
        },
        _ => None,
    }
}

/// The entry script, relative to the manifest's directory, that a package
/// manifest declares.
pub fn manifest_entry(manifest: &Json) -> (r: Option<String>)
    ensures
        crate::text::opt_view(r) == manifest_entry_spec(*manifest),
{
    match get_member(manifest, "bin") {
        Some(Json::Str(s)) => Some(s.clone()),
        Some(bin) => {
            match bin {
                Json::Object(fields) => {
                    match member_text(bin, "codex") {
                        Some(t) => {
                            return Some(t.clone());
                        },
                        None => {},
                    }
                    let mut i: usize = 0;
                    assert(fields@.subrange(0, fields.len() as int) =~= fields@);
                    while i < fields.len()
                        invariant
                            i <= fields.len(),
                            get(*manifest, "bin"@) == Some(*bin),
                            *bin == Json::Object(*fields),
                            str_of(get(*bin, "codex"@)) is None,
                            first_text_value(fields@) == first_text_value(
                                fields@.subrange(i as int, fields.len() as int),
                            ),
                        decreases fields.len() - i,
                    {
                        let ghost rest = fields@.subrange(i as int, fields.len() as int);
                        assert(rest.drop_first() =~= fields@.subrange(i + 1, fields.len() as int));
                        assert(rest[0] == fields@[i as int]);
                        match &fields[i].value {
                            Json::Str(s) => {
                                return Some(s.clone());
                            },
                            _ => {},
                        }
                        i = i + 1;
                    }
                    None
                },
                _ => None,
            }
        },
        None => None,
    }
}

/// A launcher script found on the search path needs the runtime beside it:
/// on Windows, one ending in `.cmd`, `.bat` or `.ps1` (in any case).
pub fn codex_path_needs_node(path: &str, windows: bool) -> (r: bool)
    ensures
        r == (windows && (lower_ext(path@, windows) == Some("cmd"@) || lower_ext(path@, windows)
            == Some("bat"@) || lower_ext(path@, windows) == Some("ps1"@))),
{
    windows && (lower_ext_is(path, windows, "cmd") || lower_ext_is(path, windows, "bat")
        || lower_ext_is(path, windows, "ps1"))
}

/// The first flagged candidate wins: with the flag of candidate `i` set
/// and none before it, the candidate found is the `i`-th.
pub proof fn lemma_first_found_least(c: Seq<Seq<char>>, e: Seq<bool>, i: int)
    requires
        0 <= i < c.len(),
        i < e.len(),
        e[i],
        forall|j: int| 0 <= j < i ==> !#[trigger] e[j],
    ensures
        first_found(c, e) == Some(c[i]),
    decreases i,
{
    if i > 0 {
        assert forall|j: int| 0 <= j < i - 1 implies !#[trigger] e.drop_first()[j] by {
            assert(e.drop_first()[j] == e[j + 1]);
        }
        assert(!e[0]);
        lemma_first_found_least(c.drop_first(), e.drop_first(), i - 1);
    }
}

/// Nothing is found when no candidate is flagged.
pub proof fn lemma_first_found_none(c: Seq<Seq<char>>, e: Seq<bool>)
    requires
        forall|j: int| 0 <= j < c.len() && j < e.len() ==> !#[trigger] e[j],
    ensures
        first_found(c, e) is None,
    decreases c.len(),
{
    if c.len() > 0 && e.len() > 0 {
        assert(!e[0]);
        assert forall|j: int| 0 <= j < c.drop_first().len() && j < e.drop_first().len() implies !#[trigger] e.drop_first()[j] by {
            assert(e.drop_first()[j] == e[j + 1]);
        }
        lemma_first_found_none(c.drop_first(), e.drop_first());
    }
}

/// Looking for `tool` on the search path `/a:/b` outside Windows tries
/// `/a/tool` then `/b/tool`, so the first of them that exists is found, and
/// nothing when neither exists.
pub proof fn lemma_locate_tool_on_two_dirs(pathext: Seq<char>, a_exists: bool, b_exists: bool)
    ensures
        search_candidates_spec("tool"@, "/a:/b"@, false, pathext) == seq!["/a/tool"@, "/b/tool"@],
        first_found(seq!["/a/tool"@, "/b/tool"@], seq![a_exists, b_exists]) == if a_exists {
            Some("/a/tool"@)
        } else if b_exists {
            Some("/b/tool"@)
        } else {
            None
        },
{
    reveal_strlit("tool");
    reveal_strlit("/a:/b");
    reveal_strlit("/a/tool");
    reveal_strlit("/b/tool");
    let t = "tool"@;
    assert(!crate::text::is_space(t[0]) && !crate::text::is_space(t[3]));
    assert(crate::text::trim_start(t) == t);
    assert(crate::text::trim_end(t) == t);
    assert(trim(t) == t);
    assert(!(exists|i: int| 0 <= i < t.len() && is_sep(#[trigger] t[i], false)));
    let p = "/a:/b"@;
    assert(p.drop_last() =~= seq!['/', 'a', ':', '/']);
    assert(seq!['/', 'a', ':', '/'].drop_last() =~= seq!['/', 'a', ':']);
    assert(seq!['/', 'a', ':'].drop_last() =~= seq!['/', 'a']);
    assert(seq!['/', 'a'].drop_last() =~= seq!['/']);
    assert(seq!['/'].drop_last() =~= Seq::<char>::empty());
    let s1 = crate::paths::split_path_state(seq!['/'], false);
    let s0 = crate::paths::split_path_state(Seq::<char>::empty(), false);
    assert(s0.0.len() == 0 && s0.1.len() == 0 && !s0.2);
    assert(seq!['/'].last() == '/');
    assert(s1.0.len() == 0 && s1.1 =~= seq!['/'] && !s1.2);
    let s2 = crate::paths::split_path_state(seq!['/', 'a'], false);
    assert(s2.1 =~= seq!['/', 'a']);
    let s3 = crate::paths::split_path_state(seq!['/', 'a', ':'], false);
    assert(s3.0 =~= seq![seq!['/', 'a']]);
    assert(s3.1.len() == 0);
    let s4 = crate::paths::split_path_state(seq!['/', 'a', ':', '/'], false);
    assert(s4.1 =~= seq!['/']);
    let s5 = crate::paths::split_path_state(p, false);
    assert(s5.1 =~= seq!['/', 'b']);
    assert(s5.0 =~= seq![seq!['/', 'a']]);
    let dirs = search_dirs(p, false);
    assert(dirs =~= seq![seq!['/', 'a'], seq!['/', 'b']]);
    let exts = extensions_for(t, false, pathext);
    assert(exts == seq![Seq::<char>::empty()]);
    assert(t + Seq::<char>::empty() =~= t);
    assert(dirs.drop_last() =~= seq![seq!['/', 'a']]);
    assert(seq![seq!['/', 'a']].drop_last() =~= Seq::<Seq<char>>::empty());
    assert(join_path(seq!['/', 'a'], t, false) =~= "/a/tool"@);
    assert(join_path(seq!['/', 'b'], t, false) =~= "/b/tool"@);
    assert(dir_candidates(seq!['/', 'a'], t, exts, false) =~= seq!["/a/tool"@]);
    assert(dir_candidates(seq!['/', 'b'], t, exts, false) =~= seq!["/b/tool"@]);
    let one = seq![seq!['/', 'a']];
    assert(one.last() == seq!['/', 'a']);
    assert(all_candidates(one.drop_last(), t, exts, false) =~= Seq::<Seq<char>>::empty());
    assert(all_candidates(one, t, exts, false) =~= seq!["/a/tool"@]);
    assert(dirs.last() =~= seq!['/', 'b']);
    assert(all_candidates(dirs, t, exts, false) =~= seq!["/a/tool"@, "/b/tool"@]);
    let c = seq!["/a/tool"@, "/b/tool"@];
    let e = seq![a_exists, b_exists];
    if a_exists {
        lemma_first_found_least(c, e, 0);
    } else if b_exists {
        lemma_first_found_least(c, e, 1);
    } else {
        lemma_first_found_none(c, e);
    }
}

} // verus!
