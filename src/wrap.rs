//! Word wrapping of plain text to a column width, keeping fenced code
//! blocks as they are and cutting words longer than a line.
use vstd::prelude::*;
use crate::text::{chars_of, has_prefix, is_space, is_space_char, text_of, trim, trim_start};

verus! {

/// The number of bytes that UTF-8 spends on `c`.
pub open spec fn char_bytes(c: char) -> nat {
    let u = c as u32;
    if u < 0x80 {
        1
    } else if u < 0x800 {
        2
    } else if u < 0x10000 {
        3
    } else {
        4
    }
}

/// The length in bytes of the UTF-8 form of `s`, as `str::len` counts it.
pub open spec fn byte_len(s: Seq<char>) -> nat
    decreases s.len(),
{
    if s.len() == 0 {
        0
    } else {
        byte_len(s.drop_last()) + char_bytes(s.last())
    }
}

pub proof fn lemma_byte_len_append(a: Seq<char>, b: Seq<char>)
    ensures
        byte_len(a + b) == byte_len(a) + byte_len(b),
    decreases b.len(),
{
    if b.len() > 0 {
        lemma_byte_len_append(a, b.drop_last());
        assert((a + b).drop_last() =~= a + b.drop_last());
    } else {
        assert(a + b =~= a);
    }
}

pub proof fn lemma_chars_within_bytes(s: Seq<char>)
    ensures
        s.len() <= byte_len(s),
    decreases s.len(),
{
    if s.len() > 0 {
        lemma_chars_within_bytes(s.drop_last());
    }
}

/// Whether `s` takes at most `limit` bytes.
pub fn within(s: &Vec<char>, limit: usize) -> (r: bool)
    ensures
        r == (byte_len(s@) <= limit),
{
    let mut total: usize = 0;
    let mut k: usize = 0;
    assert(s@.subrange(0, 0) =~= Seq::<char>::empty());
    while k < s.len()
        invariant
            k <= s.len(),
            total == byte_len(s@.subrange(0, k as int)),
            total <= limit,
        decreases s.len() - k,
    {
        let u = s[k] as u32;
        let b: usize = if u < 0x80 {
            1
        } else if u < 0x800 {
            2
        } else if u < 0x10000 {
            3
        } else {
            4
        };
        assert(s@.subrange(0, k + 1).drop_last() =~= s@.subrange(0, k as int));
        if b > limit - total {
            proof {
                lemma_byte_len_append(s@.subrange(0, k + 1), s@.subrange(k + 1, s.len() as int));
                assert(s@.subrange(0, k + 1) + s@.subrange(k + 1, s.len() as int) =~= s@);
            }
            return false;
        }
        total = total + b;
        k = k + 1;
    }
    assert(s@.subrange(0, s.len() as int) =~= s@);
    true
}

/// `s` cut into pieces of `w` characters, the last one possibly shorter;
/// `s` whole when `w` is 0 or `s` is no longer than `w`.
pub open spec fn chunks(s: Seq<char>, w: nat) -> Seq<Seq<char>>
    decreases s.len(),
{
    if w == 0 || s.len() <= w {
        seq![s]
    } else {
        seq![s.subrange(0, w as int)] + chunks(s.subrange(w as int, s.len() as int), w)
    }
}

/// The texts of a list of character vectors.
pub open spec fn texts_of(v: Seq<Vec<char>>) -> Seq<Seq<char>> {
    v.map_values(|x: Vec<char>| x@)
}

/// Appends `chunks(s[lo..], w)` to `out`.
fn push_chunks(out: &mut Vec<Vec<char>>, s: &Vec<char>, w: usize)
    ensures
        texts_of(final(out)@) == texts_of(old(out)@) + chunks(s@, w as nat),
{
    let ghost start = texts_of(out@);
    let n = s.len();
    if w == 0 || n <= w {
        out.push(crate::text::slice_chars(s, 0, n));
        assert(s@.subrange(0, n as int) =~= s@);
        assert(texts_of(out@) =~= start + chunks(s@, w as nat));
        return;
    }
    let mut lo: usize = 0;
    assert(s@.subrange(0, n as int) =~= s@);
    while n - lo > w
        invariant
            w > 0,
            n == s.len(),
            lo < n,
            texts_of(out@) + chunks(s@.subrange(lo as int, n as int), w as nat) == start + chunks(
                s@,
                w as nat,
            ),
        decreases n - lo,
    {
        let ghost rest = s@.subrange(lo as int, n as int);
        let piece = crate::text::slice_chars(s, lo, lo + w);
        assert(rest.subrange(0, w as int) =~= piece@);
        assert(rest.subrange(w as int, rest.len() as int) =~= s@.subrange(lo + w, n as int));
        let ghost before = texts_of(out@);
        out.push(piece);
        assert(texts_of(out@) =~= before.push(piece@));
        lo = lo + w;
        assert(texts_of(out@) + chunks(s@.subrange(lo as int, n as int), w as nat) =~= before + chunks(
            rest,
            w as nat,
        ));
    }
    let last = crate::text::slice_chars(s, lo, n);
    let ghost before = texts_of(out@);
    out.push(last);
    assert(texts_of(out@) =~= before + chunks(s@.subrange(lo as int, n as int), w as nat));
}

/// Cuts `line` into pieces of `width` characters (the whole line when
/// `width` is 0); an empty line gives one empty piece.
pub fn hard_wrap(line: &str, width: usize) -> (r: Vec<String>)
    ensures
        r@.map_values(|s: String| s@) == chunks(line@, width as nat),
{
    let mut out: Vec<Vec<char>> = Vec::new();
    push_chunks(&mut out, &chars_of(line), width);
    assert(texts_of(out@) =~= chunks(line@, width as nat));
    to_strings(&out)
}

/// The vectors as strings.
fn to_strings(v: &Vec<Vec<char>>) -> (r: Vec<String>)
    ensures
        r@.map_values(|s: String| s@) == texts_of(v@),
{
    let mut out: Vec<String> = Vec::new();
    let mut k: usize = 0;
    while k < v.len()
        invariant
            k <= v.len(),
            out.len() == k,
            out@.map_values(|s: String| s@) == texts_of(v@).subrange(0, k as int),
        decreases v.len() - k,
    {
        let ghost before = out@;
        let t = text_of(v[k].as_slice());
        out.push(t);
        k = k + 1;
        assert(out@.map_values(|s: String| s@) =~= texts_of(v@).subrange(0, k as int)) by {
            assert(before.map_values(|s: String| s@) =~= texts_of(v@).subrange(0, k - 1));
            assert(out@ == before.push(t));
        }
    }
    assert(texts_of(v@).subrange(0, v.len() as int) =~= texts_of(v@));
    out
}

/// One character of a left-to-right split on white space: the words so far
/// and the word being read.
pub open spec fn split_step(st: (Seq<Seq<char>>, Seq<char>), c: char) -> (Seq<Seq<char>>, Seq<char>) {
    if is_space(c) {
        if st.1.len() > 0 {
            (st.0.push(st.1), Seq::empty())
        } else {
            st
        }
    } else {
        (st.0, st.1.push(c))
    }
}

pub open spec fn split_state(s: Seq<char>) -> (Seq<Seq<char>>, Seq<char>)
    decreases s.len(),
{
    if s.len() == 0 {
        (Seq::empty(), Seq::empty())
    } else {
        split_step(split_state(s.drop_last()), s.last())
    }
}

/// The maximal runs of characters that are not white space, in order, as
/// `str::split_whitespace` gives them.
pub open spec fn words(s: Seq<char>) -> Seq<Seq<char>> {
    let (ws, cur) = split_state(s);
    if cur.len() > 0 {
        ws.push(cur)
    } else {
        ws
    }
}

pub fn split_words(s: &Vec<char>) -> (r: Vec<Vec<char>>)
    ensures
        texts_of(r@) == words(s@),
{
    let mut ws: Vec<Vec<char>> = Vec::new();
    let mut cur: Vec<char> = Vec::new();
    let mut k: usize = 0;
    assert(s@.subrange(0, 0) =~= Seq::<char>::empty());
    assert(texts_of(ws@) =~= Seq::<Seq<char>>::empty());
    while k < s.len()
        invariant
            k <= s.len(),
            (texts_of(ws@), cur@) == split_state(s@.subrange(0, k as int)),
        decreases s.len() - k,
    {
        let c = s[k];
        assert(s@.subrange(0, k + 1).drop_last() =~= s@.subrange(0, k as int));
        if is_space_char(c) {
            if cur.len() > 0 {
                let ghost before = texts_of(ws@);
                let word = cur;
                cur = Vec::new();
                ws.push(word);
                assert(texts_of(ws@) =~= before.push(word@));
                assert(cur@ =~= Seq::<char>::empty());
            }
        } else {
            cur.push(c);
        }
        k = k + 1;
    }
    assert(s@.subrange(0, s.len() as int) =~= s@);
    if cur.len() > 0 {
        let ghost before = texts_of(ws@);
        let word = cur;
        ws.push(word);
        assert(texts_of(ws@) =~= before.push(word@));
    }
    ws
}

/// Places one word: after the current line when it fits there with one
/// space, else on a new line; a word longer than the width is cut.
pub open spec fn place_word(st: (Seq<Seq<char>>, Seq<char>), word: Seq<char>, w: nat) -> (
    Seq<Seq<char>>,
    Seq<char>,
) {
    let (lines, cur) = st;
    if cur.len() == 0 {
        if byte_len(word) > w {
            (lines + chunks(word, w), Seq::empty())
        } else {
            (lines, word)
        }
    } else if byte_len(cur) + 1 + byte_len(word) <= w {
        (lines, cur + seq![' '] + word)
    } else if byte_len(word) > w {
        (lines.push(cur) + chunks(word, w), Seq::empty())
    } else {
        (lines.push(cur), word)
    }
}

pub open spec fn place_words(ws: Seq<Seq<char>>, w: nat) -> (Seq<Seq<char>>, Seq<char>)
    decreases ws.len(),
{
    if ws.len() == 0 {
        (Seq::empty(), Seq::empty())
    } else {
        place_word(place_words(ws.drop_last(), w), ws.last(), w)
    }
}

/// One line of prose wrapped greedily to `w` bytes: kept whole when it fits,
/// else its words joined by single spaces as long as they fit.
pub open spec fn wrap_line_spec(line: Seq<char>, w: nat) -> Seq<Seq<char>> {
    if byte_len(line) <= w {
        seq![line]
    } else {
        let (lines, cur) = place_words(words(line), w);
        let out = if cur.len() > 0 {
            lines.push(cur)
        } else {
            lines
        };
        if out.len() == 0 {
            seq![Seq::empty()]
        } else {
            out
        }
    }
}

fn wrap_line_into(out: &mut Vec<Vec<char>>, line: &Vec<char>, width: usize)
    ensures
        texts_of(final(out)@) == texts_of(old(out)@) + wrap_line_spec(line@, width as nat),
{
    let ghost start = texts_of(out@);
    if within(line, width) {
        out.push(crate::text::slice_chars(line, 0, line.len()));
        assert(line@.subrange(0, line.len() as int) =~= line@);
        assert(texts_of(out@) =~= start + wrap_line_spec(line@, width as nat));
        return;
    }
    let ws = split_words(line);
    let ghost wv = texts_of(ws@);
    let mut lines: Vec<Vec<char>> = Vec::new();
    let mut cur: Vec<char> = Vec::new();
    let mut k: usize = 0;
    assert(wv.subrange(0, 0) =~= Seq::<Seq<char>>::empty());
    assert(texts_of(lines@) =~= Seq::<Seq<char>>::empty());
    while k < ws.len()
        invariant
            k <= ws.len(),
            wv == texts_of(ws@),
            (texts_of(lines@), cur@) == place_words(wv.subrange(0, k as int), width as nat),
        decreases ws.len() - k,
    {
        assert(wv.subrange(0, k + 1).drop_last() =~= wv.subrange(0, k as int));
        assert(wv[k as int] == ws@[k as int]@);
        let word = &ws[k];
        if cur.len() == 0 {
            if !within(word, width) {
                push_chunks(&mut lines, word, width);
                assert(cur@ =~= Seq::<char>::empty());
            } else {
                cur = crate::text::slice_chars(word, 0, word.len());
                assert(word@.subrange(0, word.len() as int) =~= word@);
            }
        } else {
            let mut joined = crate::text::slice_chars(&cur, 0, cur.len());
            assert(cur@.subrange(0, cur.len() as int) =~= cur@);
            joined.push(' ');
            crate::text::push_all(&mut joined, word);
            assert(joined@ =~= cur@ + seq![' '] + word@);
            proof {
                lemma_byte_len_append(cur@ + seq![' '], word@);
                lemma_byte_len_append(cur@, seq![' ']);
                let sp = seq![' '];
                assert(sp.drop_last() =~= Seq::<char>::empty());
                assert(byte_len(sp.drop_last()) == 0);
                assert(sp.last() == ' ');
                assert((' ' as u32) == 32);
                assert(char_bytes(' ') == 1);
                assert(byte_len(sp) == 1);
            }
            if within(&joined, width) {
                cur = joined;
            } else {
                let ghost before = texts_of(lines@);
                let full = cur;
                cur = Vec::new();
                lines.push(full);
                assert(texts_of(lines@) =~= before.push(full@));
                assert(cur@ =~= Seq::<char>::empty());
                if !within(word, width) {
                    push_chunks(&mut lines, word, width);
                } else {
                    cur = crate::text::slice_chars(word, 0, word.len());
                    assert(word@.subrange(0, word.len() as int) =~= word@);
                }
            }
        }
        k = k + 1;
    }
    assert(wv.subrange(0, ws.len() as int) =~= wv);
    if cur.len() > 0 {
        let ghost before = texts_of(lines@);
        let last = cur;
        lines.push(last);
        assert(texts_of(lines@) =~= before.push(last@));
    }
    if lines.len() == 0 {
        lines.push(Vec::new());
        assert(texts_of(lines@) =~= seq![Seq::<char>::empty()]);
    }
    let mut j: usize = 0;
    let ghost produced = texts_of(lines@);
    assert(produced == wrap_line_spec(line@, width as nat));
    assert(produced.subrange(0, 0) =~= Seq::<Seq<char>>::empty());
    assert(texts_of(out@) =~= start + produced.subrange(0, 0));
    while j < lines.len()
        invariant
            j <= lines.len(),
            produced == texts_of(lines@),
            texts_of(out@) == start + produced.subrange(0, j as int),
        decreases lines.len() - j,
    {
        let ghost before = texts_of(out@);
        let piece = crate::text::slice_chars(&lines[j], 0, lines[j].len());
        assert(lines@[j as int]@.subrange(0, lines@[j as int]@.len() as int) =~= lines@[j as int]@);
        assert(produced[j as int] == piece@);
        out.push(piece);
        assert(texts_of(out@) =~= before.push(piece@));
        j = j + 1;
        assert(texts_of(out@) =~= start + produced.subrange(0, j as int));
    }
    assert(produced.subrange(0, lines.len() as int) =~= produced);
}

/// Wraps one line of prose to `width` bytes.
pub fn wrap_line(line: &str, width: usize) -> (r: Vec<String>)
    ensures
        r@.map_values(|s: String| s@) == wrap_line_spec(line@, width as nat),
{
    let mut out: Vec<Vec<char>> = Vec::new();
    wrap_line_into(&mut out, &chars_of(line), width);
    assert(texts_of(out@) =~= wrap_line_spec(line@, width as nat));
    to_strings(&out)
}

pub open spec fn strip_cr(s: Seq<char>) -> Seq<char> {
    if s.len() > 0 && s.last() == '\r' {
        s.drop_last()
    } else {
        s
    }
}

pub open spec fn lines_step(st: (Seq<Seq<char>>, Seq<char>), c: char) -> (Seq<Seq<char>>, Seq<char>) {
    if c == '\n' {
        (st.0.push(strip_cr(st.1)), Seq::empty())
    } else {
        (st.0, st.1.push(c))
    }
}

pub open spec fn lines_state(s: Seq<char>) -> (Seq<Seq<char>>, Seq<char>)
    decreases s.len(),
{
    if s.len() == 0 {
        (Seq::empty(), Seq::empty())
    } else {
        lines_step(lines_state(s.drop_last()), s.last())
    }
}

/// The lines of a text as `str::lines` gives them: split at each `\n`, a
/// `\r` just before it dropped, no empty line after a final `\n`.
pub open spec fn text_lines(s: Seq<char>) -> Seq<Seq<char>> {
    let (ls, cur) = lines_state(s);
    if cur.len() > 0 {
        ls.push(cur)
    } else {
        ls
    }
}

fn split_lines(s: &Vec<char>) -> (r: Vec<Vec<char>>)
    ensures
        texts_of(r@) == text_lines(s@),
{
    let mut ls: Vec<Vec<char>> = Vec::new();
    let mut cur: Vec<char> = Vec::new();
    let mut k: usize = 0;
    assert(s@.subrange(0, 0) =~= Seq::<char>::empty());
    assert(texts_of(ls@) =~= Seq::<Seq<char>>::empty());
    while k < s.len()
        invariant
            k <= s.len(),
            (texts_of(ls@), cur@) == lines_state(s@.subrange(0, k as int)),
        decreases s.len() - k,
    {
        let c = s[k];
        assert(s@.subrange(0, k + 1).drop_last() =~= s@.subrange(0, k as int));
        if c == '\n' {
            let mut line = cur;
            if line.len() > 0 && line[line.len() - 1] == '\r' {
                line.pop();
            }
            assert(line@ =~= strip_cr(lines_state(s@.subrange(0, k as int)).1));
            let ghost before = texts_of(ls@);
            ls.push(line);
            assert(texts_of(ls@) =~= before.push(line@));
            cur = Vec::new();
            assert(cur@ =~= Seq::<char>::empty());
        } else {
            cur.push(c);
        }
        k = k + 1;
    }
    assert(s@.subrange(0, s.len() as int) =~= s@);
    if cur.len() > 0 {
        let ghost before = texts_of(ls@);
        let last = cur;
        ls.push(last);
        assert(texts_of(ls@) =~= before.push(last@));
    }
    ls
}

/// A line that opens or closes a fenced code block.
pub open spec fn is_fence(raw: Seq<char>) -> bool {
    has_prefix(trim_start(raw), "```"@)
}

/// What one input line adds to the output, and whether a fence is open
/// after it: fence lines and lines inside a fence are kept as they are,
/// blank lines become empty lines, other lines are wrapped.
pub open spec fn wrap_step(st: (Seq<Seq<char>>, bool), raw: Seq<char>, w: nat) -> (
    Seq<Seq<char>>,
    bool,
) {
    let (out, in_code) = st;
    if is_fence(raw) {
        (out.push(raw), !in_code)
    } else if in_code {
        (out.push(raw), in_code)
    } else if trim(raw).len() == 0 {
        (out.push(Seq::empty()), in_code)
    } else {
        (out + wrap_line_spec(raw, w), in_code)
    }
}

pub open spec fn wrap_lines(ls: Seq<Seq<char>>, w: nat) -> (Seq<Seq<char>>, bool)
    decreases ls.len(),
{
    if ls.len() == 0 {
        (Seq::empty(), false)
    } else {
        wrap_step(wrap_lines(ls.drop_last(), w), ls.last(), w)
    }
}

/// The width actually used: at least ten columns.
pub open spec fn effective_width(width: usize) -> nat {
    if width < 10 {
        10
    } else {
        width as nat
    }
}

/// The wrapped lines of `text` at `width` (at least ten) columns.
pub open spec fn wrap_text_spec(text: Seq<char>, width: usize) -> Seq<Seq<char>> {
    wrap_lines(text_lines(text), effective_width(width)).0
}

fn is_fence_exec(raw: &Vec<char>) -> (r: bool)
    ensures
        r == is_fence(raw@),
{
    let t = crate::text::trim_start_chars(raw);
    crate::text::starts_with(&t, "```")
}

/// Wraps `text` to `width` columns (ten at least): prose lines greedily by
/// words, overlong words cut, blank lines kept as paragraph breaks, and the
/// lines of fenced code blocks kept unchanged.
pub fn wrap_text(text: &str, width: usize) -> (r: Vec<String>)
    ensures
        r@.map_values(|s: String| s@) == wrap_text_spec(text@, width),
{
    let w: usize = if width < 10 {
        10
    } else {
        width
    };
    let ls = split_lines(&chars_of(text));
    let ghost lv = texts_of(ls@);
    let mut out: Vec<Vec<char>> = Vec::new();
    let mut in_code = false;
    let mut k: usize = 0;
    assert(lv.subrange(0, 0) =~= Seq::<Seq<char>>::empty());
    assert(texts_of(out@) =~= Seq::<Seq<char>>::empty());
    while k < ls.len()
        invariant
            k <= ls.len(),
            w as nat == effective_width(width),
            lv == texts_of(ls@),
            (texts_of(out@), in_code) == wrap_lines(lv.subrange(0, k as int), w as nat),
        decreases ls.len() - k,
    {
        assert(lv.subrange(0, k + 1).drop_last() =~= lv.subrange(0, k as int));
        assert(lv[k as int] == ls@[k as int]@);
        let raw = &ls[k];
        let ghost before = texts_of(out@);
        if is_fence_exec(raw) {
            in_code = !in_code;
            out.push(crate::text::slice_chars(raw, 0, raw.len()));
            assert(raw@.subrange(0, raw.len() as int) =~= raw@);
            assert(texts_of(out@) =~= before.push(raw@));
        } else if in_code {
            out.push(crate::text::slice_chars(raw, 0, raw.len()));
            assert(raw@.subrange(0, raw.len() as int) =~= raw@);
            assert(texts_of(out@) =~= before.push(raw@));
        } else if crate::text::trim_chars(raw).len() == 0 {
            out.push(Vec::new());
            assert(texts_of(out@) =~= before.push(Seq::<char>::empty()));
        } else {
            wrap_line_into(&mut out, raw, w);
        }
        k = k + 1;
    }
    assert(lv.subrange(0, ls.len() as int) =~= lv);
    to_strings(&out)
}

/// Every line of `ls` has at most `w` characters.
pub open spec fn all_fit(ls: Seq<Seq<char>>, w: nat) -> bool {
    forall|i: int| 0 <= i < ls.len() ==> #[trigger] ls[i].len() <= w
}

proof fn lemma_fit_append(a: Seq<Seq<char>>, b: Seq<Seq<char>>, w: nat)
    requires
        all_fit(a, w),
        all_fit(b, w),
    ensures
        all_fit(a + b, w),
{
    assert forall|i: int| 0 <= i < (a + b).len() implies #[trigger] (a + b)[i].len() <= w by {
        if i < a.len() {
            assert((a + b)[i] == a[i]);
        } else {
            assert((a + b)[i] == b[i - a.len()]);
        }
    }
}

proof fn lemma_chunks_fit(s: Seq<char>, w: nat)
    requires
        w > 0,
    ensures
        all_fit(chunks(s, w), w),
    decreases s.len(),
{
    if s.len() > w {
        let rest = s.subrange(w as int, s.len() as int);
        lemma_chunks_fit(rest, w);
        lemma_fit_append(seq![s.subrange(0, w as int)], chunks(rest, w), w);
    }
}

proof fn lemma_place_words_fit(ws: Seq<Seq<char>>, w: nat)
    requires
        w > 0,
    ensures
        all_fit(place_words(ws, w).0, w),
        byte_len(place_words(ws, w).1) <= w,
    decreases ws.len(),
{
    if ws.len() > 0 {
        lemma_place_words_fit(ws.drop_last(), w);
        let (lines, cur) = place_words(ws.drop_last(), w);
        let word = ws.last();
        lemma_chunks_fit(word, w);
        lemma_chars_within_bytes(cur);
        lemma_fit_append(lines, seq![cur], w);
        lemma_fit_append(lines, chunks(word, w), w);
        lemma_fit_append(lines.push(cur), chunks(word, w), w);
        assert(lines.push(cur) =~= lines + seq![cur]);
        lemma_byte_len_append(cur + seq![' '], word);
        lemma_byte_len_append(cur, seq![' ']);
        let sp = seq![' '];
        assert(sp.drop_last() =~= Seq::<char>::empty());
        assert(byte_len(sp.drop_last()) == 0);
        assert(sp.last() == ' ');
        assert((' ' as u32) == 32);
        assert(char_bytes(' ') == 1);
        assert(byte_len(sp) == 1);
    }
}

proof fn lemma_wrap_line_fit(line: Seq<char>, w: nat)
    requires
        w > 0,
    ensures
        all_fit(wrap_line_spec(line, w), w),
{
    lemma_chars_within_bytes(line);
    lemma_place_words_fit(words(line), w);
    let (lines, cur) = place_words(words(line), w);
    lemma_chars_within_bytes(cur);
    lemma_fit_append(lines, seq![cur], w);
    assert(lines.push(cur) =~= lines + seq![cur]);
}

proof fn lemma_wrap_lines_fit(ls: Seq<Seq<char>>, w: nat)
    requires
        w > 0,
        forall|i: int| 0 <= i < ls.len() ==> !is_fence(#[trigger] ls[i]),
    ensures
        all_fit(wrap_lines(ls, w).0, w),
        !wrap_lines(ls, w).1,
    decreases ls.len(),
{
    if ls.len() > 0 {
        let pre = ls.drop_last();
        assert forall|i: int| 0 <= i < pre.len() implies !is_fence(#[trigger] pre[i]) by {
            assert(pre[i] == ls[i]);
        }
        lemma_wrap_lines_fit(pre, w);
        let (out, _) = wrap_lines(pre, w);
        assert(!is_fence(ls[ls.len() - 1]));
        lemma_wrap_line_fit(ls.last(), w);
        lemma_fit_append(out, wrap_line_spec(ls.last(), w), w);
        lemma_fit_append(out, seq![Seq::<char>::empty()], w);
        assert(out.push(Seq::<char>::empty()) =~= out + seq![Seq::<char>::empty()]);
    }
}

/// Outside fenced blocks no wrapped line is wider than the width used:
/// for a text with no fence line, every line that `wrap_text` gives has at
/// most `max(width, 10)` characters (overlong words are cut).
pub proof fn lemma_wrapped_lines_fit(text: Seq<char>, width: usize)
    requires
        forall|i: int| 0 <= i < text_lines(text).len() ==> !is_fence(#[trigger] text_lines(text)[i]),
    ensures
        forall|i: int| 0 <= i < wrap_text_spec(text, width).len() ==> #[trigger] wrap_text_spec(text, width)[i].len()
            <= effective_width(width),
{
    lemma_wrap_lines_fit(text_lines(text), effective_width(width));
}

/// Whether a fence is open after the lines `ls`.
pub open spec fn fence_open_after(ls: Seq<Seq<char>>) -> bool
    decreases ls.len(),
{
    if ls.len() == 0 {
        false
    } else if is_fence(ls.last()) {
        !fence_open_after(ls.drop_last())
    } else {
        fence_open_after(ls.drop_last())
    }
}

proof fn lemma_fence_state(ls: Seq<Seq<char>>, w: nat)
    ensures
        wrap_lines(ls, w).1 == fence_open_after(ls),
    decreases ls.len(),
{
    if ls.len() > 0 {
        lemma_fence_state(ls.drop_last(), w);
    }
}

proof fn lemma_wrap_prefix(ls: Seq<Seq<char>>, k: int, w: nat)
    requires
        0 <= k <= ls.len(),
    ensures
        wrap_lines(ls.subrange(0, k), w).0.len() <= wrap_lines(ls, w).0.len(),
        wrap_lines(ls, w).0.subrange(0, wrap_lines(ls.subrange(0, k), w).0.len() as int)
            == wrap_lines(ls.subrange(0, k), w).0,
    decreases ls.len() - k,
{
    if k == ls.len() {
        assert(ls.subrange(0, k) =~= ls);
        let o = wrap_lines(ls, w).0;
        assert(o.subrange(0, o.len() as int) =~= o);
    } else {
        lemma_wrap_prefix(ls, k + 1, w);
        let p1 = ls.subrange(0, k + 1);
        assert(p1.drop_last() =~= ls.subrange(0, k));
        let a = wrap_lines(ls.subrange(0, k), w).0;
        let b = wrap_lines(p1, w).0;
        let c = wrap_lines(ls, w).0;
        assert(b.subrange(0, a.len() as int) =~= a);
        assert(c.subrange(0, a.len() as int) =~= b.subrange(0, a.len() as int));
    }
}

/// Lines inside a fenced block are never rewrapped: a line that is not a
/// fence and follows an opening fence comes out as it is, whatever its
/// length, and stands in the output of the whole text.
pub proof fn lemma_fenced_line_kept(text: Seq<char>, width: usize, k: int)
    requires
        0 <= k < text_lines(text).len(),
        fence_open_after(text_lines(text).subrange(0, k)),
        !is_fence(text_lines(text)[k]),
    ensures
        wrap_lines(text_lines(text).subrange(0, k + 1), effective_width(width)).0 == wrap_lines(
            text_lines(text).subrange(0, k),
            effective_width(width),
        ).0.push(text_lines(text)[k]),
        wrap_text_spec(text, width).contains(text_lines(text)[k]),
{
    let ls = text_lines(text);
    let w = effective_width(width);
    let p1 = ls.subrange(0, k + 1);
    assert(p1.drop_last() =~= ls.subrange(0, k));
    lemma_fence_state(ls.subrange(0, k), w);
    lemma_wrap_prefix(ls, k + 1, w);
    let b = wrap_lines(p1, w).0;
    let c = wrap_lines(ls, w).0;
    let j = b.len() - 1;
    assert(c.subrange(0, b.len() as int)[j] == c[j]);
    assert(c[j] == ls[k]);
}

proof fn lemma_lines_state_plain(a: Seq<char>, b: Seq<char>)
    requires
        forall|i: int| 0 <= i < b.len() ==> #[trigger] b[i] != '\n',
    ensures
        lines_state(a + b) == (lines_state(a).0, lines_state(a).1 + b),
    decreases b.len(),
{
    if b.len() == 0 {
        assert(a + b =~= a);
        assert(lines_state(a).1 + b =~= lines_state(a).1);
    } else {
        let b0 = b.drop_last();
        assert forall|i: int| 0 <= i < b0.len() implies #[trigger] b0[i] != '\n' by {
            assert(b0[i] == b[i]);
        }
        lemma_lines_state_plain(a, b0);
        assert((a + b).drop_last() =~= a + b0);
        assert((a + b).last() == b.last());
        assert(b[b.len() - 1] != '\n');
        assert(lines_state(a).1 + b0 + seq![b.last()] =~= lines_state(a).1 + b);
        assert((lines_state(a).1 + b0).push(b.last()) =~= lines_state(a).1 + b);
    }
}

proof fn lemma_lines_state_newline(a: Seq<char>)
    ensures
        lines_state(a + seq!['\n']) == (lines_state(a).0.push(strip_cr(lines_state(a).1)), Seq::<char>::empty()),
{
    assert((a + seq!['\n']).drop_last() =~= a);
    assert((a + seq!['\n']).last() == '\n');
}

/// A fenced block of one line comes out exactly as it went in: a fence,
/// the line whatever its length, and the closing fence (the line holding no
/// line break and not ending in a carriage return, which `str::lines` drops).
pub proof fn lemma_fenced_block_exact(l: Seq<char>, width: usize)
    requires
        forall|i: int| 0 <= i < l.len() ==> #[trigger] l[i] != '\n',
        l.len() == 0 || l.last() != '\r',
        !is_fence(l),
    ensures
        wrap_text_spec("```"@ + seq!['\n'] + l + seq!['\n'] + "```"@, width) == seq!["```"@, l, "```"@],
{
    reveal_strlit("```");
    let f = "```"@;
    let nl = seq!['\n'];
    assert(f =~= seq!['`', '`', '`']);
    assert forall|i: int| 0 <= i < f.len() implies #[trigger] f[i] != '\n' by {}
    let e = Seq::<char>::empty();
    assert(e + f =~= f);
    lemma_lines_state_plain(e, f);
    assert(lines_state(e) == (Seq::<Seq<char>>::empty(), e));
    assert(e + f =~= f);
    assert(lines_state(f).1 =~= f);
    assert(lines_state(f).0 =~= Seq::<Seq<char>>::empty());
    lemma_lines_state_newline(f);
    assert(strip_cr(f) == f);
    let t1 = f + nl;
    lemma_lines_state_plain(t1, l);
    let t2 = t1 + l;
    lemma_lines_state_newline(t2);
    assert(e + l =~= l);
    assert(strip_cr(l) == l);
    let t3 = t2 + nl;
    lemma_lines_state_plain(t3, f);
    let t4 = t3 + f;
    assert(lines_state(t4).0 =~= seq![f, l]);
    assert(lines_state(t4).1 =~= f);
    assert(text_lines(t4) =~= seq![f, l, f]);
    let ls = seq![f, l, f];
    let w = effective_width(width);
    assert(trim_start(f) == f) by {
        assert(!crate::text::is_space(f[0]));
    }
    assert(is_fence(f)) by {
        assert(f.subrange(0, 3) =~= f);
    }
    assert(ls.drop_last() =~= seq![f, l]);
    assert(seq![f, l].drop_last() =~= seq![f]);
    assert(seq![f].drop_last() =~= Seq::<Seq<char>>::empty());
    assert(wrap_lines(seq![f], w) == (seq![f], true)) by {
        assert(seq![f].last() == f);
        assert(wrap_lines(Seq::<Seq<char>>::empty(), w) == (Seq::<Seq<char>>::empty(), false));
        assert(Seq::<Seq<char>>::empty().push(f) =~= seq![f]);
    }
    assert(wrap_lines(seq![f, l], w) == (seq![f, l], true)) by {
        assert(seq![f].push(l) =~= seq![f, l]);
    }
    assert(wrap_lines(ls, w).0 =~= seq![f, l, f]);
}

} // verus!
