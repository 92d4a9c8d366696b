//! Recognition of the agent CLI's own diagnostics: translated one-line
//! notices, rejected-flag detection, HTTP status extraction and hints.
use vstd::prelude::*;
use crate::text::{
    chars_of, contains, has_infix, has_prefix, lower_of, lowercase, opt_view, owned, starts_with,
    trim, trim_text,
};

verus! {

/// The phrasings with which the CLI rejects an argument.
pub open spec fn rejects_argument(l: Seq<char>) -> bool {
    has_infix(l, "unexpected argument"@) || has_infix(l, "unknown argument"@) || has_infix(
        l,
        "unrecognized"@,
    )
}

/// The user-facing notice for a lowercased, trimmed diagnostic line.
pub open spec fn notice_for(l: Seq<char>) -> Option<Seq<char>> {
    if has_infix(l, "--ask-for-approval"@) && rejects_argument(l) {
        Some(
            "Erreur : l'option --ask-for-approval n'est pas reconnue par cette version de Codex."@,
        )
    } else if has_prefix(l, "tip:"@) && has_infix(l, "--ask-for-approval"@) {
        Some("Astuce : pour passer --ask-for-approval comme valeur, utilise -- --ask-for-approval."@)
    } else if has_prefix(l, "usage: codex exec"@) {
        Some("Utilisation : codex exec --json --sandbox <MODE_SANDBOX> [PROMPT]."@)
    } else if has_prefix(l, "for more information"@) || has_infix(l, "try '--help'"@) {
        Some("Pour plus d'information, utilise --help."@)
    } else if has_prefix(l, "error:"@) {
        if rejects_argument(l) {
            Some("Erreur : option inconnue ou invalide. Consulte --help."@)
        } else {
            Some("Erreur : commande Codex invalide. Consulte --help."@)
        }
    } else if has_prefix(l, "logged in using"@) {
        Some("Connecte avec ChatGPT."@)
    } else if has_prefix(l, "up to date in"@) {
        Some("A jour."@)
    } else {
        None
    }
}

fn rejects_argument_exec(l: &Vec<char>) -> (r: bool)
    ensures
        r == rejects_argument(l@),
{
    contains(l, "unexpected argument") || contains(l, "unknown argument") || contains(
        l,
        "unrecognized",
    )
}

/// The notice for a diagnostic line that is already trimmed and lowercased.
pub fn translate_lowered(lower: &str) -> (r: Option<String>)
    ensures
        opt_view(r) == notice_for(lower@),
{
    let l = chars_of(lower);
    if contains(&l, "--ask-for-approval") && rejects_argument_exec(&l) {
        Some(
            owned(
                "Erreur : l'option --ask-for-approval n'est pas reconnue par cette version de Codex.",
            ),
        )
    } else if starts_with(&l, "tip:") && contains(&l, "--ask-for-approval") {
        Some(
            owned(
                "Astuce : pour passer --ask-for-approval comme valeur, utilise -- --ask-for-approval.",
            ),
        )
    } else if starts_with(&l, "usage: codex exec") {
        Some(owned("Utilisation : codex exec --json --sandbox <MODE_SANDBOX> [PROMPT]."))
    } else if starts_with(&l, "for more information") || contains(&l, "try '--help'") {
        Some(owned("Pour plus d'information, utilise --help."))
    } else if starts_with(&l, "error:") {
        if rejects_argument_exec(&l) {
            Some(owned("Erreur : option inconnue ou invalide. Consulte --help."))
        } else {
            Some(owned("Erreur : commande Codex invalide. Consulte --help."))
        }
    } else if starts_with(&l, "logged in using") {
        Some(owned("Connecte avec ChatGPT."))
    } else if starts_with(&l, "up to date in") {
        Some(owned("A jour."))
    } else {
        None
    }
}

/// The notice for one line of the CLI's own output (argument errors, usage
/// banners, login and version banners); nothing for a blank or other line.
pub fn translate_codex_line(line: &str) -> (r: Option<String>)
    ensures
        trim(line@).len() == 0 ==> r is None,
        trim(line@).len() > 0 ==> opt_view(r) == notice_for(lower_of(trim(line@))),
{
    let t = trim_text(line);
    if t.as_str().is_empty() {
        return None;
    }
    let l = lowercase(t.as_str());
    translate_lowered(l.as_str())
}

/// The line rejects the `--ask-for-approval` flag or the value given to it.
pub open spec fn approval_flag_error(line: Seq<char>) -> bool {
    let l = lower_of(line);
    has_infix(l, "--ask-for-approval"@) && (rejects_argument(l) || rejects_value(l))
}

/// The phrasings with which the CLI rejects the value given to a flag.
pub open spec fn rejects_value(l: Seq<char>) -> bool {
    has_infix(l, "invalid value"@) || has_infix(l, "possible values"@)
}

/// The line rejects the `--sandbox` flag.
pub open spec fn sandbox_flag_error(line: Seq<char>) -> bool {
    let l = lower_of(line);
    has_infix(l, "--sandbox"@) && rejects_argument(l)
}

/// The line rejects the value given to `--sandbox`.
pub open spec fn sandbox_value_error(line: Seq<char>) -> bool {
    let l = lower_of(line);
    has_infix(l, "--sandbox"@) && rejects_value(l)
}

/// Whether the line says that `--ask-for-approval`, or the value given to
/// it, is not accepted.
pub fn is_approval_flag_error(line: &str) -> (r: bool)
    ensures
        r == approval_flag_error(line@),
{
    let l = chars_of(lowercase(line).as_str());
    contains(&l, "--ask-for-approval") && (rejects_argument_exec(&l) || contains(&l, "invalid value")
        || contains(&l, "possible values"))
}

/// Whether the line says that `--sandbox`, or the value given to it, is not
/// accepted.
pub fn is_sandbox_error(line: &str) -> (r: bool)
    ensures
        r == (sandbox_flag_error(line@) || sandbox_value_error(line@)),
{
    let l = chars_of(lowercase(line).as_str());
    contains(&l, "--sandbox") && (rejects_argument_exec(&l) || contains(&l, "invalid value")
        || contains(&l, "possible values"))
}

/// The hint for an HTTP status that the agent reported.
pub open spec fn hint_for(status: u16) -> Option<Seq<char>> {
    if status == 401 {
        Some(
            "401 = authentification invalide -> Ctrl+K (login) ou `codex logout` + login ChatGPT."@,
        )
    } else if status == 403 {
        Some("403 = acces interdit -> verifie login ChatGPT (pas API key) / droits / reseau."@)
    } else if status == 407 {
        Some("407 = proxy auth required -> configure HTTP_PROXY/HTTPS_PROXY."@)
    } else if status == 429 {
        Some("429 = rate limit -> reessaie plus tard / ralentis."@)
    } else if 500 <= status && status <= 599 {
        Some("5xx = erreur serveur -> reessaie, possible incident cote OpenAI."@)
    } else {
        None
    }
}

pub fn codex_hint_for_status(status: u16) -> (r: Option<String>)
    ensures
        opt_view(r) == hint_for(status),
{
    if status == 401 {
        Some(
            owned(
                "401 = authentification invalide -> Ctrl+K (login) ou `codex logout` + login ChatGPT.",
            ),
        )
    } else if status == 403 {
        Some(owned("403 = acces interdit -> verifie login ChatGPT (pas API key) / droits / reseau."))
    } else if status == 407 {
        Some(owned("407 = proxy auth required -> configure HTTP_PROXY/HTTPS_PROXY."))
    } else if status == 429 {
        Some(owned("429 = rate limit -> reessaie plus tard / ralentis."))
    } else if 500 <= status && status <= 599 {
        Some(owned("5xx = erreur serveur -> reessaie, possible incident cote OpenAI."))
    } else {
        None
    }
}

/// The status that follows "unexpected status" or "last status", in any case.
pub const STATUS_PATTERN: &'static str = "(?i)(?:unexpected status|last status[: ]+)\\s*(\\d{3})";

/// Any three-digit number standing as a word of its own.
pub const BARE_STATUS_PATTERN: &'static str = "\\b(\\d{3})\\b";

/// What `regex` finds as the first capture group of the leftmost match of a
/// pattern in a text, if the pattern compiles and matches.
pub uninterp spec fn first_capture_of(pattern: Seq<char>, text: Seq<char>) -> Option<Seq<char>>;

/// Relies on `regex::Regex::new` and `Regex::captures`: group 1 of the
/// leftmost match of `pattern` in `text`.
#[verifier::external_body]
fn first_capture(pattern: &str, text: &str) -> (r: Option<String>)
    ensures
        opt_view(r) == first_capture_of(pattern@, text@),
{
    let re = regex::Regex::new(pattern).ok()?;
    let caps = re.captures(text)?;
    caps.get(1).map(|m| m.as_str().to_string())
}

pub open spec fn is_ascii_digit(c: char) -> bool {
    '0' <= c && c <= '9'
}

/// The value of a run of ASCII digits.
pub open spec fn digits_value(s: Seq<char>) -> int
    decreases s.len(),
{
    if s.len() == 0 {
        0
    } else {
        digits_value(s.drop_last()) * 10 + (s.last() as int - '0' as int)
    }
}

pub open spec fn all_digits(d: Seq<char>) -> bool {
    forall|i: int| 0 <= i < d.len() ==> is_ascii_digit(#[trigger] d[i])
}

/// The text after an optional leading `+`.
pub open spec fn unsigned_part(s: Seq<char>) -> Seq<char> {
    if s.len() > 0 && s[0] == '+' {
        s.drop_first()
    } else {
        s
    }
}

/// What `str::parse::<u16>` gives: an optional `+`, then one or more ASCII
/// digits whose value fits.
pub open spec fn parse_u16(s: Seq<char>) -> Option<u16> {
    let d = unsigned_part(s);
    if d.len() > 0 && all_digits(d) && digits_value(d) <= 65535 {
        Some(digits_value(d) as u16)
    } else {
        None
    }
}

/// The status read from the captures of the two patterns: the keyword
/// pattern decides when it matched, else the bare one.
pub open spec fn status_from(first: Option<Seq<char>>, fallback: Option<Seq<char>>) -> Option<u16> {
    match first {
        Some(c) => parse_u16(c),
        None => match fallback {
            Some(c) => parse_u16(c),
            None => None,
        },
    }
}

fn parse_u16_exec(s: &str) -> (r: Option<u16>)
    ensures
        r == parse_u16(s@),
{
    let v = chars_of(s);
    let mut i: usize = 0;
    if v.len() > 0 && v[0] == '+' {
        i = 1;
    }
    let ghost d = v@.subrange(i as int, v.len() as int);
    assert(d =~= if s@.len() > 0 && s@[0] == '+' {
        s@.drop_first()
    } else {
        s@
    });
    if i == v.len() {
        return None;
    }
    let mut value: u32 = 0;
    let start = i;
    while i < v.len()
        invariant
            start <= i <= v.len(),
            v@ == s@,
            d == v@.subrange(start as int, v.len() as int),
            d == unsigned_part(s@),
            forall|k: int| start <= k < i ==> is_ascii_digit(#[trigger] v@[k]),
            value as int == digits_value(v@.subrange(start as int, i as int)),
            value <= 65535,
        decreases v.len() - i,
    {
        let c = v[i];
        if !('0' <= c && c <= '9') {
            assert(d[i - start] == c);
            assert(!is_ascii_digit(d[i - start]));
            assert(!all_digits(d));
            assert(parse_u16(s@) is None);
            return None;
        }
        let next: u32 = value * 10 + (c as u32 - '0' as u32);
        assert(v@.subrange(start as int, i + 1).drop_last() =~= v@.subrange(start as int, i as int));
        if next > 65535 {
            proof {
                assert(d.subrange(0, i + 1 - start) =~= v@.subrange(start as int, i + 1));
                let p = v@.subrange(start as int, i + 1);
                assert(p.last() == c);
                assert(digits_value(p) == digits_value(p.drop_last()) * 10 + (c as int - '0' as int));
                assert(digits_value(p) == next as int);
                if all_digits(d) {
                    lemma_digits_grow(d, (i + 1 - start) as int);
                    assert(digits_value(d) > 65535);
                }
                assert(parse_u16(s@) is None);
            }
            return None;
        }
        value = next;
        i = i + 1;
    }
    assert(v@.subrange(start as int, v.len() as int) =~= d);
    Some(value as u16)
}

proof fn lemma_digits_grow(d: Seq<char>, n: int)
    requires
        0 <= n <= d.len(),
        forall|i: int| 0 <= i < d.len() ==> is_ascii_digit(#[trigger] d[i]),
    ensures
        digits_value(d.subrange(0, n)) <= digits_value(d),
    decreases d.len() - n,
{
    if n < d.len() {
        lemma_digits_grow(d, n + 1);
        let p = d.subrange(0, n + 1);
        assert(p.drop_last() =~= d.subrange(0, n));
        lemma_digits_nonneg(d.subrange(0, n));
    } else {
        assert(d.subrange(0, n) =~= d);
    }
}

proof fn lemma_digits_nonneg(d: Seq<char>)
    requires
        forall|i: int| 0 <= i < d.len() ==> is_ascii_digit(#[trigger] d[i]),
    ensures
        digits_value(d) >= 0,
    decreases d.len(),
{
    if d.len() > 0 {
        lemma_digits_nonneg(d.drop_last());
    }
}

/// The status read from the two patterns' captures.
pub fn status_from_captures(first: Option<String>, fallback: Option<String>) -> (r: Option<u16>)
    ensures
        r == status_from(opt_view(first), opt_view(fallback)),
{
    match first {
        Some(c) => parse_u16_exec(c.as_str()),
        None => match fallback {
            Some(c) => parse_u16_exec(c.as_str()),
            None => None,
        },
    }
}

/// The HTTP-like status in an error message: the number after "unexpected
/// status" or "last status", else any three-digit word.
pub fn extract_status_code(msg: &str) -> (r: Option<u16>)
    ensures
        r == status_from(
            first_capture_of(STATUS_PATTERN@, msg@),
            first_capture_of(BARE_STATUS_PATTERN@, msg@),
        ),
{
    let first = first_capture(STATUS_PATTERN, msg);
    if first.is_some() {
        return status_from_captures(first, None);
    }
    let fallback = first_capture(BARE_STATUS_PATTERN, msg);
    status_from_captures(None, fallback)
}

} // verus!
