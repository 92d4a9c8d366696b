//! One agent session: the capability negotiation for the two optional
//! flags, the handling of each line the agent prints, the reassembly of
//! streamed text, and the suppression of an entry identical to the one
//! shown just before.
use vstd::prelude::*;
use crate::json::{Json, as_text, either, get, get_member, member_is, member_text, or_null, or_ref, render, str_of, to_compact};
use crate::normalize::{DisplayItem, DisplayKind, display_items, extract_display_items, views};
use crate::options::{CodexApprovalPolicy, CodexSandboxMode};
use crate::text::{concat, lower_of, nat_text, opt_view, owned, trim, trim_text};
use crate::diagnostics::{
    BARE_STATUS_PATTERN, STATUS_PATTERN, approval_flag_error, codex_hint_for_status,
    extract_status_code, first_capture_of, hint_for, is_approval_flag_error, is_sandbox_error,
    sandbox_flag_error, sandbox_value_error, status_from, translate_codex_line, notice_for,
};

verus! {

/// Whether the installed agent accepts an optional flag.
#[derive(Debug, Clone, Copy, PartialEq, Eq, Structural)]
pub enum Support {
    Unknown,
    Supported,
    Unsupported,
}

/// Something the session hands to the interface to show.
pub enum Emit {
    /// An entry of the compact view, with its kind.
    Entry(DisplayKind, String),
    /// A line of the interface's own log.
    Status(String),
    /// A raw line of the agent's output, for the verbose view.
    Output(String),
}

/// What an `Emit` shows.
pub enum Shown {
    Entry(DisplayKind, Seq<char>),
    Status(Seq<char>),
    Output(Seq<char>),
}

impl View for Emit {
    type V = Shown;

    open spec fn view(&self) -> Shown {
        match self {
            Emit::Entry(k, s) => Shown::Entry(*k, s@),
            Emit::Status(s) => Shown::Status(s@),
            Emit::Output(s) => Shown::Output(s@),
        }
    }
}

pub open spec fn shown(s: Seq<Emit>) -> Seq<Shown> {
    s.map_values(|e: Emit| e@)
}

/// The entry last shown, as kind and trimmed text.
pub type Fingerprint = Option<(DisplayKind, Seq<char>)>;

pub open spec fn fingerprint_of(f: Option<(DisplayKind, String)>) -> Fingerprint {
    match f {
        Some((k, s)) => Some((k, s@)),
        None => None,
    }
}

/// Showing one request: an entry whose trimmed text is blank, or that repeats
/// the entry shown just before, is dropped; other lines pass.
pub open spec fn deliver_one(last: Fingerprint, req: Shown) -> (Fingerprint, Seq<Shown>) {
    match req {
        Shown::Entry(k, s) => if trim(s).len() == 0 {
            (last, Seq::empty())
        } else if last == Some((k, trim(s))) {
            (last, Seq::empty())
        } else {
            (Some((k, trim(s))), seq![req])
        },
        _ => (last, seq![req]),
    }
}

/// Showing several requests in order.
pub open spec fn deliver(last: Fingerprint, reqs: Seq<Shown>) -> (Fingerprint, Seq<Shown>)
    decreases reqs.len(),
{
    if reqs.len() == 0 {
        (last, Seq::empty())
    } else {
        let (l, out) = deliver(last, reqs.drop_last());
        let (l2, more) = deliver_one(l, reqs.last());
        (l2, out + more)
    }
}

pub open spec fn sandbox_notice() -> Seq<char> {
    "Option --sandbox non supportee par cette version Codex. Relance sans sandbox (mode par defaut)."@
}

pub open spec fn approval_notice() -> Seq<char> {
    "Option --ask-for-approval non supportee par cette version Codex. Relance sans approbations."@
}

/// The notice for an HTTP status that has no hint of its own.
pub open spec fn unclassified_status_notice() -> Seq<char> {
    "Statut HTTP non reconnu -> reessaie plus tard."@
}

/// The entries for an error message of the agent: its known notice, else
/// its HTTP status with the matching hint (a retry-later notice when the
/// status has none), else a generic notice.
pub open spec fn error_entries(msg: Seq<char>, http: Seq<char>, generic: Seq<char>) -> Seq<Shown> {
    let tr = if trim(msg).len() > 0 {
        notice_for(lower_of(trim(msg)))
    } else {
        None
    };
    let status = status_from(
        first_capture_of(STATUS_PATTERN@, msg),
        first_capture_of(BARE_STATUS_PATTERN@, msg),
    );
    match tr {
        Some(t) => seq![Shown::Entry(DisplayKind::Action, t)],
        None => match status {
            Some(st) => seq![Shown::Entry(DisplayKind::Action, http + nat_text(st as nat) + seq!['.'])]
                + match hint_for(st) {
                Some(h) => seq![Shown::Entry(DisplayKind::Action, h)],
                None => seq![Shown::Entry(DisplayKind::Action, unclassified_status_notice())],
            },
            None => seq![Shown::Entry(DisplayKind::Action, generic)],
        },
    }
}

pub open spec fn entries_of(items: Seq<(DisplayKind, Seq<char>)>) -> Seq<Shown> {
    items.map_values(|i: (DisplayKind, Seq<char>)| Shown::Entry(i.0, i.1))
}

pub open spec fn is_delta(et: Option<Seq<char>>) -> bool {
    et == Some("response.output_text.delta"@) || et == Some("response.output_text"@)
}

pub open spec fn is_done(et: Option<Seq<char>>) -> bool {
    et == Some("response.output_text.done"@) || et == Some("response.output_item.done"@) || et
        == Some("response.completed"@)
}

pub open spec fn text_or_empty(s: Option<Seq<char>>) -> Seq<char> {
    match s {
        Some(t) => t,
        None => Seq::empty(),
    }
}

/// What one trimmed, non-blank line of the agent's output asks to show, and
/// the assistant buffer afterwards. `parsed` is the line read as one JSON
/// value, if it is one.
pub open spec fn react(compact: bool, buffer: Seq<char>, t: Seq<char>, parsed: Option<Json>) -> (
    Seq<Shown>,
    Seq<char>,
) {
    match notice_for(lower_of(t)) {
        Some(m) => (
            if compact {
                seq![Shown::Entry(DisplayKind::Action, m)]
            } else {
                seq![Shown::Status(m)]
            },
            buffer,
        ),
        None => match parsed {
            None => (
                if compact {
                    seq![Shown::Entry(DisplayKind::Action, t)]
                } else {
                    seq![Shown::Output(t)]
                },
                buffer,
            ),
            Some(v) => {
                let et = str_of(get(v, "type"@));
                if compact && is_delta(et) {
                    (Seq::empty(), buffer + text_or_empty(str_of(either(get(v, "delta"@), get(v, "text"@)))))
                } else if compact && is_done(et) {
                    if buffer.len() > 0 {
                        (seq![Shown::Entry(DisplayKind::Assistant, buffer)], Seq::empty())
                    } else {
                        (Seq::empty(), buffer)
                    }
                } else if et == Some("error"@) {
                    let msg = text_or_empty(str_of(get(v, "message"@)));
                    (
                        if compact {
                            error_entries(
                                msg,
                                "Erreur Codex HTTP "@,
                                "Erreur Codex: une erreur est survenue. Consulte le journal ou relance."@,
                            )
                        } else {
                            seq![Shown::Status("Erreur Codex: une erreur est survenue."@)]
                        },
                        buffer,
                    )
                } else if et == Some("turn.failed"@) {
                    let err = or_null(get(v, "error"@));
                    let msg = text_or_empty(str_of(either(get(err, "message"@), get(err, "text"@))));
                    (
                        if compact {
                            error_entries(
                                msg,
                                "Tache echouee HTTP "@,
                                "Tache echouee: une erreur est survenue."@,
                            )
                        } else {
                            seq![Shown::Status("Tache echouee."@)]
                        },
                        buffer,
                    )
                } else if compact {
                    (entries_of(display_items(v)), buffer)
                } else {
                    (
                        seq![
                            Shown::Output(
                                match et {
                                    Some(e) => seq!['['] + e + seq![']', ' '] + render(v),
                                    None => render(v),
                                },
                            ),
                        ],
                        buffer,
                    )
                }
            },
        },
    }
}

/// A copy of `e`.
pub fn copy_emit(e: &Emit) -> (r: Emit)
    ensures
        r@ == e@,
{
    match e {
        Emit::Entry(k, s) => Emit::Entry(*k, s.clone()),
        Emit::Status(s) => Emit::Status(s.clone()),
        Emit::Output(s) => Emit::Output(s.clone()),
    }
}

/// The state of one agent session.
pub struct CodexSession {
    pub sandbox_mode: CodexSandboxMode,
    pub approval_policy: CodexApprovalPolicy,
    pub sandbox_support: Support,
    pub approval_support: Support,
    /// The running invocation was given `--sandbox`.
    pub used_sandbox_flag: bool,
    /// The running invocation was given `--ask-for-approval`.
    pub used_approval_flag: bool,
    pub retry_without_sandbox: bool,
    pub retry_without_approval: bool,
    /// Compact view (display items) rather than raw output.
    pub compact_view: bool,
    /// Streamed assistant text not shown yet.
    pub assistant_buffer: String,
    /// The entry shown last, as kind and trimmed text.
    pub last_entry: Option<(DisplayKind, String)>,
    /// The request of the running invocation, replayed on a retry.
    pub last_prompt: Option<String>,
    /// A request waiting for the status check to finish.
    pub pending_prompt: Option<String>,
    /// What is to be shown, oldest first; the interface drains it.
    pub notices: Vec<Emit>,
}

/// The flags to pass given what is known of their support.
pub open spec fn extra_args(
    sandbox: Support,
    mode: CodexSandboxMode,
    approval: Support,
    policy: CodexApprovalPolicy,
) -> Seq<Seq<char>> {
    (if sandbox != Support::Unsupported {
        seq!["--sandbox"@, mode.name()]
    } else {
        Seq::empty()
    }) + (if approval != Support::Unsupported {
        seq!["--ask-for-approval"@, policy.name()]
    } else {
        Seq::empty()
    })
}

pub open spec fn texts(v: Seq<String>) -> Seq<Seq<char>> {
    v.map_values(|s: String| s@)
}

impl CodexSession {
    /// Nothing is known yet of what the agent accepts.
    pub fn new(sandbox_mode: CodexSandboxMode, approval_policy: CodexApprovalPolicy, compact_view: bool) -> (r: CodexSession)
        ensures
            r.sandbox_mode == sandbox_mode,
            r.approval_policy == approval_policy,
            r.compact_view == compact_view,
            r.sandbox_support == Support::Unknown,
            r.approval_support == Support::Unknown,
            !r.used_sandbox_flag && !r.used_approval_flag,
            !r.retry_without_sandbox && !r.retry_without_approval,
            r.assistant_buffer@.len() == 0,
            r.last_entry is None,
            r.last_prompt is None,
            r.pending_prompt is None,
            r.notices@.len() == 0,
    {
        CodexSession {
            sandbox_mode,
            approval_policy,
            sandbox_support: Support::Unknown,
            approval_support: Support::Unknown,
            used_sandbox_flag: false,
            used_approval_flag: false,
            retry_without_sandbox: false,
            retry_without_approval: false,
            compact_view,
            assistant_buffer: String::new(),
            last_entry: None,
            last_prompt: None,
            pending_prompt: None,
            notices: Vec::new(),
        }
    }

    /// The optional flags for the next invocation: `--sandbox <mode>` unless
    /// known unsupported, then `--ask-for-approval <policy>` unless known
    /// unsupported.
    pub fn codex_exec_extra_args(&self) -> (r: Vec<String>)
        ensures
            texts(r@) == extra_args(
                self.sandbox_support,
                self.sandbox_mode,
                self.approval_support,
                self.approval_policy,
            ),
    {
        let mut args: Vec<String> = Vec::new();
        if self.sandbox_support != Support::Unsupported {
            args.push(owned("--sandbox"));
            args.push(owned(self.sandbox_mode.as_str()));
        }
        if self.approval_support != Support::Unsupported {
            args.push(owned("--ask-for-approval"));
            args.push(owned(self.approval_policy.as_str()));
        }
        assert(texts(args@) =~= extra_args(
            self.sandbox_support,
            self.sandbox_mode,
            self.approval_support,
            self.approval_policy,
        ));
        args
    }

    /// The session's own state, the output aside, is that of `o`.
    pub open spec fn same_negotiation(&self, o: CodexSession) -> bool {
        &&& self.sandbox_mode == o.sandbox_mode
        &&& self.approval_policy == o.approval_policy
        &&& self.sandbox_support == o.sandbox_support
        &&& self.approval_support == o.approval_support
        &&& self.used_sandbox_flag == o.used_sandbox_flag
        &&& self.used_approval_flag == o.used_approval_flag
        &&& self.retry_without_sandbox == o.retry_without_sandbox
        &&& self.retry_without_approval == o.retry_without_approval
        &&& self.compact_view == o.compact_view
        &&& self.last_prompt == o.last_prompt
        &&& self.pending_prompt == o.pending_prompt
    }

    /// Records the flags given to the invocation about to start for `prompt`,
    /// and returns them.
    pub fn prepare_exec(&mut self, prompt: &str) -> (r: Vec<String>)
        ensures
            texts(r@) == extra_args(
                old(self).sandbox_support,
                old(self).sandbox_mode,
                old(self).approval_support,
                old(self).approval_policy,
            ),
            final(self).used_sandbox_flag == (old(self).sandbox_support != Support::Unsupported),
            final(self).used_approval_flag == (old(self).approval_support != Support::Unsupported),
            final(self).last_prompt is Some && final(self).last_prompt->0@ == prompt@,
            final(self).sandbox_support == old(self).sandbox_support,
            final(self).approval_support == old(self).approval_support,
            final(self).sandbox_mode == old(self).sandbox_mode,
            final(self).approval_policy == old(self).approval_policy,
            final(self).retry_without_sandbox == old(self).retry_without_sandbox,
            final(self).retry_without_approval == old(self).retry_without_approval,
            final(self).compact_view == old(self).compact_view,
            final(self).pending_prompt == old(self).pending_prompt,
            final(self).assistant_buffer == old(self).assistant_buffer,
            final(self).last_entry == old(self).last_entry,
            final(self).notices == old(self).notices,
    {
        let args = self.codex_exec_extra_args();
        self.used_sandbox_flag = self.sandbox_support != Support::Unsupported;
        self.used_approval_flag = self.approval_support != Support::Unsupported;
        self.last_prompt = Some(owned(prompt));
        args
    }

    /// Shows one request, dropping a blank entry or one that repeats the
    /// entry shown last.
    pub fn emit(&mut self, req: Emit)
        ensures
            shown(final(self).notices@) == shown(old(self).notices@) + deliver_one(
                fingerprint_of(old(self).last_entry),
                req@,
            ).1,
            fingerprint_of(final(self).last_entry) == deliver_one(
                fingerprint_of(old(self).last_entry),
                req@,
            ).0,
            final(self).same_negotiation(*old(self)),
            final(self).assistant_buffer == old(self).assistant_buffer,
    {
        let ghost before = shown(self.notices@);
        let ghost r = req@;
        match req {
            Emit::Entry(kind, msg) => {
                let cleaned = trim_text(msg.as_str());
                if cleaned.as_str().is_empty() {
                    assert(shown(self.notices@) =~= before + deliver_one(fingerprint_of(self.last_entry), r).1);
                    return;
                }
                let repeated = match &self.last_entry {
                    Some((k, t)) => *k == kind && *t == cleaned,
                    None => false,
                };
                if repeated {
                    assert(shown(self.notices@) =~= before + deliver_one(fingerprint_of(self.last_entry), r).1);
                    return;
                }
                self.last_entry = Some((kind, cleaned));
                self.notices.push(Emit::Entry(kind, msg));
            },
            _ => {
                self.notices.push(req);
            },
        }
        assert(shown(self.notices@) =~= before + deliver_one(fingerprint_of(old(self).last_entry), r).1);
    }

    /// Shows several requests in order.
    pub fn emit_all(&mut self, reqs: Vec<Emit>)
        ensures
            shown(final(self).notices@) == shown(old(self).notices@) + deliver(
                fingerprint_of(old(self).last_entry),
                shown(reqs@),
            ).1,
            fingerprint_of(final(self).last_entry) == deliver(
                fingerprint_of(old(self).last_entry),
                shown(reqs@),
            ).0,
            final(self).same_negotiation(*old(self)),
            final(self).assistant_buffer == old(self).assistant_buffer,
    {
        let ghost start = shown(self.notices@);
        let ghost fp0 = fingerprint_of(self.last_entry);
        let ghost all = shown(reqs@);
        let ghost s0 = *self;
        let mut k: usize = 0;
        assert(all.subrange(0, 0) =~= Seq::<Shown>::empty());
        assert(shown(self.notices@) =~= start + Seq::<Shown>::empty());
        while k < reqs.len()
            invariant
                k <= reqs.len(),
                all == shown(reqs@),
                shown(self.notices@) == start + deliver(fp0, all.subrange(0, k as int)).1,
                fingerprint_of(self.last_entry) == deliver(fp0, all.subrange(0, k as int)).0,
                self.same_negotiation(s0),
                self.assistant_buffer == s0.assistant_buffer,
            decreases reqs.len() - k,
        {
            let ghost pre = all.subrange(0, k + 1);
            assert(pre.drop_last() =~= all.subrange(0, k as int));
            assert(pre.last() == reqs@[k as int]@);
            let e = copy_emit(&reqs[k]);
            self.emit(e);
            k = k + 1;
            assert(shown(self.notices@) =~= start + deliver(fp0, all.subrange(0, k as int)).1);
        }
        assert(all.subrange(0, reqs.len() as int) =~= all);
    }

    /// Shows an entry of `kind` unless blank or a repeat of the last one.
    pub fn log_entry(&mut self, kind: DisplayKind, msg: &str)
        ensures
            shown(final(self).notices@) == shown(old(self).notices@) + deliver_one(
                fingerprint_of(old(self).last_entry),
                Shown::Entry(kind, msg@),
            ).1,
            fingerprint_of(final(self).last_entry) == deliver_one(
                fingerprint_of(old(self).last_entry),
                Shown::Entry(kind, msg@),
            ).0,
            final(self).same_negotiation(*old(self)),
            final(self).assistant_buffer == old(self).assistant_buffer,
    {
        self.emit(Emit::Entry(kind, owned(msg)));
    }

    /// Reacts to a line rejecting `--sandbox` or its value, if the running
    /// invocation was given it: the flag is known unsupported from then on
    /// (the notice is shown the first time only) and a retry is due.
    pub fn handle_sandbox_flag_line(&mut self, line: &str) -> (r: bool)
        ensures
            r == sandbox_hit(*old(self), line@),
            r ==> final(self).sandbox_support == Support::Unsupported && final(self).retry_without_sandbox,
            r && old(self).sandbox_support != Support::Unsupported ==> {
                &&& shown(final(self).notices@) == shown(old(self).notices@) + deliver_one(
                    fingerprint_of(old(self).last_entry),
                    Shown::Entry(DisplayKind::Action, sandbox_notice()),
                ).1
                &&& fingerprint_of(final(self).last_entry) == deliver_one(
                    fingerprint_of(old(self).last_entry),
                    Shown::Entry(DisplayKind::Action, sandbox_notice()),
                ).0
            },
            !(r && old(self).sandbox_support != Support::Unsupported) ==> final(self).notices == old(self).notices && final(self).last_entry == old(self).last_entry,
            !r ==> final(self).sandbox_support == old(self).sandbox_support && final(self).retry_without_sandbox == old(self).retry_without_sandbox,
            final(self).approval_support == old(self).approval_support,
            final(self).retry_without_approval == old(self).retry_without_approval,
            final(self).used_sandbox_flag == old(self).used_sandbox_flag,
            final(self).used_approval_flag == old(self).used_approval_flag,
            final(self).sandbox_mode == old(self).sandbox_mode,
            final(self).approval_policy == old(self).approval_policy,
            final(self).compact_view == old(self).compact_view,
            final(self).last_prompt == old(self).last_prompt,
            final(self).pending_prompt == old(self).pending_prompt,
            final(self).assistant_buffer == old(self).assistant_buffer,
    {
        if !self.used_sandbox_flag {
            return false;
        }
        if is_sandbox_error(line) {
            if self.sandbox_support != Support::Unsupported {
                self.sandbox_support = Support::Unsupported;
                self.log_entry(
                    DisplayKind::Action,
                    "Option --sandbox non supportee par cette version Codex. Relance sans sandbox (mode par defaut).",
                );
            }
            self.retry_without_sandbox = true;
            return true;
        }
        false
    }

    /// Reacts to a line rejecting `--ask-for-approval`, if the running
    /// invocation was given it: the flag is known unsupported from then on
    /// (the notice is shown the first time only) and a retry is due.
    pub fn handle_approval_flag_line(&mut self, line: &str) -> (r: bool)
        ensures
            r == approval_hit(*old(self), line@),
            r ==> final(self).approval_support == Support::Unsupported && final(self).retry_without_approval,
            r && old(self).approval_support != Support::Unsupported ==> {
                &&& shown(final(self).notices@) == shown(old(self).notices@) + deliver_one(
                    fingerprint_of(old(self).last_entry),
                    Shown::Entry(DisplayKind::Action, approval_notice()),
                ).1
                &&& fingerprint_of(final(self).last_entry) == deliver_one(
                    fingerprint_of(old(self).last_entry),
                    Shown::Entry(DisplayKind::Action, approval_notice()),
                ).0
            },
            !(r && old(self).approval_support != Support::Unsupported) ==> final(self).notices == old(self).notices && final(self).last_entry == old(self).last_entry,
            !r ==> final(self).approval_support == old(self).approval_support && final(self).retry_without_approval == old(self).retry_without_approval,
            final(self).sandbox_support == old(self).sandbox_support,
            final(self).retry_without_sandbox == old(self).retry_without_sandbox,
            final(self).used_sandbox_flag == old(self).used_sandbox_flag,
            final(self).used_approval_flag == old(self).used_approval_flag,
            final(self).sandbox_mode == old(self).sandbox_mode,
            final(self).approval_policy == old(self).approval_policy,
            final(self).compact_view == old(self).compact_view,
            final(self).last_prompt == old(self).last_prompt,
            final(self).pending_prompt == old(self).pending_prompt,
            final(self).assistant_buffer == old(self).assistant_buffer,
    {
        if !self.used_approval_flag || !is_approval_flag_error(line) {
            return false;
        }
        if self.approval_support != Support::Unsupported {
            self.approval_support = Support::Unsupported;
            self.log_entry(
                DisplayKind::Action,
                "Option --ask-for-approval non supportee par cette version Codex. Relance sans approbations.",
            );
        }
        self.retry_without_approval = true;
        true
    }
}

/// The running invocation was given `--sandbox` and the line rejects it.
pub open spec fn sandbox_hit(s: CodexSession, t: Seq<char>) -> bool {
    s.used_sandbox_flag && (sandbox_flag_error(t) || sandbox_value_error(t))
}

/// The running invocation was given `--ask-for-approval` and the line rejects it.
pub open spec fn approval_hit(s: CodexSession, t: Seq<char>) -> bool {
    s.used_approval_flag && approval_flag_error(t)
}

/// `prefix`, the decimal digits of `n`, then a full stop.
fn numbered(prefix: &str, n: u16) -> (r: String)
    ensures
        r@ == prefix@ + nat_text(n as nat) + seq!['.'],
{
    let mut v = crate::text::chars_of(prefix);
    crate::text::push_nat(&mut v, n as u32);
    v.push('.');
    crate::text::text_of(v.as_slice())
}

fn error_entries_exec(msg: &str, http: &str, generic: &str) -> (r: Vec<Emit>)
    ensures
        shown(r@) == error_entries(msg@, http@, generic@),
{
    let mut out: Vec<Emit> = Vec::new();
    match translate_codex_line(msg) {
        Some(t) => {
            out.push(Emit::Entry(DisplayKind::Action, t));
        },
        None => match extract_status_code(msg) {
            Some(st) => {
                out.push(Emit::Entry(DisplayKind::Action, numbered(http, st)));
                match codex_hint_for_status(st) {
                    Some(h) => out.push(Emit::Entry(DisplayKind::Action, h)),
                    None => out.push(
                        Emit::Entry(
                            DisplayKind::Action,
                            owned("Statut HTTP non reconnu -> reessaie plus tard."),
                        ),
                    ),
                }
            },
            None => {
                out.push(Emit::Entry(DisplayKind::Action, owned(generic)));
            },
        },
    }
    assert(shown(out@) =~= error_entries(msg@, http@, generic@));
    out
}

fn entries_exec(items: &Vec<DisplayItem>) -> (r: Vec<Emit>)
    ensures
        shown(r@) == entries_of(views(items@)),
{
    let mut out: Vec<Emit> = Vec::new();
    let mut k: usize = 0;
    while k < items.len()
        invariant
            k <= items.len(),
            out.len() == k,
            shown(out@) == entries_of(views(items@).subrange(0, k as int)),
        decreases items.len() - k,
    {
        assert(views(items@)[k as int] == items@[k as int]@);
        let ghost before = out@;
        let e = Emit::Entry(items[k].kind, items[k].message.clone());
        assert(e@ == Shown::Entry(views(items@)[k as int].0, views(items@)[k as int].1));
        out.push(e);
        assert(shown(out@) == shown(before).push(e@)) by {
            assert(shown(out@) =~= shown(before).push(e@));
        }
        k = k + 1;
        assert(shown(out@) =~= entries_of(views(items@).subrange(0, k as int)));
    }
    assert(views(items@).subrange(0, items.len() as int) =~= views(items@));
    out
}

fn one(e: Emit) -> (r: Vec<Emit>)
    ensures
        shown(r@) == seq![e@],
{
    let mut v: Vec<Emit> = Vec::new();
    v.push(e);
    assert(shown(v@) =~= seq![e@]);
    v
}

/// What one trimmed, non-blank line asks to show, and the assistant buffer
/// afterwards; `parsed` is the line read as one JSON value, if it is one.
pub fn react_to_line(compact: bool, buffer: &String, t: &String, parsed: Option<&Json>) -> (r: (
    Vec<Emit>,
    String,
))
    ensures
        (shown(r.0@), r.1@) == react(compact, buffer@, t@, crate::json::deref_opt(parsed)),
{
    let lowered = crate::text::lowercase(t.as_str());
    match crate::diagnostics::translate_lowered(lowered.as_str()) {
        Some(m) => {
            let e = if compact {
                Emit::Entry(DisplayKind::Action, m)
            } else {
                Emit::Status(m)
            };
            return (one(e), buffer.clone());
        },
        None => {},
    }
    let v = match parsed {
        None => {
            let e = if compact {
                Emit::Entry(DisplayKind::Action, t.clone())
            } else {
                Emit::Output(t.clone())
            };
            return (one(e), buffer.clone());
        },
        Some(v) => v,
    };
    let et = member_text(v, "type");
    let delta = member_is(v, "type", "response.output_text.delta") || member_is(
        v,
        "type",
        "response.output_text",
    );
    if compact && delta {
        let piece = as_text(or_ref(get_member(v, "delta"), get_member(v, "text")));
        let grown = match piece {
            Some(p) => concat(buffer.as_str(), p.as_str()),
            None => {
                assert(buffer@ + Seq::<char>::empty() =~= buffer@);
                buffer.clone()
            },
        };
        return (Vec::new(), grown);
    }
    let done = member_is(v, "type", "response.output_text.done") || member_is(
        v,
        "type",
        "response.output_item.done",
    ) || member_is(v, "type", "response.completed");
    if compact && done {
        if buffer.as_str().is_empty() {
            return (Vec::new(), buffer.clone());
        }
        return (one(Emit::Entry(DisplayKind::Assistant, buffer.clone())), String::new());
    }
    if member_is(v, "type", "error") {
        let msg = match member_text(v, "message") {
            Some(m) => m.clone(),
            None => String::new(),
        };
        let out = if compact {
            error_entries_exec(
                msg.as_str(),
                "Erreur Codex HTTP ",
                "Erreur Codex: une erreur est survenue. Consulte le journal ou relance.",
            )
        } else {
            one(Emit::Status(owned("Erreur Codex: une erreur est survenue.")))
        };
        return (out, buffer.clone());
    }
    if member_is(v, "type", "turn.failed") {
        let null = Json::Null;
        let err: &Json = match get_member(v, "error") {
            Some(e) => e,
            None => &null,
        };
        let msg = match as_text(or_ref(get_member(err, "message"), get_member(err, "text"))) {
            Some(m) => m.clone(),
            None => String::new(),
        };
        let out = if compact {
            error_entries_exec(
                msg.as_str(),
                "Tache echouee HTTP ",
                "Tache echouee: une erreur est survenue.",
            )
        } else {
            one(Emit::Status(owned("Tache echouee.")))
        };
        return (out, buffer.clone());
    }
    if compact {
        let items = extract_display_items(v);
        return (entries_exec(&items), buffer.clone());
    }
    let rendered = to_compact(v);
    let text = match et {
        Some(e) => {
            let open = concat("[", e.as_str());
            let head = concat(open.as_str(), "] ");
            proof {
                reveal_strlit("[");
                reveal_strlit("] ");
            }
            assert(head@ =~= seq!['['] + e@ + seq![']', ' ']);
            concat(head.as_str(), rendered.as_str())
        },
        None => rendered,
    };
    (one(Emit::Output(text)), buffer.clone())
}

/// The requests that one line of the agent's output makes, given the
/// session before it; `t` is the line trimmed.
pub open spec fn line_requests(s: CodexSession, t: Seq<char>, parsed: Option<Json>) -> Seq<Shown> {
    if t.len() == 0 {
        Seq::empty()
    } else if sandbox_hit(s, t) {
        if s.sandbox_support != Support::Unsupported {
            seq![Shown::Entry(DisplayKind::Action, sandbox_notice())]
        } else {
            Seq::empty()
        }
    } else if approval_hit(s, t) {
        if s.approval_support != Support::Unsupported {
            seq![Shown::Entry(DisplayKind::Action, approval_notice())]
        } else {
            Seq::empty()
        }
    } else if s.retry_without_sandbox || s.retry_without_approval {
        Seq::empty()
    } else {
        react(s.compact_view, s.assistant_buffer@, t, parsed).0
    }
}

/// The line reaches the normalizer: it is not blank, rejects no flag in
/// use, and no retry is pending.
pub open spec fn line_reacts(s: CodexSession, t: Seq<char>) -> bool {
    t.len() > 0 && !sandbox_hit(s, t) && !approval_hit(s, t) && !s.retry_without_sandbox
        && !s.retry_without_approval
}

proof fn lemma_deliver_single(last: Fingerprint, x: Shown)
    ensures
        deliver(last, seq![x]) == deliver_one(last, x),
{
    let s = seq![x];
    assert(s.drop_last() =~= Seq::<Shown>::empty());
    assert(s.last() == x);
    assert(deliver(last, s.drop_last()) == (last, Seq::<Shown>::empty()));
    let (l2, more) = deliver_one(last, x);
    assert(Seq::<Shown>::empty() + more =~= more);
}

proof fn lemma_deliver_empty(last: Fingerprint, notices: Seq<Shown>)
    ensures
        deliver(last, Seq::empty()) == (last, Seq::<Shown>::empty()),
        notices + deliver(last, Seq::empty()).1 == notices,
{
    assert(notices + Seq::<Shown>::empty() =~= notices);
}

impl CodexSession {
    /// Handles one line of the agent's output. `parsed` is the trimmed line
    /// read as one JSON value, if it is one.
    pub fn handle_codex_line(&mut self, line: &str, parsed: Option<&Json>)
        ensures
            shown(final(self).notices@) == shown(old(self).notices@) + deliver(
                fingerprint_of(old(self).last_entry),
                line_requests(*old(self), trim(line@), crate::json::deref_opt(parsed)),
            ).1,
            fingerprint_of(final(self).last_entry) == deliver(
                fingerprint_of(old(self).last_entry),
                line_requests(*old(self), trim(line@), crate::json::deref_opt(parsed)),
            ).0,
            final(self).assistant_buffer@ == if line_reacts(*old(self), trim(line@)) {
                react(
                    old(self).compact_view,
                    old(self).assistant_buffer@,
                    trim(line@),
                    crate::json::deref_opt(parsed),
                ).1
            } else {
                old(self).assistant_buffer@
            },
            final(self).sandbox_support == if trim(line@).len() > 0 && sandbox_hit(
                *old(self),
                trim(line@),
            ) {
                Support::Unsupported
            } else {
                old(self).sandbox_support
            },
            final(self).retry_without_sandbox == (old(self).retry_without_sandbox || (trim(
                line@,
            ).len() > 0 && sandbox_hit(*old(self), trim(line@)))),
            final(self).approval_support == if trim(line@).len() > 0 && !sandbox_hit(
                *old(self),
                trim(line@),
            ) && approval_hit(*old(self), trim(line@)) {
                Support::Unsupported
            } else {
                old(self).approval_support
            },
            final(self).retry_without_approval == (old(self).retry_without_approval || (trim(
                line@,
            ).len() > 0 && !sandbox_hit(*old(self), trim(line@)) && approval_hit(
                *old(self),
                trim(line@),
            ))),
            final(self).used_sandbox_flag == old(self).used_sandbox_flag,
            final(self).used_approval_flag == old(self).used_approval_flag,
            final(self).sandbox_mode == old(self).sandbox_mode,
            final(self).approval_policy == old(self).approval_policy,
            final(self).compact_view == old(self).compact_view,
            final(self).last_prompt == old(self).last_prompt,
            final(self).pending_prompt == old(self).pending_prompt,
    {
        let ghost fp0 = fingerprint_of(self.last_entry);
        let ghost n0 = shown(self.notices@);
        let t = trim_text(line);
        if t.as_str().is_empty() {
            proof {
                lemma_deliver_empty(fp0, n0);
            }
            return;
        }
        if self.handle_sandbox_flag_line(t.as_str()) {
            proof {
                lemma_deliver_single(fp0, Shown::Entry(DisplayKind::Action, sandbox_notice()));
                lemma_deliver_empty(fp0, n0);
            }
            return;
        }
        if self.handle_approval_flag_line(t.as_str()) {
            proof {
                lemma_deliver_single(fp0, Shown::Entry(DisplayKind::Action, approval_notice()));
                lemma_deliver_empty(fp0, n0);
            }
            return;
        }
        if self.retry_without_sandbox || self.retry_without_approval {
            proof {
                lemma_deliver_empty(fp0, n0);
            }
            return;
        }
        let (reqs, buf) = react_to_line(self.compact_view, &self.assistant_buffer, &t, parsed);
        self.assistant_buffer = buf;
        self.emit_all(reqs);
    }
}

/// What a failed status check shows.
pub open spec fn status_failure_entries(device_auth: bool) -> Seq<Shown> {
    seq![
        Shown::Entry(DisplayKind::Action, "Echec de la verification du login Codex (status en erreur)."@),
        Shown::Entry(DisplayKind::Action, "Si tu n'es pas authentifie, fais Login puis recommence."@),
        Shown::Entry(DisplayKind::Action, "Si tu es deja authentifie, verifie l'installation et la connexion."@),
    ] + if device_auth {
        Seq::empty()
    } else {
        seq![
            Shown::Entry(
                DisplayKind::Action,
                "Astuce: si le navigateur ne s'ouvre pas, definis USBIDE_CODEX_DEVICE_AUTH=1 puis Ctrl+K."@,
            ),
        ]
    }
}

impl CodexSession {
    /// Takes a request from the user: a blank one is ignored; otherwise it
    /// is echoed in the compact view and held until the status check ends.
    pub fn submit_prompt(&mut self, prompt: &str) -> (r: bool)
        ensures
            r == (prompt@.len() > 0),
            !r ==> *final(self) == *old(self),
            r ==> final(self).pending_prompt is Some && final(self).pending_prompt->0@ == prompt@,
            r && old(self).compact_view ==> shown(final(self).notices@) == shown(old(self).notices@)
                + deliver_one(fingerprint_of(old(self).last_entry), Shown::Entry(DisplayKind::User, prompt@)).1
                && fingerprint_of(final(self).last_entry) == deliver_one(
                fingerprint_of(old(self).last_entry),
                Shown::Entry(DisplayKind::User, prompt@),
            ).0,
            r && !old(self).compact_view ==> final(self).notices == old(self).notices
                && final(self).last_entry == old(self).last_entry,
            final(self).sandbox_support == old(self).sandbox_support,
            final(self).approval_support == old(self).approval_support,
            final(self).retry_without_sandbox == old(self).retry_without_sandbox,
            final(self).retry_without_approval == old(self).retry_without_approval,
            final(self).used_sandbox_flag == old(self).used_sandbox_flag,
            final(self).used_approval_flag == old(self).used_approval_flag,
            final(self).last_prompt == old(self).last_prompt,
            final(self).assistant_buffer == old(self).assistant_buffer,
    {
        if prompt.is_empty() {
            return false;
        }
        if self.compact_view {
            self.log_entry(DisplayKind::User, prompt);
        }
        self.pending_prompt = Some(owned(prompt));
        true
    }

    /// The status check ended with `code`. On success the held request is
    /// returned, to be run now; on failure the reasons are shown. The held
    /// request is consumed either way.
    pub fn on_status_exit(&mut self, code: Option<i32>, device_auth: bool) -> (r: Option<String>)
        ensures
            final(self).pending_prompt is None,
            old(self).pending_prompt is None ==> r is None && final(self).notices == old(self).notices
                && final(self).last_entry == old(self).last_entry,
            old(self).pending_prompt is Some && code == Some(0i32) ==> opt_view(r) == opt_view(
                old(self).pending_prompt,
            ) && final(self).notices == old(self).notices && final(self).last_entry == old(
                self,
            ).last_entry,
            old(self).pending_prompt is Some && code != Some(0i32) ==> r is None && shown(
                final(self).notices@,
            ) == shown(old(self).notices@) + deliver(
                fingerprint_of(old(self).last_entry),
                status_failure_entries(device_auth),
            ).1 && fingerprint_of(final(self).last_entry) == deliver(
                fingerprint_of(old(self).last_entry),
                status_failure_entries(device_auth),
            ).0,
            final(self).sandbox_support == old(self).sandbox_support,
            final(self).approval_support == old(self).approval_support,
            final(self).retry_without_sandbox == old(self).retry_without_sandbox,
            final(self).retry_without_approval == old(self).retry_without_approval,
            final(self).used_sandbox_flag == old(self).used_sandbox_flag,
            final(self).used_approval_flag == old(self).used_approval_flag,
            final(self).last_prompt == old(self).last_prompt,
            final(self).assistant_buffer == old(self).assistant_buffer,
    {
        let pending = self.pending_prompt.take();
        match pending {
            None => None,
            Some(prompt) => {
                if code == Some(0i32) {
                    return Some(prompt);
                }
                let mut reqs: Vec<Emit> = Vec::new();
                reqs.push(
                    Emit::Entry(
                        DisplayKind::Action,
                        owned("Echec de la verification du login Codex (status en erreur)."),
                    ),
                );
                reqs.push(
                    Emit::Entry(
                        DisplayKind::Action,
                        owned("Si tu n'es pas authentifie, fais Login puis recommence."),
                    ),
                );
                reqs.push(
                    Emit::Entry(
                        DisplayKind::Action,
                        owned("Si tu es deja authentifie, verifie l'installation et la connexion."),
                    ),
                );
                if !device_auth {
                    reqs.push(
                        Emit::Entry(
                            DisplayKind::Action,
                            owned(
                                "Astuce: si le navigateur ne s'ouvre pas, definis USBIDE_CODEX_DEVICE_AUTH=1 puis Ctrl+K.",
                            ),
                        ),
                    );
                }
                assert(shown(reqs@) =~= status_failure_entries(device_auth));
                self.emit_all(reqs);
                None
            },
        }
    }

    /// The running invocation ended: streamed text still held is shown, and
    /// if a flag was found unsupported meanwhile, the same request is
    /// returned to be run once more (the flags it now gets leave that one out).
    pub fn on_exec_exit(&mut self) -> (r: Option<String>)
        ensures
            ({
                let flush = old(self).compact_view && old(self).assistant_buffer@.len() > 0;
                let reqs = if flush {
                    seq![Shown::Entry(DisplayKind::Assistant, old(self).assistant_buffer@)]
                } else {
                    Seq::empty()
                };
                &&& shown(final(self).notices@) == shown(old(self).notices@) + deliver(
                    fingerprint_of(old(self).last_entry),
                    reqs,
                ).1
                &&& fingerprint_of(final(self).last_entry) == deliver(
                    fingerprint_of(old(self).last_entry),
                    reqs,
                ).0
                &&& final(self).assistant_buffer@ == if flush {
                    Seq::empty()
                } else {
                    old(self).assistant_buffer@
                }
            }),
            !final(self).retry_without_sandbox && !final(self).retry_without_approval,
            opt_view(r) == if old(self).retry_without_sandbox || old(self).retry_without_approval {
                opt_view(old(self).last_prompt)
            } else {
                None
            },
            final(self).sandbox_support == old(self).sandbox_support,
            final(self).approval_support == old(self).approval_support,
            final(self).used_sandbox_flag == old(self).used_sandbox_flag,
            final(self).used_approval_flag == old(self).used_approval_flag,
            final(self).last_prompt == old(self).last_prompt,
            final(self).pending_prompt == old(self).pending_prompt,
            final(self).compact_view == old(self).compact_view,
    {
        let ghost fp0 = fingerprint_of(self.last_entry);
        let ghost n0 = shown(self.notices@);
        if self.compact_view && !self.assistant_buffer.as_str().is_empty() {
            let message = self.assistant_buffer.clone();
            self.assistant_buffer = String::new();
            self.emit(Emit::Entry(DisplayKind::Assistant, message));
            proof {
                lemma_deliver_single(fp0, Shown::Entry(DisplayKind::Assistant, old(self).assistant_buffer@));
            }
        } else {
            proof {
                lemma_deliver_empty(fp0, n0);
            }
        }
        if self.retry_without_sandbox || self.retry_without_approval {
            self.retry_without_sandbox = false;
            self.retry_without_approval = false;
            match &self.last_prompt {
                Some(p) => Some(p.clone()),
                None => None,
            }
        } else {
            None
        }
    }

    /// An install run ended; when the agent is now available the held
    /// request is returned, to be submitted again.
    pub fn on_install_exit(&mut self, available: bool) -> (r: Option<String>)
        ensures
            !available ==> r is None && *final(self) == *old(self),
            available ==> opt_view(r) == opt_view(old(self).pending_prompt)
                && final(self).pending_prompt is None
                && shown(final(self).notices@) == shown(old(self).notices@).push(
                Shown::Status("Codex installe."@),
            ) && final(self).last_entry == old(self).last_entry,
            final(self).sandbox_support == old(self).sandbox_support,
            final(self).approval_support == old(self).approval_support,
            final(self).retry_without_sandbox == old(self).retry_without_sandbox,
            final(self).retry_without_approval == old(self).retry_without_approval,
            final(self).used_sandbox_flag == old(self).used_sandbox_flag,
            final(self).used_approval_flag == old(self).used_approval_flag,
            final(self).last_prompt == old(self).last_prompt,
            final(self).assistant_buffer == old(self).assistant_buffer,
    {
        if !available {
            return None;
        }
        let ghost n0 = shown(self.notices@);
        self.notices.push(Emit::Status(owned("Codex installe.")));
        assert(shown(self.notices@) =~= n0.push(Shown::Status("Codex installe."@)));
        self.pending_prompt.take()
    }
}

/// An entry requested twice in immediate succession is shown at most once:
/// the second request shows nothing.
pub proof fn lemma_repeated_entry_shown_once(last: Fingerprint, kind: DisplayKind, msg: Seq<char>)
    ensures
        deliver(last, seq![Shown::Entry(kind, msg), Shown::Entry(kind, msg)]).1 == deliver_one(
            last,
            Shown::Entry(kind, msg),
        ).1,
        deliver(last, seq![Shown::Entry(kind, msg), Shown::Entry(kind, msg)]).1.len() <= 1,
{
    let e = Shown::Entry(kind, msg);
    let two = seq![e, e];
    assert(two.drop_last() =~= seq![e]);
    lemma_deliver_single(last, e);
    let (l1, out1) = deliver_one(last, e);
    let (l2, out2) = deliver_one(l1, e);
    assert(out2.len() == 0);
    assert(out1 + out2 =~= out1);
}

/// Once a line has rejected `--sandbox` while it was in use, the flag is
/// known unsupported, the flags built for every later invocation leave it
/// out whatever is known of the other flag, and a further such line shows no
/// second notice.
pub proof fn lemma_rejected_sandbox_flag_dropped(
    s: CodexSession,
    t: Seq<char>,
    approval: Support,
    later: CodexSession,
    parsed: Option<Json>,
)
    requires
        t.len() > 0,
        sandbox_hit(s, t),
        later.sandbox_support == Support::Unsupported,
    ensures
        !extra_args(Support::Unsupported, s.sandbox_mode, approval, s.approval_policy).contains(
            "--sandbox"@,
        ),
        sandbox_hit(later, t) ==> line_requests(later, t, parsed).len() == 0,
{
    let args = extra_args(Support::Unsupported, s.sandbox_mode, approval, s.approval_policy);
    reveal_strlit("--sandbox");
    reveal_strlit("--ask-for-approval");
    reveal_strlit("untrusted");
    reveal_strlit("on-failure");
    reveal_strlit("on-request");
    reveal_strlit("never");
    if approval != Support::Unsupported {
        let name = s.approval_policy.name();
        assert(args =~= seq!["--ask-for-approval"@, name]);
        assert(args[0] != "--sandbox"@) by {
            assert(args[0].len() != "--sandbox"@.len());
        }
        assert(args[1] != "--sandbox"@) by {
            assert(name[0] != '-');
        }
    } else {
        assert(args =~= Seq::<Seq<char>>::empty());
    }
}

/// Once a line has rejected `--ask-for-approval` while it was in use, the
/// flags built for every later invocation leave it out whatever is known of
/// the sandbox flag, and a further such line shows no second notice.
pub proof fn lemma_rejected_approval_flag_dropped(
    s: CodexSession,
    t: Seq<char>,
    sandbox: Support,
    later: CodexSession,
    parsed: Option<Json>,
)
    requires
        t.len() > 0,
        approval_hit(s, t),
        later.approval_support == Support::Unsupported,
        !sandbox_hit(later, t),
    ensures
        !extra_args(sandbox, s.sandbox_mode, Support::Unsupported, s.approval_policy).contains(
            "--ask-for-approval"@,
        ),
        approval_hit(later, t) ==> line_requests(later, t, parsed).len() == 0,
{
    let args = extra_args(sandbox, s.sandbox_mode, Support::Unsupported, s.approval_policy);
    reveal_strlit("--sandbox");
    reveal_strlit("--ask-for-approval");
    reveal_strlit("read-only");
    reveal_strlit("workspace-write");
    reveal_strlit("danger-full-access");
    if sandbox != Support::Unsupported {
        let name = s.sandbox_mode.name();
        assert(args =~= seq!["--sandbox"@, name]);
        assert(args[0] != "--ask-for-approval"@) by {
            assert(args[0].len() != "--ask-for-approval"@.len());
        }
        assert(args[1] != "--ask-for-approval"@) by {
            assert(name[0] != '-');
        }
    } else {
        assert(args =~= Seq::<Seq<char>>::empty());
    }
}

} // verus!
