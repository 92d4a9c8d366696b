use ide_usb::json::{Json, JsonField};
use ide_usb::normalize::DisplayKind;
use ide_usb::options::{CodexApprovalPolicy, CodexSandboxMode};
use ide_usb::session::{CodexSession, Emit, Support};

fn s(text: &str) -> Json {
    Json::Str(text.to_string())
}

fn obj(fields: Vec<(&str, Json)>) -> Json {
    Json::Object(
        fields
            .into_iter()
            .map(|(k, v)| JsonField { key: k.to_string(), value: v })
            .collect(),
    )
}

fn session() -> CodexSession {
    CodexSession::new(CodexSandboxMode::WorkspaceWrite, CodexApprovalPolicy::Never, true)
}

fn entries(sess: &CodexSession) -> Vec<(DisplayKind, String)> {
    sess.notices
        .iter()
        .filter_map(|e| match e {
            Emit::Entry(k, t) => Some((*k, t.clone())),
            _ => None,
        })
        .collect()
}

#[test]
fn capability_negotiation_drops_sandbox_flag() {
    let mut sess = session();
    assert_eq!(sess.sandbox_support, Support::Unknown);
    assert_eq!(sess.approval_support, Support::Unknown);
    let args = sess.prepare_exec("hello");
    assert_eq!(args, vec!["--sandbox", "workspace-write", "--ask-for-approval", "never"]);
    sess.handle_codex_line("error: unexpected argument '--sandbox' found", None);
    assert_eq!(sess.sandbox_support, Support::Unsupported);
    assert!(sess.retry_without_sandbox);
    assert_eq!(entries(&sess).len(), 1);
    sess.handle_codex_line("error: unexpected argument '--sandbox' found", None);
    assert_eq!(entries(&sess).len(), 1);
    let retry = sess.on_exec_exit();
    assert_eq!(retry, Some("hello".to_string()));
    let args = sess.prepare_exec("hello");
    assert_eq!(args, vec!["--ask-for-approval", "never"]);
    assert!(!sess.used_sandbox_flag);
    sess.handle_codex_line("error: unexpected argument '--sandbox' found", None);
    assert!(!sess.retry_without_sandbox);
    assert_eq!(sess.on_exec_exit(), None);
    assert_eq!(sess.codex_exec_extra_args(), vec!["--ask-for-approval", "never"]);
}

#[test]
fn approval_flag_rejection_is_retried_once() {
    let mut sess = session();
    sess.prepare_exec("task");
    sess.handle_codex_line("error: unexpected argument '--ask-for-approval' found", None);
    assert_eq!(sess.approval_support, Support::Unsupported);
    assert_eq!(sess.on_exec_exit(), Some("task".to_string()));
    assert_eq!(sess.prepare_exec("task"), vec!["--sandbox", "workspace-write"]);
}

#[test]
fn same_entry_twice_is_shown_once() {
    let mut sess = session();
    sess.log_entry(DisplayKind::User, "hello");
    sess.log_entry(DisplayKind::User, "hello");
    assert_eq!(entries(&sess), vec![(DisplayKind::User, "hello".to_string())]);
    sess.log_entry(DisplayKind::Assistant, "hello");
    sess.log_entry(DisplayKind::User, "  ");
    assert_eq!(entries(&sess).len(), 2);
}

#[test]
fn streamed_deltas_are_reassembled() {
    let mut sess = session();
    let d1 = obj(vec![("type", s("response.output_text.delta")), ("delta", s("Bon"))]);
    let d2 = obj(vec![("type", s("response.output_text.delta")), ("delta", s("jour"))]);
    let done = obj(vec![("type", s("response.completed"))]);
    sess.handle_codex_line("{delta 1}", Some(&d1));
    sess.handle_codex_line("{delta 2}", Some(&d2));
    assert!(entries(&sess).is_empty());
    assert_eq!(sess.assistant_buffer, "Bonjour");
    sess.handle_codex_line("{done}", Some(&done));
    assert_eq!(entries(&sess), vec![(DisplayKind::Assistant, "Bonjour".to_string())]);
    assert!(sess.assistant_buffer.is_empty());
}

#[test]
fn buffer_flushed_at_exit() {
    let mut sess = session();
    let d1 = obj(vec![("type", s("response.output_text")), ("text", s("fin"))]);
    sess.handle_codex_line("{delta}", Some(&d1));
    assert_eq!(sess.on_exec_exit(), None);
    assert_eq!(entries(&sess), vec![(DisplayKind::Assistant, "fin".to_string())]);
}

#[test]
fn http_error_gets_hint() {
    let mut sess = session();
    let err = obj(vec![("type", s("error")), ("message", s("unexpected status 401 Unauthorized"))]);
    sess.handle_codex_line("{error}", Some(&err));
    let e = entries(&sess);
    assert_eq!(e.len(), 2);
    assert_eq!(e[0].1, "Erreur Codex HTTP 401.");
    assert!(e[1].1.starts_with("401 ="));
}

#[test]
fn turn_failed_without_status() {
    let mut sess = session();
    let err = obj(vec![("type", s("turn.failed")), ("error", obj(vec![("message", s("boom"))]))]);
    sess.handle_codex_line("{failed}", Some(&err));
    assert_eq!(entries(&sess), vec![(DisplayKind::Action, "Tache echouee: une erreur est survenue.".to_string())]);
}

#[test]
fn plain_text_line_passes_through() {
    let mut sess = session();
    sess.handle_codex_line("  just text  ", None);
    assert_eq!(entries(&sess), vec![(DisplayKind::Action, "just text".to_string())]);
    let mut verbose = CodexSession::new(CodexSandboxMode::ReadOnly, CodexApprovalPolicy::OnRequest, false);
    verbose.handle_codex_line("raw", None);
    assert!(matches!(&verbose.notices[0], Emit::Output(t) if t == "raw"));
    let rec = obj(vec![("type", s("x")), ("n", Json::Number("1".to_string()))]);
    verbose.handle_codex_line("{rec}", Some(&rec));
    assert!(matches!(&verbose.notices[1], Emit::Output(t) if t == "[x] {\"type\":\"x\",\"n\":1}"));
}

#[test]
fn status_check_releases_prompt() {
    let mut sess = session();
    assert!(!sess.submit_prompt(""));
    assert!(sess.submit_prompt("do it"));
    assert_eq!(sess.on_status_exit(Some(0), false), Some("do it".to_string()));
    assert!(sess.pending_prompt.is_none());
    assert!(sess.submit_prompt("again"));
    assert_eq!(sess.on_status_exit(Some(1), false), None);
    assert_eq!(entries(&sess).len(), 2 + 4);
}

#[test]
fn approval_value_rejection_drops_flag() {
    let mut sess = session();
    sess.prepare_exec("task");
    sess.handle_codex_line("error: invalid value 'never' for '--ask-for-approval <POLICY>'", None);
    assert_eq!(sess.approval_support, Support::Unsupported);
    assert!(sess.retry_without_approval);
    assert_eq!(sess.prepare_exec("task"), vec!["--sandbox", "workspace-write"]);
}

#[test]
fn unclassified_status_gets_retry_notice() {
    let mut sess = session();
    let err = obj(vec![("type", s("error")), ("message", s("unexpected status 404 Not Found"))]);
    sess.handle_codex_line("{error}", Some(&err));
    assert_eq!(
        entries(&sess),
        vec![
            (DisplayKind::Action, "Erreur Codex HTTP 404.".to_string()),
            (DisplayKind::Action, "Statut HTTP non reconnu -> reessaie plus tard.".to_string()),
        ]
    );
}
