use ide_usb::options::{
    parse_codex_approval_policy, parse_codex_sandbox_mode, CodexApprovalPolicy, CodexSandboxMode,
};
use ide_usb::diagnostics::{codex_hint_for_status, extract_status_code, status_from_captures, translate_codex_line, translate_lowered};
use ide_usb::wrap::{hard_wrap, wrap_line, wrap_text};

#[test]
fn parse_codex_sandbox_mode_ok() {
    assert_eq!(parse_codex_sandbox_mode("read-only"), Some(CodexSandboxMode::ReadOnly));
    assert_eq!(parse_codex_sandbox_mode("workspace-write"), Some(CodexSandboxMode::WorkspaceWrite));
    assert_eq!(parse_codex_sandbox_mode("agent"), Some(CodexSandboxMode::WorkspaceWrite));
    assert_eq!(parse_codex_sandbox_mode("danger-full-access"), Some(CodexSandboxMode::DangerFullAccess));
    assert_eq!(parse_codex_sandbox_mode("???"), None);
}

#[test]
fn parse_modes_ignore_case_and_space() {
    assert_eq!(parse_codex_sandbox_mode("  RO "), Some(CodexSandboxMode::ReadOnly));
    assert_eq!(parse_codex_approval_policy(" Off"), Some(CodexApprovalPolicy::Never));
    assert_eq!(CodexSandboxMode::ReadOnly.as_str(), "read-only");
    assert_eq!(CodexApprovalPolicy::OnRequest.as_str(), "on-request");
    assert_eq!(CodexSandboxMode::DangerFullAccess.next(), CodexSandboxMode::ReadOnly);
    assert_eq!(CodexApprovalPolicy::Never.next(), CodexApprovalPolicy::OnRequest);
}

#[test]
fn parse_codex_approval_policy_ok() {
    assert_eq!(parse_codex_approval_policy("on-request"), Some(CodexApprovalPolicy::OnRequest));
    assert_eq!(parse_codex_approval_policy("on-failure"), Some(CodexApprovalPolicy::OnFailure));
    assert_eq!(parse_codex_approval_policy("untrusted"), Some(CodexApprovalPolicy::Untrusted));
    assert_eq!(parse_codex_approval_policy("never"), Some(CodexApprovalPolicy::Never));
    assert_eq!(parse_codex_approval_policy("???"), None);
}

#[test]
fn translate_codex_line_ok() {
    assert!(translate_codex_line("error: unexpected argument '--ask-for-approval' found")
        .unwrap()
        .contains("option --ask-for-approval"));
    assert!(translate_codex_line("tip: to pass '--ask-for-approval' as a value, use '-- --ask-for-approval'")
        .unwrap()
        .starts_with("Astuce"));
    assert!(translate_codex_line("Usage: codex exec --json --sandbox <SANDBOX_MODE> [PROMPT]")
        .unwrap()
        .contains("Utilisation"));
    assert!(translate_codex_line("For more information, try '--help'.").unwrap().contains("--help"));
}

#[test]
fn translate_other_lines() {
    assert_eq!(translate_codex_line("   "), None);
    assert_eq!(translate_codex_line("hello"), None);
    assert_eq!(translate_codex_line("  Logged in using ChatGPT").unwrap(), "Connecte avec ChatGPT.");
    assert_eq!(translate_lowered("error: boom").unwrap(), "Erreur : commande Codex invalide. Consulte --help.");
}

#[test]
fn extract_status_code_ok() {
    assert_eq!(extract_status_code("unexpected status 401 Unauthorized"), Some(401));
    assert_eq!(extract_status_code("last status: 403 Forbidden"), Some(403));
    assert_eq!(extract_status_code("HTTP 429"), Some(429));
    assert_eq!(extract_status_code("aucun code ici"), None);
}

#[test]
fn status_from_captures_parses() {
    assert_eq!(status_from_captures(Some("502".to_string()), None), Some(502));
    assert_eq!(status_from_captures(None, Some("404".to_string())), Some(404));
    assert_eq!(status_from_captures(Some("x".to_string()), Some("404".to_string())), None);
    assert_eq!(status_from_captures(None, Some("70000".to_string())), None);
}

#[test]
fn codex_hint_for_status_ok() {
    assert!(codex_hint_for_status(401).unwrap().contains("401"));
    assert!(codex_hint_for_status(403).unwrap().contains("403"));
    assert!(codex_hint_for_status(407).unwrap().contains("proxy"));
    assert!(codex_hint_for_status(503).unwrap().starts_with("5xx"));
    assert_eq!(codex_hint_for_status(404), None);
}

#[test]
fn wrap_text_wrappe() {
    let lines = wrap_text("Texte tres long avec des espaces pour verifier le wrap", 24);
    assert!(lines.iter().all(|line| line.len() <= 24 || line.starts_with("```")));
}

#[test]
fn wrap_text_exact_lines() {
    let lines = wrap_text("Texte tres long avec des espaces pour verifier le wrap", 24);
    assert_eq!(lines, vec!["Texte tres long avec des", "espaces pour verifier le", "wrap"]);
}

#[test]
fn wrap_text_coupe_mot_long() {
    let lines = wrap_text("AAAAAAAAAAAAAAAAAAAA", 18);
    assert!(lines.iter().all(|line| line.len() <= 18 || line.starts_with("```")));
    assert_eq!(lines, vec!["AAAAAAAAAAAAAAAAAA", "AA"]);
}

#[test]
fn wrap_text_preserve_bloc_code() {
    let texte = "```python\nprint('x' * 50)\n```\nFin";
    let lines = wrap_text(texte, 20);
    assert!(lines.iter().any(|line| line.contains("print('x' * 50)")));
}

#[test]
fn wrap_text_keeps_long_fenced_line() {
    let long = "x".repeat(60);
    let texte = format!("```\n{long}\n```\n\ndone");
    let lines = wrap_text(&texte, 12);
    assert_eq!(lines, vec!["```".to_string(), long, "```".to_string(), String::new(), "done".to_string()]);
}

#[test]
fn wrap_text_small_width_uses_ten() {
    let lines = wrap_text("abcdefghijklmno", 3);
    assert_eq!(lines, vec!["abcdefghij", "klmno"]);
}

#[test]
fn hard_wrap_and_wrap_line() {
    assert_eq!(hard_wrap("abcde", 2), vec!["ab", "cd", "e"]);
    assert_eq!(hard_wrap("", 3), vec![""]);
    assert_eq!(hard_wrap("abc", 0), vec!["abc"]);
    assert_eq!(wrap_line("aa bb cc", 5), vec!["aa bb", "cc"]);
    assert_eq!(wrap_line("short", 10), vec!["short"]);
}
