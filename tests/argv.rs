use ide_usb::argv::{
    codex_base_argv, codex_exec_argv, codex_install_argv, codex_login_argv, codex_status_argv,
    first_existing, manifest_entry, node_candidates, parse_tool_list, pip_install_argv, pyinstaller_build_argv,
    pyinstaller_install_argv, search_candidates, AgentLocation,
};
use ide_usb::json::{Json, JsonField};
use ide_usb::options::CodexError;
use ide_usb::paths::{path_for_cmd, split_search_path};
use ide_usb::process::{check_argv, exit_event, line_event, windows_cmd_argv, ProcEventKind, ProcessError};

fn bare_base() -> Vec<String> {
    codex_base_argv(&AgentLocation::Bare, false, None, None)
}

fn field(key: &str, value: Json) -> JsonField {
    JsonField { key: key.to_string(), value }
}

#[test]
fn codex_login_argv_default() {
    let argv = codex_login_argv(&bare_base(), false);
    assert_eq!(argv[0], "codex");
    assert_eq!(&argv[1..], ["login"]);
}

#[test]
fn codex_login_argv_device_auth() {
    let argv = codex_login_argv(&bare_base(), true);
    assert!(argv.contains(&"--device-auth".to_string()));
}

#[test]
fn codex_status_argv_default() {
    let argv = codex_status_argv(&bare_base());
    assert_eq!(argv[0], "codex");
    assert_eq!(&argv[1..], ["login", "status"]);
}

#[test]
fn codex_exec_argv_json() {
    let extra = vec!["--model".to_string(), "gpt-5".to_string()];
    let argv = codex_exec_argv("hello", &bare_base(), true, Some(&extra)).unwrap();
    assert_eq!(argv[0], "codex");
    assert!(argv.contains(&"--json".to_string()));
    assert!(argv.contains(&"--model".to_string()));
    assert!(argv.contains(&"gpt-5".to_string()));
    assert_eq!(argv.last().unwrap(), "hello");
}

#[test]
fn codex_exec_argv_prompt_commence_par_tiret() {
    let argv = codex_exec_argv("--help", &bare_base(), true, None).unwrap();
    let pos = argv.iter().position(|arg| arg == "--").unwrap();
    assert_eq!(argv[pos + 1], "--help");
}

#[test]
fn codex_exec_argv_portable_prioritaire() {
    let loc = AgentLocation::Portable {
        node: "/tmp/usbide/tools/node/node".to_string(),
        entry: "/tmp/usbide/.usbide/codex/node_modules/@openai/codex/bin/codex.js".to_string(),
    };
    let base = codex_base_argv(&loc, false, None, None);
    let argv = codex_exec_argv("hello", &base, true, None).unwrap();
    assert_eq!(argv[0], "/tmp/usbide/tools/node/node");
    assert_eq!(argv[1], "/tmp/usbide/.usbide/codex/node_modules/@openai/codex/bin/codex.js");
    assert!(argv.contains(&"exec".to_string()));
}

#[test]
fn codex_exec_argv_windows_cmd_shim() {
    let loc = AgentLocation::OnPath("C:\\tools\\bin\\codex.cmd".to_string());
    let argv = codex_base_argv(&loc, true, Some("cmd.exe"), None);
    assert_eq!(argv[0], "cmd.exe");
    assert!(argv.contains(&"/c".to_string()));
    assert!(argv.iter().any(|arg| arg.to_lowercase().ends_with("codex.cmd")));
}

#[test]
fn cmd_shim_without_comspec_uses_cmd_exe() {
    let loc = AgentLocation::OnPath("C:\\tools\\bin\\CODEX.BAT".to_string());
    let argv = codex_base_argv(&loc, true, None, None);
    assert_eq!(argv, vec!["cmd.exe", "/d", "/s", "/c", "C:\\tools\\bin\\CODEX.BAT"]);
}

#[test]
fn ps1_shim_runs_through_powershell() {
    let loc = AgentLocation::OnPath("C:\\bin\\codex.ps1".to_string());
    let argv = codex_base_argv(&loc, true, None, None);
    assert_eq!(
        argv,
        vec!["powershell", "-NoProfile", "-ExecutionPolicy", "Bypass", "-File", "C:\\bin\\codex.ps1"]
    );
}

#[test]
fn shim_on_unix_is_bare_command() {
    let loc = AgentLocation::OnPath("/usr/bin/codex".to_string());
    assert_eq!(codex_base_argv(&loc, false, None, None), vec!["codex"]);
}

#[test]
fn codex_exec_argv_rejecte_vide() {
    assert!(codex_exec_argv(" ", &bare_base(), false, None).is_err());
}

#[test]
fn codex_exec_argv_skips_blank_extra() {
    let extra = vec!["--sandbox".to_string(), "  ".to_string(), "read-only".to_string()];
    let argv = codex_exec_argv("go", &bare_base(), false, Some(&extra)).unwrap();
    assert_eq!(argv, vec!["codex", "exec", "--sandbox", "read-only", "go"]);
}

#[test]
fn codex_install_argv_ok() {
    let argv = codex_install_argv(
        Some("/tmp/usbide/tools/node/node"),
        Some("/tmp/usbide/tools/node/node_modules/npm/bin/npm-cli.js"),
        "/tmp/usbide/.usbide/codex",
        "@openai/codex",
    )
    .unwrap();
    assert!(argv.contains(&"@openai/codex".to_string()));
    assert!(argv.contains(&"--prefix".to_string()));
    assert!(argv.contains(&"/tmp/usbide/.usbide/codex".to_string()));
    assert_eq!(argv[0], "/tmp/usbide/tools/node/node");
}

#[test]
fn codex_install_argv_rejecte_vide() {
    assert_eq!(
        codex_install_argv(Some("node"), Some("npm"), "/p", " "),
        Err(CodexError::EmptyPackage)
    );
}

#[test]
fn codex_install_argv_missing_runtime() {
    assert_eq!(codex_install_argv(None, None, "/p", "pkg"), Err(CodexError::NodeMissing));
    assert_eq!(codex_install_argv(Some("node"), None, "/p", "pkg"), Err(CodexError::NpmMissing));
}

#[test]
fn parse_tool_list_ok() {
    let tools = parse_tool_list("ruff, black  mypy, pytest ruff");
    assert_eq!(tools, vec!["ruff", "black", "mypy", "pytest"]);
}

#[test]
fn parse_tool_list_empty() {
    assert!(parse_tool_list(" , ,").is_empty());
}

#[test]
fn pyinstaller_install_argv_ok() {
    let prefix = "/tmp/usbide/.usbide/tools";
    let argv = pyinstaller_install_argv(prefix, None, false).unwrap();
    assert!(argv.contains(&"--prefix".to_string()));
    assert!(argv.contains(&prefix.to_string()));
    assert_eq!(argv.last().unwrap(), "pyinstaller");
}

#[test]
fn pip_install_argv_ok() {
    let prefix = "/tmp/usbide/.usbide/tools";
    let argv = pip_install_argv(prefix, &vec!["ruff".to_string(), "black".to_string()], None, false).unwrap();
    assert!(argv.contains(&"--prefix".to_string()));
    assert!(argv.contains(&prefix.to_string()));
    assert!(argv.contains(&"ruff".to_string()));
    assert!(argv.contains(&"black".to_string()));
}

#[test]
fn pip_install_argv_offline() {
    let prefix = "/tmp/usbide/.usbide/tools";
    let wheelhouse = "/tmp/usbide/tools/wheels";
    let argv = pip_install_argv(prefix, &vec!["ruff".to_string()], Some(wheelhouse), true).unwrap();
    assert!(argv.contains(&"--no-index".to_string()));
    assert!(argv.contains(&"--find-links".to_string()));
    assert!(argv.contains(&wheelhouse.to_string()));
}

#[test]
fn pip_install_argv_exact_order() {
    let argv = pip_install_argv("/p", &vec![" ruff ".to_string(), "".to_string()], None, true).unwrap();
    assert_eq!(
        argv,
        vec!["python", "-m", "pip", "install", "--upgrade", "--prefix", "/p", "--no-index", "ruff"]
    );
}

#[test]
fn pip_install_argv_rejecte_vide() {
    let prefix = "/tmp/usbide/.usbide/tools";
    assert!(pip_install_argv(prefix, &vec![], None, false).is_err());
    assert_eq!(
        pip_install_argv(prefix, &vec!["  ".to_string()], None, false),
        Err(CodexError::EmptyPackages)
    );
}

#[test]
fn pyinstaller_build_argv_ok() {
    let script = "/tmp/usbide/app.py";
    let dist_dir = "/tmp/usbide/dist";
    let argv = pyinstaller_build_argv(script, dist_dir, true, None, None).unwrap();
    assert!(argv.contains(&script.to_string()));
    assert!(argv.contains(&dist_dir.to_string()));
    assert!(argv.contains(&"--onefile".to_string()));
    assert!(!argv.contains(&"--onedir".to_string()));
}

#[test]
fn pyinstaller_build_argv_onedir_par_defaut() {
    let argv = pyinstaller_build_argv("/tmp/usbide/app.py", "/tmp/usbide/dist", false, None, None).unwrap();
    assert!(argv.contains(&"--onedir".to_string()));
}

#[test]
fn pyinstaller_build_argv_work_spec() {
    let work_dir = "/tmp/usbide/build";
    let spec_dir = "/tmp/usbide";
    let argv = pyinstaller_build_argv("/tmp/usbide/app.py", "/tmp/usbide/dist", false, Some(work_dir), Some(spec_dir))
        .unwrap();
    assert!(argv.contains(&"--workpath".to_string()));
    assert!(argv.contains(&work_dir.to_string()));
    assert!(argv.contains(&"--specpath".to_string()));
    assert!(argv.contains(&spec_dir.to_string()));
}

#[test]
fn pyinstaller_build_argv_rejecte_vide() {
    assert!(pyinstaller_build_argv("", "/tmp/usbide/dist", false, None, None).is_err());
}

#[test]
fn locate_on_path_first_existing_wins() {
    let cands = search_candidates("tool", Some("/a:/b"), false, None);
    assert_eq!(cands, vec!["/a/tool", "/b/tool"]);
    assert_eq!(first_existing(&cands, &vec![true, true]), Some("/a/tool".to_string()));
    assert_eq!(first_existing(&cands, &vec![false, true]), Some("/b/tool".to_string()));
    assert_eq!(first_existing(&cands, &vec![false, false]), None);
}

#[test]
fn search_candidates_with_separator_and_blank() {
    assert_eq!(search_candidates(" ./run.sh ", Some("/a"), false, None), vec!["./run.sh"]);
    assert!(search_candidates("   ", Some("/a"), false, None).is_empty());
}

#[test]
fn search_candidates_windows_extensions() {
    let cands = search_candidates("codex", Some("C:\\x;C:\\y\\"), true, Some(".EXE;;.CMD"));
    assert_eq!(cands, vec!["C:\\x\\codex.EXE", "C:\\x\\codex.CMD", "C:\\y\\codex.EXE", "C:\\y\\codex.CMD"]);
    let named = search_candidates("codex.cmd", Some("C:\\x"), true, None);
    assert_eq!(named, vec!["C:\\x\\codex.cmd"]);
}

#[test]
fn split_search_path_quotes_on_windows() {
    assert_eq!(split_search_path("\"C:\\a;b\";D:\\", true), vec!["C:\\a;b", "D:\\"]);
    assert_eq!(split_search_path("/a::/b", false), vec!["/a", "", "/b"]);
}

#[test]
fn path_for_cmd_strips_extended_prefixes() {
    assert_eq!(path_for_cmd("\\\\?\\C:\\x", true), "C:\\x");
    assert_eq!(path_for_cmd("\\\\?\\UNC\\srv\\share", true), "\\\\srv\\share");
    assert_eq!(path_for_cmd("\\\\?\\C:\\x", false), "\\\\?\\C:\\x");
}

#[test]
fn codex_entrypoint_js_resout() {
    let manifest = Json::Object(vec![field(
        "bin",
        Json::Object(vec![field("codex", Json::Str("bin/codex.js".to_string()))]),
    )]);
    assert_eq!(manifest_entry(&manifest), Some("bin/codex.js".to_string()));
    let single = Json::Object(vec![field("bin", Json::Str("cli.js".to_string()))]);
    assert_eq!(manifest_entry(&single), Some("cli.js".to_string()));
    let other = Json::Object(vec![field(
        "bin",
        Json::Object(vec![field("x", Json::Null), field("y", Json::Str("y.js".to_string()))]),
    )]);
    assert_eq!(manifest_entry(&other), Some("y.js".to_string()));
    assert_eq!(manifest_entry(&Json::Object(vec![])), None);
}

#[test]
fn empty_argv_is_refused() {
    assert!(matches!(check_argv(&vec![]), Err(ProcessError::EmptyArgv)));
    assert!(check_argv(&vec!["ls".to_string()]).is_ok());
}

#[test]
fn process_events_text() {
    let e = line_event("hello\r\n");
    assert_eq!(e.kind, ProcEventKind::Line);
    assert_eq!(e.text, "hello");
    assert_eq!(exit_event(Some(3)).text, "exit 3");
    assert_eq!(exit_event(None).text, "exit -1");
    assert_eq!(exit_event(Some(-12)).text, "exit -12");
    assert_eq!(windows_cmd_argv(None, "dir"), vec!["cmd.exe", "/d", "/s", "/c", "dir"]);
}

#[test]
fn pyinstaller_onefile_exact() {
    let argv = pyinstaller_build_argv("/w/app.py", "/w/dist", true, None, None).unwrap();
    assert_eq!(argv, vec!["pyinstaller", "--onefile", "--noconfirm", "--distpath", "/w/dist", "/w/app.py"]);
}

#[test]
fn argv_vide_declenche_erreur() {
    let res = check_argv(&vec![]);
    assert!(matches!(res, Err(ProcessError::EmptyArgv)));
}

#[test]
fn node_executable_prefers_portable() {
    let unix = node_candidates("/w", false, Some("/usr/bin/node"));
    assert_eq!(unix, vec!["/w/tools/node/bin/node", "/w/tools/node/node", "/usr/bin/node"]);
    assert_eq!(first_existing(&unix, &vec![false, true, true]), Some("/w/tools/node/node".to_string()));
    let win = node_candidates("C:\\w", true, None);
    assert_eq!(win, vec!["C:\\w\\tools\\node\\node.exe"]);
}
