use omakure::runtime::{ps_quote, script_kind, script_extensions, ScriptKind};

#[test]
fn test_ps_quote_simple() {
    assert_eq!(ps_quote("hello"), "'hello'");
}

#[test]
fn test_ps_quote_with_single_quote() {
    assert_eq!(ps_quote("it's"), "'it''s'");
}

#[test]
fn test_ps_quote_empty() {
    assert_eq!(ps_quote(""), "''");
}

#[test]
fn test_script_kind_by_extension() {
    assert_eq!(script_kind("a/b/run.bash"), Some(ScriptKind::Bash));
    assert_eq!(script_kind("run.sh"), Some(ScriptKind::Bash));
    assert_eq!(script_kind("run.PS1"), Some(ScriptKind::PowerShell));
    assert_eq!(script_kind("x/run.py"), Some(ScriptKind::Python));
    assert_eq!(script_kind("run.txt"), None);
    assert_eq!(script_kind("no_extension"), None);
    assert_eq!(script_kind("dir.d/.bashrc"), None);
}

#[test]
fn test_script_extensions_list() {
    assert_eq!(script_extensions(), vec!["bash", "sh", "ps1", "py"]);
}

#[test]
fn test_infer_name_from_url() {
    assert_eq!(
        omakure::cli::infer_name_from_url("https://example.com/org/repo.git"),
        "repo"
    );
    assert_eq!(
        omakure::cli::infer_name_from_url("https://example.com/org/repo/"),
        "repo"
    );
}

#[test]
fn test_wants_help() {
    let args = vec!["run".to_string(), "--help".to_string()];
    assert!(omakure::cli::wants_help(&args));
    let args2 = vec!["run".to_string()];
    assert!(!omakure::cli::wants_help(&args2));
}

#[test]
fn test_parse_args_reject_extras() {
    let r = omakure::cli::list::parse_args(&vec!["x".to_string()], "/ws".to_string());
    assert_eq!(r.unwrap_err(), "scripts does not accept arguments");
    let ok = omakure::cli::doctor::parse_args(&vec![], "/ws".to_string()).unwrap();
    assert_eq!(ok.scripts_dir, "/ws");
}

#[test]
fn test_command_for_script() {
    let (program, argv) = omakure::runtime::command_for_script("jobs/a.sh").unwrap();
    assert_eq!(program, "bash");
    assert_eq!(argv, vec!["jobs/a.sh"]);
    let (program, argv) = omakure::runtime::command_for_script("x.ps1").unwrap();
    assert_eq!(program, "pwsh");
    assert_eq!(argv, vec!["-NoProfile", "-File", "x.ps1"]);
    assert!(omakure::runtime::command_for_script("notes.txt").is_err());
}
