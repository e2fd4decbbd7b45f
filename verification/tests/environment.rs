use omakure::envfile::{
    env_files_from_names, is_sensitive_key, parse_active_name, parse_env_defaults,
    parse_env_preview, strip_quotes,
};

#[test]
fn test_parse_env_preview_basic() {
    let contents = "# comment\nexport NAME=\"value\"\nEMPTY=\nPASSWORD=hunter2\n";
    let preview = parse_env_preview(contents);
    assert_eq!(preview.len(), 3);
    assert_eq!(preview[0], ("NAME".to_string(), "value".to_string()));
    assert_eq!(preview[1], ("EMPTY".to_string(), "".to_string()));
    assert_eq!(preview[2], ("PASSWORD".to_string(), "***".to_string()));
}

#[test]
fn test_parse_env_defaults_lowercases_and_skips_empty() {
    let contents = "; note\nTarget='prod'\nEMPTY=\nexport COUNT=3\n";
    let defaults = parse_env_defaults(contents);
    assert_eq!(defaults.len(), 2);
    assert_eq!(defaults[0], ("target".to_string(), "prod".to_string()));
    assert_eq!(defaults[1], ("count".to_string(), "3".to_string()));
}

#[test]
fn test_parse_env_defaults_last_wins() {
    let contents = "A=1\nA=2\n";
    let defaults = parse_env_defaults(contents);
    assert_eq!(defaults, vec![("a".to_string(), "1".to_string()), ("a".to_string(), "2".to_string())]);
}

#[test]
fn test_strip_quotes() {
    assert_eq!(strip_quotes("\"hi\""), "hi");
    assert_eq!(strip_quotes("'hi'"), "hi");
    assert_eq!(strip_quotes("  plain  "), "plain");
    assert_eq!(strip_quotes("\"unbalanced'"), "\"unbalanced'");
}

#[test]
fn test_is_sensitive_key() {
    assert!(is_sensitive_key("API_TOKEN"));
    assert!(is_sensitive_key("password"));
    assert!(is_sensitive_key("ssh_private_key"));
    assert!(!is_sensitive_key("target"));
}

#[test]
fn test_parse_active_name() {
    assert_eq!(parse_active_name("# note\n\nstaging\n"), Some("staging".to_string()));
    assert_eq!(parse_active_name("# only comments\n"), None);
}

#[test]
fn test_env_files_from_names_sorts_and_filters() {
    let names = vec![
        "prod".to_string(),
        "active".to_string(),
        "dev".to_string(),
        "staging".to_string(),
    ];
    let files = env_files_from_names(names);
    let listed: Vec<String> = files.iter().map(|f| f.name.clone()).collect();
    assert_eq!(listed, vec!["dev".to_string(), "prod".to_string(), "staging".to_string()]);
}
