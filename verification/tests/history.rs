use omakure::history::{
    format_output, format_timestamp, history_file_name, safe_slug, sort_entries_desc,
    HistoryEntry,
};

fn entry_with_timestamp(ts: i64) -> HistoryEntry {
    HistoryEntry {
        timestamp: ts,
        script: "test.bash".to_string(),
        args: vec![],
        success: true,
        exit_code: Some(0),
        stdout: String::new(),
        stderr: String::new(),
        error: None,
    }
}

#[test]
fn test_format_timestamp() {
    // 2024-01-15 12:30 UTC
    let ts = 1705321800000_i64;
    let formatted = format_timestamp(ts);
    assert_eq!(formatted, "2024-01-15 12:30");
}

#[test]
fn test_format_timestamp_zero() {
    let formatted = format_timestamp(0);
    assert_eq!(formatted, "1970-01-01 00:00");
}

#[test]
fn test_format_timestamp_negative() {
    let formatted = format_timestamp(-1000);
    assert_eq!(formatted, "1970-01-01 00:00");
}

#[test]
fn test_safe_slug_simple() {
    assert_eq!(safe_slug("hello"), "hello");
    assert_eq!(safe_slug("Hello World"), "hello_world");
}

#[test]
fn test_safe_slug_special_chars() {
    assert_eq!(safe_slug("my-script.bash"), "my_script_bash");
    assert_eq!(safe_slug("path/to/script"), "path_to_script");
}

#[test]
fn test_safe_slug_consecutive_special() {
    assert_eq!(safe_slug("a--b__c"), "a_b_c");
}

#[test]
fn test_safe_slug_empty() {
    assert_eq!(safe_slug(""), "run");
    assert_eq!(safe_slug("---"), "run");
}

#[test]
fn test_safe_slug_truncation() {
    let long_name = "a".repeat(100);
    let slug = safe_slug(&long_name);
    assert!(slug.len() <= 64);
}

#[test]
fn test_format_output_success() {
    let entry = HistoryEntry {
        timestamp: 0,
        script: "test.bash".to_string(),
        args: vec![],
        success: true,
        exit_code: Some(0),
        stdout: "output here\n".to_string(),
        stderr: "".to_string(),
        error: None,
    };
    let output = format_output(&entry);
    assert!(output.contains("STDOUT:"));
    assert!(output.contains("output here"));
}

#[test]
fn test_format_output_with_error() {
    let entry = HistoryEntry {
        timestamp: 0,
        script: "test.bash".to_string(),
        args: vec![],
        success: false,
        exit_code: None,
        stdout: "".to_string(),
        stderr: "".to_string(),
        error: Some("Script failed to run".to_string()),
    };
    let output = format_output(&entry);
    assert_eq!(output, "Script failed to run");
}

#[test]
fn test_format_output_both_streams() {
    let entry = HistoryEntry {
        timestamp: 0,
        script: "test.bash".to_string(),
        args: vec![],
        success: false,
        exit_code: Some(1),
        stdout: "out\n".to_string(),
        stderr: "err\n".to_string(),
        error: None,
    };
    let output = format_output(&entry);
    assert_eq!(output, "STDOUT:\nout\n\nSTDERR:\nerr");
}

#[test]
fn test_history_ordering() {
    let entries = vec![
        entry_with_timestamp(100),
        entry_with_timestamp(300),
        entry_with_timestamp(200),
    ];
    let sorted = sort_entries_desc(entries);
    let stamps: Vec<i64> = sorted.iter().map(|e| e.timestamp).collect();
    assert_eq!(stamps, vec![300, 200, 100]);
}

#[test]
fn test_history_file_name_shape() {
    let entry = HistoryEntry {
        timestamp: 1700000000123,
        script: "My Script.bash".to_string(),
        args: vec![],
        success: true,
        exit_code: Some(0),
        stdout: String::new(),
        stderr: String::new(),
        error: None,
    };
    let name = history_file_name(&entry, 4242);
    assert_eq!(name, "1700000000123-4242-my_script_bash.json");
}

#[test]
fn test_success_and_error_entries() {
    let output = omakure::ports::ScriptRunOutput {
        stdout: "hi".to_string(),
        stderr: "".to_string(),
        exit_code: Some(0),
        success: true,
    };
    let ok = omakure::history::success_entry(5, "a.sh".to_string(), vec!["--x".to_string()], output);
    assert!(ok.success);
    assert_eq!(ok.stdout, "hi");
    assert!(ok.error.is_none());

    let bad = omakure::history::error_entry(6, "a.sh".to_string(), vec![], "boom".to_string());
    assert!(!bad.success);
    assert_eq!(bad.error.as_deref(), Some("boom"));
    assert_eq!(bad.exit_code, None);
}

#[test]
fn test_script_path_relative() {
    assert_eq!(omakure::history::script_path("/ws", "/ws/a/b.sh"), "a/b.sh");
    assert_eq!(omakure::history::script_path("/ws", "/other/b.sh"), "/other/b.sh");
    assert_eq!(omakure::history::script_path("/ws", "/ws"), "");
}
