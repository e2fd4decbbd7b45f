use omakure::controller::{App, ExecutionStatus, Screen, SearchStatus};
use omakure::ports::{WorkspaceEntry, WorkspaceEntryKind};
use omakure::schema::{Field, Schema};
use omakure::select::{move_index, wrap_index};

fn entries(n: usize) -> Vec<WorkspaceEntry> {
    (0..n)
        .map(|i| WorkspaceEntry {
            path: format!("/ws/script{}.sh", i),
            kind: WorkspaceEntryKind::Script,
        })
        .collect()
}

fn fresh_app(n: usize) -> App {
    App::new("/ws".to_string(), entries(n), vec![], SearchStatus::Idle)
}

fn required_field(name: &str) -> Field {
    Field {
        name: name.to_string(),
        prompt: None,
        kind: "string".to_string(),
        order: 1,
        required: Some(true),
        default: None,
        choices: None,
        arg: None,
    }
}

#[test]
fn test_selection_clamps_to_bounds() {
    let mut app = fresh_app(3);
    app.move_selection(10);
    assert_eq!(app.navigation.selection, 2);
    app.move_selection(-10);
    assert_eq!(app.navigation.selection, 0);
    app.move_selection(1);
    assert_eq!(app.navigation.selection, 1);
}

#[test]
fn test_selection_empty_list_is_noop() {
    let mut app = fresh_app(0);
    app.move_selection(5);
    assert_eq!(app.navigation.selection, 0);
    app.move_selection(-5);
    assert_eq!(app.navigation.selection, 0);
}

#[test]
fn test_move_index_policy() {
    assert_eq!(move_index(5, 4, 3), 4);
    assert_eq!(move_index(5, 0, -1), 0);
    assert_eq!(move_index(0, 0, 7), 0);
    assert_eq!(wrap_index(3, 2, 1), 0);
    assert_eq!(wrap_index(3, 0, -1), 2);
}

#[test]
fn test_env_screen_returns_to_invoker() {
    let mut app = fresh_app(1);
    app.enter_search(SearchStatus::Idle);
    assert_eq!(app.screen, Screen::Search);
    app.enter_envs();
    assert_eq!(app.screen, Screen::Environments);
    app.exit_envs();
    assert_eq!(app.screen, Screen::Search);
}

#[test]
fn test_schema_with_no_fields_skips_to_run() {
    let mut app = fresh_app(1);
    let schema = Schema {
        name: "s".to_string(),
        description: None,
        tags: None,
        fields: vec![],
        outputs: None,
        queue: None,
    };
    app.schema_loaded("/ws/script0.sh".to_string(), schema);
    let queued = app.take_result().expect("a run should be queued");
    assert_eq!(queued.0, "/ws/script0.sh");
    assert!(queued.1.is_empty());
}

#[test]
fn test_required_blank_field_blocks_submission() {
    let mut app = fresh_app(1);
    let schema = Schema {
        name: "s".to_string(),
        description: None,
        tags: None,
        fields: vec![required_field("target")],
        outputs: None,
        queue: None,
    };
    app.schema_loaded("/ws/script0.sh".to_string(), schema);
    assert_eq!(app.screen, Screen::FieldInput);
    app.submit_form();
    assert_eq!(app.screen, Screen::FieldInput);
    assert_eq!(app.field_input.field_index, 0);
    let err = app.field_input.error.clone().expect("an error is attached");
    assert_eq!(err, "target: Value required");
    assert!(app.take_result().is_none());
    assert!(app.history.entries.is_empty());
}

#[test]
fn test_successful_submission_builds_args() {
    let mut app = fresh_app(1);
    let mut count = required_field("count");
    count.kind = "number".to_string();
    count.order = 2;
    let target = required_field("target");
    let schema = Schema {
        name: "s".to_string(),
        description: None,
        tags: None,
        fields: vec![count, target],
        outputs: None,
        queue: None,
    };
    app.schema_loaded("/ws/script0.sh".to_string(), schema);
    // fields come up in declared order: target (1) before count (2)
    for c in "prod".chars() {
        app.append_field_char(c);
    }
    app.move_field_selection(1);
    for c in "3".chars() {
        app.append_field_char(c);
    }
    app.submit_form();
    let (script, args) = app.take_result().expect("the run should be queued");
    assert_eq!(script, "/ws/script0.sh");
    assert_eq!(args, vec!["--target", "prod", "--count", "3"]);
}

#[test]
fn test_run_finished_prepends_history() {
    let mut app = fresh_app(1);
    let entry = omakure::history::error_entry(9, "a.sh".to_string(), vec![], "x".to_string());
    app.run_finished(entry);
    assert_eq!(app.screen, Screen::RunResult);
    assert_eq!(app.history.entries.len(), 1);
    assert_eq!(app.history.selection, 0);
    let entry2 = omakure::history::error_entry(10, "b.sh".to_string(), vec![], "y".to_string());
    app.add_history_entry(entry2);
    assert_eq!(app.history.entries[0].timestamp, 10);
    assert_eq!(app.history.selection, 0);
}

#[test]
fn test_field_inputs_seeded_from_environment() {
    let mut app = fresh_app(1);
    app.set_env_config(
        Some(omakure::envfile::EnvironmentConfig {
            envs_dir: "/ws/envs".to_string(),
            active: Some("dev".to_string()),
            defaults: vec![("target".to_string(), "dev-box".to_string())],
        }),
        vec![],
        None,
    );
    let schema = Schema {
        name: "s".to_string(),
        description: None,
        tags: None,
        fields: vec![required_field("Target")],
        outputs: None,
        queue: None,
    };
    app.schema_loaded("/ws/script0.sh".to_string(), schema);
    app.submit_form();
    let (_, args) = app.take_result().expect("the seeded value should pass");
    assert_eq!(args, vec!["--Target", "dev-box"]);
}

#[test]
fn test_schema_to_preview_projects_fields() {
    let schema = Schema {
        name: "s".to_string(),
        description: Some("d".to_string()),
        tags: Some(vec!["t1".to_string()]),
        fields: vec![required_field("target")],
        outputs: None,
        queue: None,
    };
    let preview = omakure::controller::schema_to_preview(&schema);
    assert_eq!(preview.name, "s");
    assert_eq!(preview.tags, vec!["t1"]);
    assert_eq!(preview.fields.len(), 1);
    assert!(preview.fields[0].required);
    assert!(preview.queue.is_none());
}

#[test]
fn test_execution_status_labels() {
    let ok = omakure::history::HistoryEntry {
        timestamp: 0,
        script: "a.sh".to_string(),
        args: vec![],
        success: true,
        exit_code: Some(0),
        stdout: String::new(),
        stderr: String::new(),
        error: None,
    };
    assert_eq!(ExecutionStatus::from_history(&ok), ExecutionStatus::Success);
    let mut failed = ok;
    failed.success = false;
    failed.exit_code = Some(3);
    assert_eq!(
        ExecutionStatus::from_history(&failed),
        ExecutionStatus::Failed(Some(3))
    );
    failed.error = Some("boom".to_string());
    assert_eq!(ExecutionStatus::from_history(&failed), ExecutionStatus::Error);
}

#[test]
fn test_selection_stays_in_bounds() {
    let mut app = fresh_app(4);
    let deltas: [isize; 7] = [3, -1, 100, -100, 2, 2, -3];
    for d in deltas {
        app.move_selection(d);
        assert!(app.navigation.selection < 4);
    }
}

#[test]
fn test_field_error_cleared_on_edit() {
    let mut app = fresh_app(1);
    let schema = Schema {
        name: "s".to_string(),
        description: None,
        tags: None,
        fields: vec![required_field("target")],
        outputs: None,
        queue: None,
    };
    app.schema_loaded("/ws/script0.sh".to_string(), schema);
    app.submit_form();
    assert!(app.field_input.error.is_some());
    app.append_field_char('x');
    assert!(app.field_input.error.is_none());
}

#[test]
fn test_equal_orders_keep_declared_positions() {
    let mut app = fresh_app(1);
    let mut first = required_field("beta");
    first.required = Some(false);
    let mut second = required_field("alpha");
    second.required = Some(false);
    let mut third = required_field("front");
    third.required = Some(false);
    third.order = 0;
    let schema = Schema {
        name: "s".to_string(),
        description: None,
        tags: None,
        fields: vec![first, second, third],
        outputs: None,
        queue: None,
    };
    app.schema_loaded("/ws/script0.sh".to_string(), schema);
    let names: Vec<String> = app.field_input.fields.iter().map(|f| f.name.clone()).collect();
    assert_eq!(names, vec!["front", "beta", "alpha"]);
}

#[test]
fn test_env_cursor_follows_active() {
    let mut app = fresh_app(1);
    let files = |names: &[&str]| {
        names
            .iter()
            .map(|n| omakure::envfile::EnvFile { name: n.to_string() })
            .collect::<Vec<_>>()
    };
    let config = |active: Option<&str>| {
        Some(omakure::envfile::EnvironmentConfig {
            envs_dir: "/ws/.envs".to_string(),
            active: active.map(|a| a.to_string()),
            defaults: vec![],
        })
    };
    app.set_env_config(config(Some("prod")), files(&["dev", "prod"]), None);
    assert_eq!(app.environment.selection, 1);
    app.set_env_config(config(Some("missing")), files(&["dev", "prod"]), None);
    assert_eq!(app.environment.selection, 0);
    app.move_env_selection(1);
    app.set_env_config(config(None), files(&["dev"]), None);
    assert_eq!(app.environment.selection, 0);
}

#[test]
fn test_empty_lists_leave_state_untouched() {
    let mut app = fresh_app(1);
    app.scroll_run_output(3);
    app.move_history_selection(1);
    assert_eq!(app.run_output_scroll, 3);
    app.move_field_selection(1);
    assert!(app.field_input.error.is_none());
}

#[test]
fn test_queue_preview_carries_values() {
    let schema = Schema {
        name: "s".to_string(),
        description: None,
        tags: None,
        fields: vec![],
        outputs: None,
        queue: Some(omakure::schema::QueueSpec {
            matrix: Some(omakure::schema::MatrixSpec {
                values: vec![omakure::schema::MatrixValue {
                    name: "env".to_string(),
                    values: vec!["dev".to_string(), "prod".to_string()],
                }],
            }),
            cases: None,
        }),
    };
    let preview = omakure::controller::schema_to_preview(&schema);
    match preview.queue.expect("a queue is previewed") {
        omakure::controller::QueuePreview::Matrix { values } => {
            assert_eq!(values.len(), 1);
            assert_eq!(values[0].name, "env");
            assert_eq!(values[0].values, vec!["dev", "prod"]);
        }
        other => panic!("unexpected preview: {:?}", other),
    }
}
