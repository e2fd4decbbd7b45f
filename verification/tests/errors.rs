use omakure::errors::{AppError, EnvironmentError, SchemaError, ScriptError};

#[test]
fn test_app_error_display() {
    let err = AppError::Schema { source: SchemaError::BlockNotFound };
    assert_eq!(
        err.message(),
        "Schema error: Schema block not found in script"
    );
}

#[test]
fn test_schema_error_display() {
    let err = SchemaError::InvalidChoice {
        choices: "dev, prod".to_string(),
    };
    assert_eq!(err.message(), "Allowed values: dev, prod");
}

#[test]
fn test_script_error_display() {
    let err = ScriptError::DependencyMissing {
        name: "bash".to_string(),
        hint: "Install bash".to_string(),
    };
    assert_eq!(err.message(), "bash not found in PATH. Install bash");
}

#[test]
fn test_app_error_from_string() {
    let err: AppError = String::from("something went wrong").into();
    assert_eq!(err.message(), "something went wrong");
}

#[test]
fn test_missing_prefix_message() {
    let err = SchemaError::MissingCommentPrefix { line: 12 };
    assert_eq!(
        err.message(),
        "Schema block line missing comment prefix at line 12"
    );
}

#[test]
fn test_environment_error_messages() {
    let err = EnvironmentError::NotFound { name: "dev".to_string() };
    assert_eq!(err.message(), "Environment not found: dev");
    let err = EnvironmentError::ReadFailed { detail: "denied".to_string() };
    assert_eq!(err.message(), "Failed to read environment: denied");
}

#[test]
fn test_invalid_json_message() {
    let err = SchemaError::InvalidJson { detail: "bad token".to_string() };
    assert_eq!(err.message(), "Invalid JSON in schema: bad token");
}

#[test]
fn test_script_error_messages() {
    let err = ScriptError::UnsupportedType;
    assert_eq!(err.message(), "Unsupported script type");
    let err = ScriptError::NotFound { path: "x.sh".to_string() };
    assert_eq!(err.message(), "Script not found: x.sh");
}
