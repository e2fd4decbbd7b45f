use omakure::errors::SchemaError;
use omakure::schema::Field;
use omakure::validate::normalize_input;

fn make_field(name: &str, kind: &str, required: bool) -> Field {
    Field {
        name: name.to_string(),
        prompt: None,
        kind: kind.to_string(),
        order: 1,
        required: Some(required),
        default: None,
        choices: None,
        arg: None,
    }
}

#[test]
fn test_normalize_input_string() {
    let field = make_field("name", "string", false);
    let result = normalize_input(&field, "  hello world  ").unwrap();
    assert_eq!(result, Some("hello world".to_string()));
}

#[test]
fn test_normalize_input_empty_optional() {
    let field = make_field("name", "string", false);
    let result = normalize_input(&field, "").unwrap();
    assert_eq!(result, None);
}

#[test]
fn test_normalize_input_empty_required() {
    let field = make_field("name", "string", true);
    let result = normalize_input(&field, "");
    assert!(matches!(result.unwrap_err(), SchemaError::ValueRequired));
}

#[test]
fn test_normalize_input_with_default() {
    let mut field = make_field("name", "string", false);
    field.default = Some("default_value".to_string());
    let result = normalize_input(&field, "").unwrap();
    assert_eq!(result, Some("default_value".to_string()));
}

#[test]
fn test_normalize_input_with_default_ignores_required() {
    let mut field = make_field("name", "string", true);
    field.default = Some("fallback".to_string());
    let result = normalize_input(&field, "").unwrap();
    assert_eq!(result, Some("fallback".to_string()));
}

#[test]
fn test_normalize_input_number_valid() {
    let field = make_field("count", "number", false);
    let result = normalize_input(&field, "42").unwrap();
    assert_eq!(result, Some("42".to_string()));

    let result = normalize_input(&field, "3.14").unwrap();
    assert_eq!(result, Some("3.14".to_string()));
}

#[test]
fn test_normalize_input_number_invalid() {
    let field = make_field("count", "number", false);
    let result = normalize_input(&field, "not a number");
    assert!(matches!(result.unwrap_err(), SchemaError::InvalidNumber));
}

#[test]
fn test_normalize_input_number_forms() {
    let field = make_field("count", "number", false);
    assert_eq!(normalize_input(&field, "-1e9").unwrap(), Some("-1e9".to_string()));
    assert_eq!(normalize_input(&field, ".5").unwrap(), Some(".5".to_string()));
    assert_eq!(normalize_input(&field, "7.").unwrap(), Some("7.".to_string()));
    assert_eq!(normalize_input(&field, "+inf").unwrap(), Some("+inf".to_string()));
    assert_eq!(normalize_input(&field, "NaN").unwrap(), Some("NaN".to_string()));
    assert!(matches!(
        normalize_input(&field, "1.2.3").unwrap_err(),
        SchemaError::InvalidNumber
    ));
    assert!(matches!(
        normalize_input(&field, "e5").unwrap_err(),
        SchemaError::InvalidNumber
    ));
    assert!(matches!(
        normalize_input(&field, ".").unwrap_err(),
        SchemaError::InvalidNumber
    ));
}

#[test]
fn test_normalize_input_bool_valid() {
    let field = make_field("flag", "bool", false);

    assert_eq!(
        normalize_input(&field, "true").unwrap(),
        Some("true".to_string())
    );
    assert_eq!(
        normalize_input(&field, "yes").unwrap(),
        Some("true".to_string())
    );
    assert_eq!(
        normalize_input(&field, "Y").unwrap(),
        Some("true".to_string())
    );
    assert_eq!(
        normalize_input(&field, "1").unwrap(),
        Some("true".to_string())
    );

    assert_eq!(
        normalize_input(&field, "false").unwrap(),
        Some("false".to_string())
    );
    assert_eq!(
        normalize_input(&field, "no").unwrap(),
        Some("false".to_string())
    );
    assert_eq!(
        normalize_input(&field, "N").unwrap(),
        Some("false".to_string())
    );
    assert_eq!(
        normalize_input(&field, "0").unwrap(),
        Some("false".to_string())
    );
}

#[test]
fn test_normalize_input_bool_canonical_forms() {
    let field = make_field("flag", "boolean", false);
    assert_eq!(normalize_input(&field, "T").unwrap(), Some("true".to_string()));
    assert_eq!(normalize_input(&field, "YES").unwrap(), Some("true".to_string()));
    assert_eq!(normalize_input(&field, "y").unwrap(), Some("true".to_string()));
    assert_eq!(normalize_input(&field, "F").unwrap(), Some("false".to_string()));
}

#[test]
fn test_normalize_input_bool_invalid() {
    let field = make_field("flag", "bool", false);
    let result = normalize_input(&field, "maybe");
    assert!(matches!(result.unwrap_err(), SchemaError::InvalidBoolean));
}

#[test]
fn test_normalize_input_with_choices() {
    let mut field = make_field("env", "string", false);
    field.choices = Some(vec!["dev".to_string(), "prod".to_string()]);

    let result = normalize_input(&field, "dev").unwrap();
    assert_eq!(result, Some("dev".to_string()));

    let result = normalize_input(&field, "staging");
    assert!(matches!(
        result.unwrap_err(),
        SchemaError::InvalidChoice { .. }
    ));
}

#[test]
fn test_normalize_input_choice_message_lists_choices() {
    let mut field = make_field("env", "string", false);
    field.choices = Some(vec!["dev".to_string(), "prod".to_string()]);
    match normalize_input(&field, "staging").unwrap_err() {
        SchemaError::InvalidChoice { choices } => assert_eq!(choices, "dev, prod"),
        other => panic!("unexpected error: {:?}", other),
    }
}

#[test]
fn test_parse_bool_direct() {
    assert_eq!(omakure::validate::parse_bool("  True "), Some(true));
    assert_eq!(omakure::validate::parse_bool("0"), Some(false));
    assert_eq!(omakure::validate::parse_bool("maybe"), None);
}
