use omakure::decode::parse_schema;
use omakure::errors::SchemaError;
use omakure::extract::extract_schema_block;

fn make_schema_json() -> String {
    r#"{
  "Name": "test_script",
  "Description": "A test script",
  "Fields": []
}"#
    .to_string()
}

fn comment_block(prefix: &str, json: &str) -> String {
    json.lines()
        .map(|line| format!("{} {}", prefix, line))
        .collect::<Vec<String>>()
        .join("\n")
}

fn prefixes(list: &[&str]) -> Vec<String> {
    list.iter().map(|p| p.to_string()).collect()
}

#[test]
fn test_parse_schema_valid() {
    let output = r#"Some output before
{
  "Name": "test_script",
  "Description": "A test script",
  "Fields": []
}
Some output after"#;
    let schema = parse_schema(output).unwrap();
    assert_eq!(schema.name, "test_script");
    assert_eq!(schema.description, Some("A test script".to_string()));
    assert!(schema.fields.is_empty());
}

#[test]
fn test_parse_schema_with_fields() {
    let output = r#"{
  "Name": "my_script",
  "Fields": [
    {
      "Name": "target",
      "Type": "string",
      "Order": 1,
      "Required": true
    }
  ]
}"#;
    let schema = parse_schema(output).unwrap();
    assert_eq!(schema.name, "my_script");
    assert_eq!(schema.fields.len(), 1);
    assert_eq!(schema.fields[0].name, "target");
    assert_eq!(schema.fields[0].required, Some(true));
}

#[test]
fn test_parse_schema_not_found() {
    let output = "No JSON here";
    let result = parse_schema(output);
    assert!(matches!(result.unwrap_err(), SchemaError::JsonNotFound));
}

#[test]
fn test_parse_schema_skips_bad_objects() {
    let output = r#"{"not": "a schema"} and then {"Name": "real", "Fields": []}"#;
    let schema = parse_schema(output).unwrap();
    assert_eq!(schema.name, "real");
}

#[test]
fn test_parse_schema_rejects_bad_order() {
    let output = r#"{"Name": "x", "Fields": [{"Name": "a", "Type": "string", "Order": 1.5}]}"#;
    assert!(matches!(
        parse_schema(output).unwrap_err(),
        SchemaError::JsonNotFound
    ));
}

#[test]
fn test_extract_schema_block_hash_prefix() {
    let json = make_schema_json();
    let contents = format!(
        "#!/usr/bin/env bash\n# OMAKURE_SCHEMA_START\n{}\n# OMAKURE_SCHEMA_END",
        comment_block("#", &json)
    );
    let block = extract_schema_block(&contents, &prefixes(&["#"])).unwrap();
    let schema = parse_schema(&block).unwrap();
    assert_eq!(schema.name, "test_script");
}

#[test]
fn test_extract_schema_block_semicolon_prefix() {
    let json = make_schema_json();
    let contents = format!(
        "; OMAKURE_SCHEMA_START\n{}\n; OMAKURE_SCHEMA_END",
        comment_block(";", &json)
    );
    let block = extract_schema_block(&contents, &prefixes(&[";"])).unwrap();
    let schema = parse_schema(&block).unwrap();
    assert_eq!(schema.name, "test_script");
}

#[test]
fn test_extract_schema_block_missing_prefix_line() {
    let contents = "# OMAKURE_SCHEMA_START\n{\n# OMAKURE_SCHEMA_END";
    let result = extract_schema_block(contents, &prefixes(&["#"]));
    assert!(matches!(
        result.unwrap_err(),
        SchemaError::MissingCommentPrefix { .. }
    ));
}

#[test]
fn test_extract_schema_block_missing_prefix_line_number() {
    let contents = "# OMAKURE_SCHEMA_START\n# {\nbare line\n# OMAKURE_SCHEMA_END";
    match extract_schema_block(contents, &prefixes(&["#"])).unwrap_err() {
        SchemaError::MissingCommentPrefix { line } => assert_eq!(line, 3),
        other => panic!("unexpected error: {:?}", other),
    }
}

#[test]
fn test_extract_schema_block_empty() {
    let contents = "# OMAKURE_SCHEMA_START\n# OMAKURE_SCHEMA_END";
    let result = extract_schema_block(contents, &prefixes(&["#"]));
    assert!(matches!(result.unwrap_err(), SchemaError::EmptyBlock));
}

#[test]
fn test_extract_schema_block_not_found() {
    let contents = "# Just some code\necho hello";
    let result = extract_schema_block(contents, &prefixes(&["#"]));
    assert!(matches!(result.unwrap_err(), SchemaError::BlockNotFound));
}

#[test]
fn test_extract_schema_block_missing_end_marker() {
    let contents = "# OMAKURE_SCHEMA_START\n# {\"Name\": \"x\"}";
    let result = extract_schema_block(contents, &prefixes(&["#"]));
    assert!(matches!(result.unwrap_err(), SchemaError::BlockNotFound));
}

#[test]
fn test_extract_schema_block_idempotent() {
    let json = make_schema_json();
    let contents = format!(
        "# OMAKURE_SCHEMA_START\n{}\n# OMAKURE_SCHEMA_END",
        comment_block("#", &json)
    );
    let first = extract_schema_block(&contents, &prefixes(&["#"])).unwrap();
    let second = extract_schema_block(&contents, &prefixes(&["#"])).unwrap();
    assert_eq!(first, second);
}

#[test]
fn test_parse_schema_full_shape() {
    let output = r#"{
  "Name": "deploy",
  "Description": null,
  "Tags": ["infra", "ops"],
  "Fields": [
    {"Name": "env", "Type": "string", "Order": 2, "Choices": ["dev", "prod"]},
    {"Name": "count", "Type": "number", "Order": 1, "Default": "1"}
  ],
  "Outputs": [{"Name": "url", "Type": "string"}],
  "Queue": {"Matrix": {"Values": [{"Name": "env", "Values": ["dev", "prod"]}]}}
}"#;
    let schema = parse_schema(output).unwrap();
    assert_eq!(schema.name, "deploy");
    assert_eq!(schema.description, None);
    assert_eq!(schema.tags, Some(vec!["infra".to_string(), "ops".to_string()]));
    assert_eq!(schema.fields.len(), 2);
    assert_eq!(schema.fields[0].choices.as_ref().unwrap().len(), 2);
    assert_eq!(schema.fields[1].default.as_deref(), Some("1"));
    assert_eq!(schema.outputs.as_ref().unwrap().len(), 1);
    let queue = schema.queue.as_ref().unwrap();
    let matrix = queue.matrix.as_ref().unwrap();
    assert_eq!(matrix.values[0].values, vec!["dev", "prod"]);
}

#[test]
fn test_parse_schema_rejects_missing_fields_member() {
    let output = r#"{"Name": "x"}"#;
    assert!(matches!(
        parse_schema(output).unwrap_err(),
        SchemaError::JsonNotFound
    ));
}
