//! The error taxonomy: structural and decode errors of schema loading,
//! validation errors of one field, script execution errors, environment
//! errors, and the application-level sum of them all.

use vstd::prelude::*;
use crate::text::{append_chars, chars_to_string, dec_digits, str_to_chars, u64_to_chars};

verus! {

/// Errors of schema extraction, decoding and field validation.
#[derive(Debug)]
pub enum SchemaError {
    BlockNotFound,
    EmptyBlock,
    MissingCommentPrefix { line: usize },
    InvalidJson { detail: String },
    JsonNotFound,
    ValueRequired,
    InvalidNumber,
    InvalidBoolean,
    InvalidChoice { choices: String },
}

/// The user-facing description of a schema error.
pub open spec fn schema_error_msg(e: SchemaError) -> Seq<char> {
    match e {
        SchemaError::BlockNotFound => "Schema block not found in script"@,
        SchemaError::EmptyBlock => "Schema block is empty"@,
        SchemaError::MissingCommentPrefix { line } => "Schema block line missing comment prefix at line "@
            + dec_digits(line as nat),
        SchemaError::InvalidJson { detail } => "Invalid JSON in schema: "@ + detail@,
        SchemaError::JsonNotFound => "Schema JSON object not found in output"@,
        SchemaError::ValueRequired => "Value required"@,
        SchemaError::InvalidNumber => "Enter a valid number"@,
        SchemaError::InvalidBoolean => "Enter true/false (or yes/no)"@,
        SchemaError::InvalidChoice { choices } => "Allowed values: "@ + choices@,
    }
}

impl SchemaError {
    pub fn message(&self) -> (r: String)
        ensures
            r@ == schema_error_msg(*self),
    {
        match self {
            SchemaError::BlockNotFound => chars_to_string(&str_to_chars(
                "Schema block not found in script",
            )),
            SchemaError::EmptyBlock => chars_to_string(&str_to_chars("Schema block is empty")),
            SchemaError::MissingCommentPrefix { line } => {
                let mut out = str_to_chars("Schema block line missing comment prefix at line ");
                let digits = u64_to_chars(*line as u64);
                append_chars(&mut out, &digits);
                chars_to_string(&out)
            },
            SchemaError::InvalidJson { detail } => {
                let mut out = str_to_chars("Invalid JSON in schema: ");
                let tail = str_to_chars(detail.as_str());
                append_chars(&mut out, &tail);
                chars_to_string(&out)
            },
            SchemaError::JsonNotFound => chars_to_string(&str_to_chars(
                "Schema JSON object not found in output",
            )),
            SchemaError::ValueRequired => chars_to_string(&str_to_chars("Value required")),
            SchemaError::InvalidNumber => chars_to_string(&str_to_chars("Enter a valid number")),
            SchemaError::InvalidBoolean => chars_to_string(&str_to_chars(
                "Enter true/false (or yes/no)",
            )),
            SchemaError::InvalidChoice { choices } => {
                let mut out = str_to_chars("Allowed values: ");
                let tail = str_to_chars(choices.as_str());
                append_chars(&mut out, &tail);
                chars_to_string(&out)
            },
        }
    }
}

/// Errors of script execution and its runtime dependencies.
#[derive(Debug)]
pub enum ScriptError {
    NotFound { path: String },
    UnsupportedType,
    ExecutionFailed { message: String },
    DependencyMissing { name: String, hint: String },
    DependencyCheckFailed { name: String, message: String },
}

pub open spec fn script_error_msg(e: ScriptError) -> Seq<char> {
    match e {
        ScriptError::NotFound { path } => "Script not found: "@ + path@,
        ScriptError::UnsupportedType => "Unsupported script type"@,
        ScriptError::ExecutionFailed { message } => "Execution failed: "@ + message@,
        ScriptError::DependencyMissing { name, hint } => name@ + " not found in PATH. "@ + hint@,
        ScriptError::DependencyCheckFailed { name, message } => name@
            + " found, but check failed: "@ + message@,
    }
}

impl ScriptError {
    pub fn message(&self) -> (r: String)
        ensures
            r@ == script_error_msg(*self),
    {
        match self {
            ScriptError::NotFound { path } => {
                let mut out = str_to_chars("Script not found: ");
                let tail = str_to_chars(path.as_str());
                append_chars(&mut out, &tail);
                chars_to_string(&out)
            },
            ScriptError::UnsupportedType => chars_to_string(&str_to_chars(
                "Unsupported script type",
            )),
            ScriptError::ExecutionFailed { message } => {
                let mut out = str_to_chars("Execution failed: ");
                let tail = str_to_chars(message.as_str());
                append_chars(&mut out, &tail);
                chars_to_string(&out)
            },
            ScriptError::DependencyMissing { name, hint } => {
                let mut out = str_to_chars(name.as_str());
                let mid = str_to_chars(" not found in PATH. ");
                append_chars(&mut out, &mid);
                let tail = str_to_chars(hint.as_str());
                append_chars(&mut out, &tail);
                chars_to_string(&out)
            },
            ScriptError::DependencyCheckFailed { name, message } => {
                let mut out = str_to_chars(name.as_str());
                let mid = str_to_chars(" found, but check failed: ");
                append_chars(&mut out, &mid);
                let tail = str_to_chars(message.as_str());
                append_chars(&mut out, &tail);
                chars_to_string(&out)
            },
        }
    }
}

/// Errors of environment configuration.
#[derive(Debug)]
pub enum EnvironmentError {
    NotFound { name: String },
    InvalidFormat { detail: String },
    ReadFailed { detail: String },
    WriteFailed { detail: String },
}

pub open spec fn environment_error_msg(e: EnvironmentError) -> Seq<char> {
    match e {
        EnvironmentError::NotFound { name } => "Environment not found: "@ + name@,
        EnvironmentError::InvalidFormat { detail } => "Invalid environment file format: "@
            + detail@,
        EnvironmentError::ReadFailed { detail } => "Failed to read environment: "@ + detail@,
        EnvironmentError::WriteFailed { detail } => "Failed to write environment: "@ + detail@,
    }
}

impl EnvironmentError {
    pub fn message(&self) -> (r: String)
        ensures
            r@ == environment_error_msg(*self),
    {
        let (prefix, tail): (&str, &String) = match self {
            EnvironmentError::NotFound { name } => ("Environment not found: ", name),
            EnvironmentError::InvalidFormat { detail } => (
                "Invalid environment file format: ",
                detail,
            ),
            EnvironmentError::ReadFailed { detail } => ("Failed to read environment: ", detail),
            EnvironmentError::WriteFailed { detail } => ("Failed to write environment: ", detail),
        };
        let mut out = str_to_chars(prefix);
        let t = str_to_chars(tail.as_str());
        append_chars(&mut out, &t);
        chars_to_string(&out)
    }
}

/// The application-level error: every failure the controller reports.
#[derive(Debug)]
#[allow(inconsistent_fields)]
pub enum AppError {
    Io { detail: String },
    Schema { source: SchemaError },
    Script { source: ScriptError },
    Environment { source: EnvironmentError },
    Config { detail: String },
    General { detail: String },
}

pub open spec fn app_error_msg(e: AppError) -> Seq<char> {
    match e {
        AppError::Io { detail } => "IO error: "@ + detail@,
        AppError::Schema { source } => "Schema error: "@ + schema_error_msg(source),
        AppError::Script { source } => "Script error: "@ + script_error_msg(source),
        AppError::Environment { source } => "Environment error: "@ + environment_error_msg(source),
        AppError::Config { detail } => "Configuration error: "@ + detail@,
        AppError::General { detail } => detail@,
    }
}

impl AppError {
    pub fn message(&self) -> (r: String)
        ensures
            r@ == app_error_msg(*self),
    {
        match self {
            AppError::Io { detail } => {
                let mut out = str_to_chars("IO error: ");
                let tail = str_to_chars(detail.as_str());
                append_chars(&mut out, &tail);
                chars_to_string(&out)
            },
            AppError::Schema { source } => {
                let mut out = str_to_chars("Schema error: ");
                let msg = source.message();
                let tail = str_to_chars(msg.as_str());
                append_chars(&mut out, &tail);
                chars_to_string(&out)
            },
            AppError::Script { source } => {
                let mut out = str_to_chars("Script error: ");
                let msg = source.message();
                let tail = str_to_chars(msg.as_str());
                append_chars(&mut out, &tail);
                chars_to_string(&out)
            },
            AppError::Environment { source } => {
                let mut out = str_to_chars("Environment error: ");
                let msg = source.message();
                let tail = str_to_chars(msg.as_str());
                append_chars(&mut out, &tail);
                chars_to_string(&out)
            },
            AppError::Config { detail } => {
                let mut out = str_to_chars("Configuration error: ");
                let tail = str_to_chars(detail.as_str());
                append_chars(&mut out, &tail);
                chars_to_string(&out)
            },
            AppError::General { detail } => {
                let tail = str_to_chars(detail.as_str());
                chars_to_string(&tail)
            },
        }
    }
}

impl core::convert::From<String> for AppError {
    fn from(detail: String) -> (r: AppError) {
        AppError::General { detail }
    }
}

impl vstd::std_specs::convert::FromSpecImpl<String> for AppError {
    open spec fn obeys_from_spec() -> bool {
        true
    }

    open spec fn from_spec(detail: String) -> AppError {
        AppError::General { detail }
    }
}

} // verus!
