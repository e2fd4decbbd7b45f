//! Core logic of a script-launching workflow tool: schema extraction and
//! decoding, field validation, run history, environment defaults, and the
//! interactive controller's state machine.

pub mod cli;
pub mod controller;
pub mod decode;
pub mod envfile;
pub mod errors;
pub mod extract;
pub mod history;
pub mod json;
pub mod ports;
pub mod runtime;
pub mod schema;
pub mod select;
pub mod seqs;
pub mod text;
pub mod validate;
