//! The `Tool` abstractions of an LLM agent toolkit — tool definitions with
//! schema validation, tool outputs, the per-call context — and the decision
//! logic of the built-in tools, with their contracts.

pub mod error;
pub mod outside;
pub mod text;
pub mod json;
pub mod tool;
pub mod tools;

pub use error::{Error, ErrorKind, Result};
