//! Tool invocation layer: tool schemas, a registry of tools, and an
//! executor that validates arguments before running a tool.

pub mod builtin;
pub mod clock;
pub mod definition;
pub mod error;
pub mod execution;
pub mod json;
pub mod messages;
pub mod providers;
pub mod registry;
pub mod result;
pub mod text;
