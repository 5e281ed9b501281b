//! Session layer of a language server for the Slice interface-definition language.
//!
//! The library keeps the configuration sets of a workspace, decides which of them a file change
//! affects, turns the diagnostics of a recompilation into the notifications that reach the editor,
//! and resolves a cursor position to the span of the entity it names.

pub mod location;
pub mod jump_definition;
pub mod slice_config;
pub mod diagnostics;
pub mod json;
pub mod configuration_set;
pub mod session;
