//! The tag editor: one file at a time or many files as one.
//!
//! Edits are staged as decisions of a transaction and reviewed before anything
//! is written.

pub mod directory_input;
pub mod directory_laws;
pub mod directory_render;
pub mod directory_state;
pub mod field_editing;
pub mod input;
pub mod input_laws;
pub mod laws;
pub mod model;
pub mod mutations;
pub mod render;
pub mod state;
pub mod types;
pub mod view_laws;
