//! Bringing the variants of a tag to one value, with the files in view.

pub mod input;
pub mod laws;
pub mod render;
pub mod types;
