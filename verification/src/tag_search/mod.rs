//! Searching the corpus by tags and by what files are.

pub mod evaluate;
pub mod input;
pub mod laws;
pub mod render;
pub mod state;
pub mod types;
