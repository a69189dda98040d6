//! Stashing the worse ones of duplicates.

pub mod laws;
pub mod preview;
pub mod types;
