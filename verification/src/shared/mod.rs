//! What several flows share.

pub mod laws;
pub mod quality_resolution;
