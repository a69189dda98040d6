//! Bringing the variants of a tag to one value.

pub mod data;
pub mod input;
pub mod render;
pub mod review;
pub mod squash;
pub mod state;
