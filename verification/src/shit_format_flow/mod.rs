//! Converting files out of formats that hold no proper tags.

pub mod laws;
pub mod preview;
pub mod types;
