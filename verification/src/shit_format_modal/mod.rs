//! Converting files, the lossless and the lossy apart.

pub mod types;
