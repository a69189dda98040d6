//! Editing the tags of several tracks side by side, with values that can be
//! filled into all of them, and a preview of the changes before they are saved.

pub mod fields;
pub mod laws;
pub mod render;
pub mod state;
