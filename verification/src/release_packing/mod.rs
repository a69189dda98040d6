//! Browsing what release packing found: releases with their tracks, and files
//! that found no release.

pub mod controls;
pub mod laws;
pub mod render;
pub mod state;
pub mod types;
pub mod view_laws;
