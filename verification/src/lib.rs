//! The decisions behind the Music Magic terminal interface: what every screen
//! holds, how it answers input, which changes it asks for, and the text it shows.
//!
//! Terminal, disk and database stay outside. The library takes plain values and
//! returns plain values.

pub mod content_analysis;
pub mod corpus;
pub mod editor_launch;
pub mod file_size;
pub mod input;
pub mod json;
pub mod lists;
pub mod multi_track_editor;
pub mod oob_sync;
pub mod operator_decisions;
pub mod ordering;
pub mod paths;
pub mod picker;
pub mod progress_screen;
pub mod progressive_worker;
pub mod release_packing;
pub mod screen;
pub mod shared;
pub mod shit_format_flow;
pub mod shit_format_modal;
pub mod single;
pub mod splash_screen;
pub mod startup;
pub mod subpar_duplicate_flow;
pub mod subpar_duplicate_modal;
pub mod tag_canonicity;
pub mod tag_canonicity_v2;
pub mod tag_editor;
pub mod tag_search;
pub mod text;
pub mod text_input;
pub mod transaction_review;
pub mod views;
pub mod widgets;
pub mod work_status;
