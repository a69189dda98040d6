//! Stashing the worse ones of duplicates, by inode alone.

pub mod types;
