//! The screens before the main one.

pub mod first_time_setup;
pub mod intake_confirmation;
pub mod login;
