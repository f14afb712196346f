//! Per-view state and formatting helpers.

pub mod new_profile;
pub mod player;
