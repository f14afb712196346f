//! Command-line argument types and the pure parts of the subcommands.

pub mod audit;
pub mod cover;
pub mod diff;
pub mod export;
pub mod log;
pub mod profile;
pub mod scan;
pub mod sync;
