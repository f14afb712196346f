//! dapctl — sync planning, playback queue and library logic for HiFi
//! digital audio players, with machine-checked contracts.

pub mod audit;
pub mod cli;
pub mod config;
pub mod cover;
pub mod dap;
pub mod diff;
pub mod error;
pub mod export;
pub mod order;
pub mod paths;
pub mod player;
pub mod scan;
pub mod ssh;
pub mod text;
pub mod transcode;
pub mod transfer;
pub mod tui;
