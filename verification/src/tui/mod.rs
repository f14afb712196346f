//! State of the terminal interface (drawing lives with the application).

pub mod app;
pub mod keys;
pub mod log;
pub mod views;
