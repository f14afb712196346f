//! Playback queue, lyrics, library index and engine events.

pub mod engine;
pub mod history;
pub mod library;
pub mod lyrics;
pub mod queue;
pub mod scanner;
