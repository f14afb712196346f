//! `dapctl export m3u <profile>`.

use vstd::prelude::*;

verus! {

#[derive(Debug, Clone)]
pub struct Args {
    pub command: ExportCommand,
}

#[derive(Debug, Clone)]
pub enum ExportCommand {
    /// Generate an M3U playlist for a sync profile.
    M3u(M3uArgs),
}

#[derive(Debug, Clone)]
pub struct M3uArgs {
    /// Name of the sync profile.
    pub profile: String,
    /// Write the M3U to this file instead of stdout.
    pub output: Option<String>,
}

} // verus!
