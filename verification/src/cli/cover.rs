//! `dapctl cover fetch <path> [--online]`.

use vstd::prelude::*;

verus! {

#[derive(Debug, Clone)]
pub struct Args {
    pub command: CoverCommand,
}

#[derive(Debug, Clone)]
pub enum CoverCommand {
    /// Download missing cover art (folder.jpg) for albums in a library path.
    Fetch(FetchArgs),
}

#[derive(Debug, Clone)]
pub struct FetchArgs {
    /// Root of the library to scan (defaults to the first sync profile's source).
    pub path: Option<String>,
    /// Enable network requests; required.
    pub online: bool,
    /// Print results as JSON.
    pub json: bool,
}

} // verus!
