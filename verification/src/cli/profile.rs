//! `dapctl profile list|show|check`.

use vstd::prelude::*;

verus! {

#[derive(Debug, Clone)]
pub struct Args {
    pub cmd: ProfileCmd,
}

#[derive(Debug, Clone)]
pub enum ProfileCmd {
    /// List sync profiles found in the config directory.
    List,
    /// Show a resolved DAP profile (builtin or user override).
    Show { id: String },
    /// Validate a sync profile TOML against the schema.
    Check { path: String },
}

} // verus!
