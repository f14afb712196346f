//! `dapctl log`.

use vstd::prelude::*;

verus! {

#[derive(Debug, Clone)]
pub struct Args {
    /// Follow the active run instead of printing a snapshot.
    pub follow: bool,
    /// Filter by run id (ulid).
    pub run: Option<String>,
}

/// The `log` subcommand is not implemented yet: it always fails with the
/// same message.
pub fn run(_args: Args) -> (r: Result<(), String>)
    ensures
        r matches Err(m) && m@ == "log: not yet implemented (v0.1 milestone)"@,
{
    Err("log: not yet implemented (v0.1 milestone)".to_owned())
}

} // verus!
