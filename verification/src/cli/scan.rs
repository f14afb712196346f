//! `dapctl scan`.

use vstd::prelude::*;

verus! {

#[derive(Debug, Clone)]
pub struct Args {
    /// Emit JSON instead of the human table.
    pub json: bool,
}

} // verus!
