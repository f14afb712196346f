//! Typed error taxonomy and the process exit code it maps to.
//!
//! Exit codes: 2 for user or configuration errors (`ConfigError`,
//! `DapError`), 3 for environment errors (`ScanError`), 1 for anything else.

use vstd::prelude::*;

verus! {

/// Errors arising from loading or validating a sync profile.
#[derive(Debug, Clone)]
pub enum ConfigError {
    MissingField { section: String, field: String },
    UnsupportedVersion { got: u32, expected: u32 },
    InvalidGlob { pattern: String, reason: String },
    Read { path: String, source: String },
    Write { path: String, source: String },
    Parse { path: String, reason: String },
    NotFound { name: String },
}

/// A configuration error as (variant, first text, second text, first
/// number, second number), variants numbered in declaration order.
pub type ConfigErrorV = (u8, Seq<char>, Seq<char>, u32, u32);

impl View for ConfigError {
    type V = ConfigErrorV;

    open spec fn view(&self) -> ConfigErrorV {
        match *self {
            ConfigError::MissingField { section, field } => (0, section@, field@, 0, 0),
            ConfigError::UnsupportedVersion { got, expected } => (1, Seq::empty(), Seq::empty(), got, expected),
            ConfigError::InvalidGlob { pattern, reason } => (2, pattern@, reason@, 0, 0),
            ConfigError::Read { path, source } => (3, path@, source@, 0, 0),
            ConfigError::Write { path, source } => (4, path@, source@, 0, 0),
            ConfigError::Parse { path, reason } => (5, path@, reason@, 0, 0),
            ConfigError::NotFound { name } => (6, name@, Seq::empty(), 0, 0),
        }
    }
}

/// Errors arising from loading a DAP device profile.
#[derive(Debug, Clone)]
pub enum DapError {
    UnknownId { id: String },
    ParseBuiltin { id: String, reason: String },
    ReadOverride { path: String, source: String },
    InvalidOverride { path: String, reason: String },
}

/// Errors arising from device scanning or destination resolution.
#[derive(Debug, Clone)]
pub enum ScanError {
    DestinationNotFound { dap_id: String },
}

/// The class of one error in a chain of causes.
#[derive(Debug, Clone, Copy, PartialEq, Eq, Structural)]
pub enum ErrorClass {
    Config,
    Dap,
    Scan,
    Other,
}

/// Exit code for the first classified cause, scanning outermost first.
pub open spec fn exit_code_spec(chain: Seq<ErrorClass>) -> i32
    decreases chain.len(),
{
    if chain.len() == 0 {
        1
    } else if chain[0] == ErrorClass::Config || chain[0] == ErrorClass::Dap {
        2
    } else if chain[0] == ErrorClass::Scan {
        3
    } else {
        exit_code_spec(chain.drop_first())
    }
}

/// The process exit code for an error whose chain of causes has the given
/// classes: 2 for the first configuration or DAP error, 3 for the first scan
/// error, 1 when the chain has neither.
pub fn exit_code(chain: &[ErrorClass]) -> (r: i32)
    ensures
        r == exit_code_spec(chain@),
        r == 1 || r == 2 || r == 3,
{
    let mut i: usize = 0;
    assert(chain@.skip(0) =~= chain@);
    while i < chain.len()
        invariant
            0 <= i <= chain@.len(),
            exit_code_spec(chain@) == exit_code_spec(chain@.skip(i as int)),
        decreases chain@.len() - i,
    {
        assert(chain@.skip(i as int).drop_first() =~= chain@.skip(i as int + 1));
        match chain[i] {
            ErrorClass::Config | ErrorClass::Dap => return 2,
            ErrorClass::Scan => return 3,
            ErrorClass::Other => {},
        }
        i += 1;
    }
    assert(chain@.skip(i as int) =~= Seq::<ErrorClass>::empty());
    1
}

} // verus!
