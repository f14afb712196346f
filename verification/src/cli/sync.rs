//! `dapctl sync <profile>`.

use vstd::prelude::*;

use crate::config::Mode;
use crate::transfer::{Stats, SyncMode};
use crate::text::{fmt_u64, push_str, dec};

verus! {

#[derive(Debug, Clone)]
pub struct Args {
    /// Name of the sync profile.
    pub profile: String,
    /// Simulate without writing; overrides the profile's `dry_run_default`.
    pub dry_run: bool,
}

/// Effective dry run: the explicit flag, else not when `--yes` was given,
/// else the profile's default.
pub fn effective_dry_run(flag: bool, yes: bool, profile_default: bool) -> (r: bool)
    ensures
        r == (flag || (!yes && profile_default)),
{
    if flag {
        true
    } else if yes {
        false
    } else {
        profile_default
    }
}

/// Whether the run first repairs the destination's modification times
/// (files copied before without them): only a run that may write does, as
/// a dry run only simulates.
pub fn repairs_mtimes(dry_run: bool) -> (r: bool)
    ensures
        r == !dry_run,
{
    !dry_run
}

/// Mirror profiles delete orphans; additive and selective ones never do.
pub fn sync_mode(mode: Mode) -> (r: SyncMode)
    ensures
        r == (if mode == Mode::Mirror { SyncMode::Mirror } else { SyncMode::Additive }),
{
    match mode {
        Mode::Mirror => SyncMode::Mirror,
        Mode::Additive | Mode::Selective => SyncMode::Additive,
    }
}

/// What `dapctl sync` does once the plan is known.
#[derive(Debug, Clone, Copy, PartialEq, Eq, Structural)]
pub enum SyncDecision {
    /// Nothing to copy and no orphans.
    NothingToDo,
    /// Report only. `hint_yes`: the dry run comes from the profile's default
    /// (without `--yes`), so the output says how to execute; `deletions`:
    /// the hint mentions that orphans would be deleted.
    DryRun { hint_yes: bool, deletions: bool },
    /// Mirror mode would delete orphans and `--yes` was not given.
    RefuseDeletions { orphans: usize },
    Execute,
}

/// Decides the course of a sync: nothing to do when nothing is transferred
/// and there are no orphans; else a dry run when one is in effect; else a
/// refusal when mirror mode would delete orphans without `--yes`; else the
/// run.
pub fn sync_decision(
    transfer_bytes: u64,
    orphans: usize,
    mode: SyncMode,
    dry_run: bool,
    dry_run_default: bool,
    yes: bool,
) -> (r: SyncDecision)
    ensures
        r == (if transfer_bytes == 0 && orphans == 0 {
            SyncDecision::NothingToDo
        } else if dry_run {
            SyncDecision::DryRun {
                hint_yes: dry_run_default && !yes,
                deletions: mode == SyncMode::Mirror && orphans > 0,
            }
        } else if mode == SyncMode::Mirror && orphans > 0 && !yes {
            SyncDecision::RefuseDeletions { orphans }
        } else {
            SyncDecision::Execute
        }),
{
    if transfer_bytes == 0 && orphans == 0 {
        return SyncDecision::NothingToDo;
    }
    let has_deletions = mode == SyncMode::Mirror && orphans > 0;
    if dry_run {
        return SyncDecision::DryRun { hint_yes: dry_run_default && !yes, deletions: has_deletions };
    }
    if has_deletions && !yes {
        return SyncDecision::RefuseDeletions { orphans };
    }
    SyncDecision::Execute
}

/// The message refusing a mirror run that would delete `orphans` files.
pub open spec fn refusal_text(orphans: nat) -> Seq<char> {
    dec(orphans) + " orphan(s) would be deleted in mirror mode. Pass --yes to confirm or use mode=additive to skip deletions."@
}

pub fn refusal_message(orphans: usize) -> (r: String)
    ensures
        r@ == refusal_text(orphans as nat),
{
    let mut m = fmt_u64(orphans as u64);
    push_str(&mut m, " orphan(s) would be deleted in mirror mode. Pass --yes to confirm or use mode=additive to skip deletions.");
    m
}

/// The outcome of a finished run: an error naming the number of failed
/// files when any failed.
pub fn run_result(stats: &Stats) -> (r: Result<(), String>)
    ensures
        stats.failed == 0 ==> r is Ok,
        stats.failed > 0 ==> (r matches Err(m) && m@ == dec(stats.failed as nat) + " file(s) failed to transfer"@),
{
    if stats.failed > 0 {
        let mut m = fmt_u64(stats.failed as u64);
        push_str(&mut m, " file(s) failed to transfer");
        return Err(m);
    }
    Ok(())
}

} // verus!
