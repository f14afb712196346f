//! Executing a plan: the pure parts (statistics, temp paths, states).

use vstd::prelude::*;

use crate::config::TranscodeRule;
use crate::diff::plan::{bytes_kind, count_kind, opt_view, transfer_spec, Entry, EntryKind, Plan, Row};
use crate::paths::{
    file_name, join, parent, path_file_name, path_join, path_parent, path_with_extension,
    with_extension, ext_ok,
};
use crate::text::{chars_eq, chars_of, contains, has_infix, lowercase, push_char, push_str, str_eq, string_of_range, to_lowercase};

verus! {

#[derive(Debug, Clone, Copy, PartialEq, Eq, Structural)]
pub enum SyncMode {
    /// Add/overwrite only; never delete orphans.
    Additive,
    /// Add/overwrite and delete orphans.
    Mirror,
}

/// Outcome counters of a sync run.
#[derive(Debug, Clone)]
pub struct Stats {
    pub copied: usize,
    pub deleted: usize,
    pub failed: usize,
    pub bytes_written: u64,
    /// Wall-clock duration of the run in milliseconds.
    pub elapsed_ms: u64,
}

/// The statistics a dry run reports: new and modified entries counted as
/// copied, orphans as deleted in mirror mode, nothing failed.
pub fn dry_run_stats(plan: &Plan, mode: SyncMode) -> (r: Stats)
    requires
        transfer_spec(plan@) <= u64::MAX,
        count_kind(plan@, EntryKind::New) + count_kind(plan@, EntryKind::Modified) <= usize::MAX,
    ensures
        r.copied == count_kind(plan@, EntryKind::New) + count_kind(plan@, EntryKind::Modified),
        r.deleted == (if mode == SyncMode::Mirror { count_kind(plan@, EntryKind::Orphan) } else { 0 }),
        r.failed == 0,
        r.bytes_written == transfer_spec(plan@),
        r.elapsed_ms == 0,
{
    let deleted = match mode {
        SyncMode::Mirror => plan.count(EntryKind::Orphan),
        SyncMode::Additive => 0,
    };
    Stats {
        copied: plan.count(EntryKind::New) + plan.count(EntryKind::Modified),
        deleted,
        failed: 0,
        bytes_written: plan.transfer_bytes(),
        elapsed_ms: 0,
    }
}

/// Last `max` characters of `s`, with a leading ellipsis taking one of them;
/// `s` itself when it is short enough.
pub open spec fn truncate_path_spec(s: Seq<char>, max: nat) -> Seq<char> {
    if s.len() <= max {
        s
    } else {
        let keep = if max >= 1 { (max - 1) as nat } else { 0 };
        seq!['…'] + s.skip(s.len() - keep)
    }
}

/// Shortens a path for a progress line, keeping its end.
pub fn truncate_path(p: &str, max: usize) -> (r: String)
    ensures
        r@ == truncate_path_spec(p@, max as nat),
{
    let chars = chars_of(p);
    if chars.len() <= max {
        return string_of_range(&chars, 0, chars.len());
    }
    let keep = if max >= 1 {
        max - 1
    } else {
        0
    };
    let mut r = String::new();
    push_char(&mut r, '…');
    let tail = string_of_range(&chars, chars.len() - keep, chars.len());
    crate::text::push_str(&mut r, tail.as_str());
    assert(r@ =~= truncate_path_spec(p@, max as nat));
    r
}

/// State of one file in a run's manifest.
#[derive(Debug, Clone, Copy, PartialEq, Eq, Structural)]
pub enum State {
    Pending,
    InProgress,
    Done,
    Failed,
}

/// One manifest line: a file and its state.
#[derive(Debug, Clone)]
pub struct ManifestEntry {
    pub path: String,
    pub size_bytes: u64,
    pub state: State,
    pub err: Option<String>,
}

/// Events recorded per run for auditing.
#[derive(Debug, Clone)]
pub enum Event {
    XferStart { path: String, bytes: u64 },
    XferDone { path: String, bytes: u64 },
    XferFail { path: String, err: String },
    VerifyOk { path: String },
    VerifyFail { path: String, err: String },
    Finish { ok: bool },
}

/// Real-time progress events sent to the TUI.
#[derive(Debug, Clone)]
pub enum ProgressEvent {
    /// A new file is about to be copied.
    FileStart { path: String, bytes: u64 },
    /// A chunk was written (incremental bytes).
    FileProgress { bytes: u64 },
    /// File copied and verified successfully.
    FileDone { path: String, bytes: u64 },
    /// File copy or verify failed.
    FileFail { path: String, err: String },
    /// An orphan file was deleted.
    DeleteDone { path: String },
    /// All files processed, with the final statistics.
    Finish { stats: Stats },
}


/// Entries that a run copies: new and modified ones.
pub open spec fn is_copy(k: EntryKind) -> bool {
    k == EntryKind::New || k == EntryKind::Modified
}

/// The plan rows a run copies, in plan order.
pub open spec fn copy_rows(es: Seq<Row>) -> Seq<Row> {
    es.filter(|e: Row| is_copy(e.0))
}

/// The plan rows a run deletes, in plan order: orphans, in mirror mode only.
pub open spec fn delete_rows(es: Seq<Row>, mode: SyncMode) -> Seq<Row> {
    if mode == SyncMode::Mirror {
        es.filter(|e: Row| e.0 == EntryKind::Orphan)
    } else {
        Seq::empty()
    }
}

/// The new and modified entries of `plan`, in plan order.
pub fn copy_entries(plan: &Plan) -> (r: Vec<Entry>)
    ensures
        r@.map_values(|e: Entry| e@) == copy_rows(plan@),
{
    let mut r: Vec<Entry> = Vec::new();
    let mut i: usize = 0;
    while i < plan.entries.len()
        invariant
            0 <= i <= plan.entries@.len(),
            r@.map_values(|e: Entry| e@) == copy_rows(plan@.take(i as int)),
        decreases plan.entries@.len() - i,
    {
        let ghost pre = plan@.take(i as int);
        assert(plan@.take(i as int + 1) =~= pre.push(plan@[i as int]));
        proof {
            pre.lemma_filter_push(plan@[i as int], |e: Row| is_copy(e.0));
        }
        let k = plan.entries[i].kind;
        if k == EntryKind::New || k == EntryKind::Modified {
            let e = plan.entries[i].clone_entry();
            r.push(e);
        }
        assert(r@.map_values(|e: Entry| e@) =~= copy_rows(plan@.take(i as int + 1)));
        i += 1;
    }
    assert(plan@.take(i as int) =~= plan@);
    r
}

/// The orphan entries of `plan` in mirror mode, none in additive mode.
pub fn delete_entries(plan: &Plan, mode: SyncMode) -> (r: Vec<Entry>)
    ensures
        r@.map_values(|e: Entry| e@) == delete_rows(plan@, mode),
{
    let mut r: Vec<Entry> = Vec::new();
    if mode == SyncMode::Additive {
        assert(r@.map_values(|e: Entry| e@) =~= delete_rows(plan@, mode));
        return r;
    }
    let mut i: usize = 0;
    while i < plan.entries.len()
        invariant
            mode == SyncMode::Mirror,
            0 <= i <= plan.entries@.len(),
            r@.map_values(|e: Entry| e@) == plan@.take(i as int).filter(|e: Row| e.0 == EntryKind::Orphan),
        decreases plan.entries@.len() - i,
    {
        let ghost pre = plan@.take(i as int);
        assert(plan@.take(i as int + 1) =~= pre.push(plan@[i as int]));
        proof {
            pre.lemma_filter_push(plan@[i as int], |e: Row| e.0 == EntryKind::Orphan);
        }
        if plan.entries[i].kind == EntryKind::Orphan {
            let e = plan.entries[i].clone_entry();
            r.push(e);
        }
        assert(r@.map_values(|e: Entry| e@) =~= plan@.take(i as int + 1).filter(|e: Row| e.0 == EntryKind::Orphan));
        i += 1;
    }
    assert(plan@.take(i as int) =~= plan@);
    r
}

/// The temporary file a copy is written to before it is renamed over
/// `dst`: `<name>.dapctl-tmp` beside it, `file` standing in for a missing name.
pub open spec fn tmp_path_spec(dst: Seq<char>) -> Seq<char> {
    let name = match path_file_name(dst) {
        Some(n) => n,
        None => "file"@,
    };
    let tmp_name = name + ".dapctl-tmp"@;
    match path_parent(dst) {
        Some(p) => path_join(p, tmp_name),
        None => tmp_name,
    }
}

/// The temporary path for a copy to `dst`.
pub fn tmp_path(dst: &str) -> (r: String)
    ensures
        r@ == tmp_path_spec(dst@),
{
    let mut tmp_name = match file_name(dst) {
        Some(n) => n,
        None => "file".to_owned(),
    };
    push_str(&mut tmp_name, ".dapctl-tmp");
    match parent(dst) {
        Some(p) => join(p.as_str(), tmp_name.as_str()),
        None => tmp_name,
    }
}

/// Where the bytes of one copied entry come from.
#[derive(Debug, Clone)]
pub enum CopySource {
    /// Copy this source-relative file as it is.
    Direct { src_rel: String },
    /// Run this source-relative file through transcode rule `rule`.
    Transcode { src_rel: String, rule: usize },
}

/// Index of the first rule whose source extension equals `ext`, both
/// lowercased.
pub open spec fn rule_for(rules: Seq<(Seq<char>, Seq<char>, Seq<char>)>, ext: Seq<char>) -> Option<int>
    decreases rules.len(),
{
    if rules.len() == 0 {
        None
    } else {
        match rule_for(rules.drop_last(), ext) {
            Some(i) => Some(i),
            None => if lowercase(rules.last().0) == lowercase(ext) {
                Some(rules.len() - 1)
            } else {
                None
            },
        }
    }
}

/// Transcode rules as (from, to, params).
pub open spec fn rules_view(rules: Seq<TranscodeRule>) -> Seq<(Seq<char>, Seq<char>, Seq<char>)> {
    rules.map_values(|r: TranscodeRule| (r.from@, r.to@, r.params@))
}

/// Where an entry's bytes come from: an entry produced by transcoding is
/// read from the source file with the original extension and run through
/// the matching rule; without transcoding options, or when no rule matches,
/// the entry's own path is copied.
pub open spec fn copy_source_spec(e: Row, rules: Option<Seq<(Seq<char>, Seq<char>, Seq<char>)>>) -> (Seq<char>, Option<int>) {
    match (e.3, rules) {
        (Some(from), Some(rs)) => match rule_for(rs, from) {
            Some(i) => (path_with_extension(e.1, from), Some(i)),
            None => (e.1, None),
        },
        _ => (e.1, None),
    }
}

/// View of a copy source as (source-relative path, rule index if transcoded).
pub open spec fn copy_source_view(c: CopySource) -> (Seq<char>, Option<int>) {
    match c {
        CopySource::Direct { src_rel } => (src_rel@, None),
        CopySource::Transcode { src_rel, rule } => (src_rel@, Some(rule as int)),
    }
}

/// Decides how one copied entry is produced.
pub fn copy_source(entry: &Entry, rules: Option<&Vec<TranscodeRule>>) -> (r: CopySource)
    requires
        entry@.3 matches Some(f) ==> ext_ok(f),
    ensures
        copy_source_view(r) == copy_source_spec(entry@, match rules {
            Some(rs) => Some(rules_view(rs@)),
            None => None,
        }),
{
    match (&entry.transcode_from, rules) {
        (Some(from), Some(rs)) => {
            let from_l = chars_of(to_lowercase(from.as_str()).as_str());
            let ghost rv = rules_view(rs@);
            let mut i: usize = 0;
            while i < rs.len()
                invariant
                    0 <= i <= rs@.len(),
                    rv == rules_view(rs@),
                    entry@.3 == Some(from@),
                    ext_ok(from@),
                    rules == Some(rs),
                    from_l@ == lowercase(from@),
                    rule_for(rv.take(i as int), from@) is None,
                decreases rs@.len() - i,
            {
                assert(rv.take(i as int + 1).drop_last() =~= rv.take(i as int));
                let rl = chars_of(to_lowercase(rs[i].from.as_str()).as_str());
                if chars_eq(&rl, &from_l) {
                    proof {
                        assert(rv.take(i as int + 1).last() == rv[i as int]);
                        assert(rule_for(rv.take(i as int + 1), from@) == Some(i as int));
                        lemma_rule_for_prefix(rv, from@, i as int + 1);
                        assert(entry@.3 == Some(from@));
                    }
                    let src_rel = with_extension(entry.path.as_str(), from.as_str());
                    assert(src_rel@ == path_with_extension(entry@.1, from@));
                    return CopySource::Transcode { src_rel, rule: i };
                }
                i += 1;
            }
            assert(rv.take(i as int) =~= rv);
            assert(entry@.3 == Some(from@));
            CopySource::Direct { src_rel: entry.path.clone() }
        },
        _ => CopySource::Direct { src_rel: entry.path.clone() },
    }
}

/// Once a rule matches within a prefix, it is the first match overall.
proof fn lemma_rule_for_prefix(rs: Seq<(Seq<char>, Seq<char>, Seq<char>)>, ext: Seq<char>, n: int)
    requires
        0 <= n <= rs.len(),
        rule_for(rs.take(n), ext) is Some,
    ensures
        rule_for(rs, ext) == rule_for(rs.take(n), ext),
    decreases rs.len() - n,
{
    if n < rs.len() {
        assert(rs.take(n + 1).drop_last() =~= rs.take(n));
        lemma_rule_for_prefix(rs, ext, n + 1);
    } else {
        assert(rs.take(n) =~= rs);
    }
}

/// The source file whose modification time a copied entry takes: the
/// original file of a transcoded entry, else the entry's own path.
pub fn mtime_source(entry: &Entry) -> (r: String)
    requires
        entry@.3 matches Some(f) ==> ext_ok(f),
    ensures
        r@ == match entry@.3 {
            Some(from) => path_with_extension(entry@.1, from),
            None => entry@.1,
        },
{
    match &entry.transcode_from {
        Some(from) => with_extension(entry.path.as_str(), from.as_str()),
        None => entry.path.clone(),
    }
}

/// How a written file is checked before it counts as copied.
#[derive(Debug, Clone, Copy, PartialEq, Eq, Structural)]
pub enum VerifyCheck {
    /// Nothing to check.
    Pass,
    /// The output exists and is not empty (transcoded files).
    NonEmpty,
    /// Same size and modification time within tolerance.
    SizeMtime,
    /// Same blake3 checksum.
    Checksum,
}

/// The check for a written file: a transcoded file only has to be non-empty,
/// since sizes and checksums differ across formats; other files follow the
/// profile's verify setting.
pub fn verify_check(is_transcoded: bool, verify: crate::config::Verify) -> (r: VerifyCheck)
    ensures
        is_transcoded ==> r == VerifyCheck::NonEmpty,
        !is_transcoded ==> r == match verify {
            crate::config::Verify::Off => VerifyCheck::Pass,
            crate::config::Verify::SizeMtime => VerifyCheck::SizeMtime,
            crate::config::Verify::Checksum => VerifyCheck::Checksum,
        },
{
    if is_transcoded {
        VerifyCheck::NonEmpty
    } else {
        match verify {
            crate::config::Verify::Off => VerifyCheck::Pass,
            crate::config::Verify::SizeMtime => VerifyCheck::SizeMtime,
            crate::config::Verify::Checksum => VerifyCheck::Checksum,
        }
    }
}

/// Tolerance on modification times when verifying: FAT32 stores them with
/// two-second precision.
pub const VERIFY_MTIME_TOLERANCE_NS: u128 = 2_000_000_000u128;

/// Size-and-mtime verification: equal sizes and modification times at most
/// the tolerance apart.
pub fn size_mtime_match(src_len: u64, dst_len: u64, src_mtime_ns: u128, dst_mtime_ns: u128) -> (r: bool)
    ensures
        r == (src_len == dst_len && (if src_mtime_ns >= dst_mtime_ns {
            src_mtime_ns - dst_mtime_ns
        } else {
            dst_mtime_ns - src_mtime_ns
        }) <= VERIFY_MTIME_TOLERANCE_NS),
{
    if src_len != dst_len {
        return false;
    }
    let delta = if src_mtime_ns >= dst_mtime_ns {
        src_mtime_ns - dst_mtime_ns
    } else {
        dst_mtime_ns - src_mtime_ns
    };
    delta <= VERIFY_MTIME_TOLERANCE_NS
}

/// What became of one copy.
#[derive(Debug, Clone)]
pub enum CopyOutcome {
    /// The file was written (`bytes` of it) and then checked.
    Written { bytes: u64, verified: bool },
    /// Copying or transcoding failed with this message.
    Failed { err: String },
}

/// Counters as (copied, deleted, failed, bytes written).
pub type StatsV = (nat, nat, nat, nat);

pub open spec fn stats_view(s: Stats) -> StatsV {
    (s.copied as nat, s.deleted as nat, s.failed as nat, s.bytes_written as nat)
}

/// The counters after one copy: a written and verified file counts as
/// copied with its bytes; anything else counts as failed.
pub open spec fn after_copy(s: StatsV, written: Option<(nat, bool)>) -> StatsV {
    match written {
        Some((bytes, true)) => (s.0 + 1, s.1, s.2, s.3 + bytes),
        _ => (s.0, s.1, s.2 + 1, s.3),
    }
}

/// The counters after one deletion.
pub open spec fn after_delete(s: StatsV, ok: bool) -> StatsV {
    if ok {
        (s.0, s.1 + 1, s.2, s.3)
    } else {
        (s.0, s.1, s.2 + 1, s.3)
    }
}

pub open spec fn outcome_view(o: CopyOutcome) -> Option<(nat, bool)> {
    match o {
        CopyOutcome::Written { bytes, verified } => Some((bytes as nat, verified)),
        CopyOutcome::Failed { .. } => None,
    }
}

/// Records one copy in the counters and returns the manifest line and the
/// progress event for it.
pub fn record_copy(stats: &mut Stats, entry: &Entry, outcome: CopyOutcome) -> (r: (ManifestEntry, ProgressEvent))
    requires
        old(stats).copied < usize::MAX,
        old(stats).failed < usize::MAX,
        outcome matches CopyOutcome::Written { bytes, .. } ==> old(stats).bytes_written + bytes <= u64::MAX,
    ensures
        stats_view(*final(stats)) == after_copy(stats_view(*old(stats)), outcome_view(outcome)),
        final(stats).elapsed_ms == old(stats).elapsed_ms,
        r.0.path@ == entry.path@,
        r.0.size_bytes == entry.size_bytes,
        match outcome {
            CopyOutcome::Written { bytes, verified: true } => {
                &&& r.0.state == State::Done
                &&& r.0.err is None
                &&& r.1 matches ProgressEvent::FileDone { path, bytes: b } && path@ == entry.path@ && b == bytes
            },
            CopyOutcome::Written { verified: false, .. } => {
                &&& r.0.state == State::Failed
                &&& r.0.err matches Some(m) && m@ == "verify mismatch"@
                &&& r.1 matches ProgressEvent::FileFail { path, err } && path@ == entry.path@ && err@ == "verify mismatch"@
            },
            CopyOutcome::Failed { err } => {
                &&& r.0.state == State::Failed
                &&& r.0.err matches Some(m) && m@ == err@
                &&& r.1 matches ProgressEvent::FileFail { path, err: e } && path@ == entry.path@ && e@ == err@
            },
        },
{
    match outcome {
        CopyOutcome::Written { bytes, verified } => {
            if verified {
                stats.copied = stats.copied + 1;
                stats.bytes_written = stats.bytes_written + bytes;
                (
                    ManifestEntry { path: entry.path.clone(), size_bytes: entry.size_bytes, state: State::Done, err: None },
                    ProgressEvent::FileDone { path: entry.path.clone(), bytes },
                )
            } else {
                stats.failed = stats.failed + 1;
                (
                    ManifestEntry {
                        path: entry.path.clone(),
                        size_bytes: entry.size_bytes,
                        state: State::Failed,
                        err: Some("verify mismatch".to_owned()),
                    },
                    ProgressEvent::FileFail { path: entry.path.clone(), err: "verify mismatch".to_owned() },
                )
            }
        },
        CopyOutcome::Failed { err } => {
            stats.failed = stats.failed + 1;
            (
                ManifestEntry {
                    path: entry.path.clone(),
                    size_bytes: entry.size_bytes,
                    state: State::Failed,
                    err: Some(err.clone()),
                },
                ProgressEvent::FileFail { path: entry.path.clone(), err },
            )
        },
    }
}

/// Records one deletion (`Err` with its message when it failed) and returns
/// the progress event for it.
pub fn record_delete(stats: &mut Stats, entry: &Entry, result: Result<(), String>) -> (r: ProgressEvent)
    requires
        old(stats).deleted < usize::MAX,
        old(stats).failed < usize::MAX,
    ensures
        stats_view(*final(stats)) == after_delete(stats_view(*old(stats)), result is Ok),
        final(stats).elapsed_ms == old(stats).elapsed_ms,
        match result {
            Ok(()) => r matches ProgressEvent::DeleteDone { path } && path@ == entry.path@,
            Err(m) => r matches ProgressEvent::FileFail { path, err } && path@ == entry.path@ && err@ == m@,
        },
{
    match result {
        Ok(()) => {
            stats.deleted = stats.deleted + 1;
            ProgressEvent::DeleteDone { path: entry.path.clone() }
        },
        Err(m) => {
            stats.failed = stats.failed + 1;
            ProgressEvent::FileFail { path: entry.path.clone(), err: m }
        },
    }
}

/// The counters of a run in which every copy writes the entry's size and
/// passes its check, and every deletion succeeds.
pub open spec fn all_ok_copies(s: StatsV, es: Seq<Row>) -> StatsV
    decreases es.len(),
{
    if es.len() == 0 {
        s
    } else {
        after_copy(all_ok_copies(s, es.drop_last()), Some((es.last().2 as nat, true)))
    }
}

pub open spec fn all_ok_deletes(s: StatsV, n: nat) -> StatsV
    decreases n,
{
    if n == 0 {
        s
    } else {
        after_delete(all_ok_deletes(s, (n - 1) as nat), true)
    }
}

proof fn lemma_all_ok_copies(es: Seq<Row>)
    ensures
        all_ok_copies((0, 0, 0, 0), copy_rows(es)) == (
            count_kind(es, EntryKind::New) + count_kind(es, EntryKind::Modified),
            0nat,
            0nat,
            transfer_spec(es),
        ),
    decreases es.len(),
{
    if es.len() > 0 {
        let pre = es.drop_last();
        lemma_all_ok_copies(pre);
        assert(es =~= pre.push(es.last()));
        pre.lemma_filter_push(es.last(), |e: Row| is_copy(e.0));
        if is_copy(es.last().0) {
            assert(copy_rows(es).drop_last() =~= copy_rows(pre));
            assert(copy_rows(es).last() == es.last());
        }
    } else {
        assert(copy_rows(es) =~= Seq::<Row>::empty()) by {
            reveal(Seq::filter);
        }
    }
}

proof fn lemma_all_ok_deletes(s: StatsV, n: nat)
    ensures
        all_ok_deletes(s, n) == (s.0, s.1 + n, s.2, s.3),
    decreases n,
{
    if n > 0 {
        lemma_all_ok_deletes(s, (n - 1) as nat);
    }
}

proof fn lemma_orphan_rows_len(es: Seq<Row>)
    ensures
        es.filter(|e: Row| e.0 == EntryKind::Orphan).len() == count_kind(es, EntryKind::Orphan),
    decreases es.len(),
{
    if es.len() > 0 {
        let pre = es.drop_last();
        lemma_orphan_rows_len(pre);
        assert(es =~= pre.push(es.last()));
        pre.lemma_filter_push(es.last(), |e: Row| e.0 == EntryKind::Orphan);
    } else {
        assert(es.filter(|e: Row| e.0 == EntryKind::Orphan) =~= Seq::<Row>::empty()) by {
            reveal(Seq::filter);
        }
    }
}

/// A dry run reports what a real run of the same plan and mode reports when
/// every copy writes its entry's size and passes its check and every
/// deletion succeeds: starting from zero, recording the copies of
/// `copy_entries` and the deletions of `delete_entries` gives the counters
/// of `dry_run_stats`.
pub proof fn lemma_dry_run_matches_clean_run(es: Seq<Row>, mode: SyncMode)
    ensures
        all_ok_deletes(all_ok_copies((0, 0, 0, 0), copy_rows(es)), delete_rows(es, mode).len()) == (
            count_kind(es, EntryKind::New) + count_kind(es, EntryKind::Modified),
            if mode == SyncMode::Mirror { count_kind(es, EntryKind::Orphan) } else { 0 },
            0nat,
            transfer_spec(es),
        ),
{
    lemma_all_ok_copies(es);
    lemma_orphan_rows_len(es);
    lemma_all_ok_deletes(all_ok_copies((0, 0, 0, 0), copy_rows(es)), delete_rows(es, mode).len());
}


/// The counters after recording the copy outcomes `outs` in order, each as
/// `record_copy` does (`outcome_view` of each outcome).
pub open spec fn run_copies(s: StatsV, outs: Seq<Option<(nat, bool)>>) -> StatsV
    decreases outs.len(),
{
    if outs.len() == 0 {
        s
    } else {
        after_copy(run_copies(s, outs.drop_last()), outs.last())
    }
}

/// The counters after recording the deletion results `oks` in order, each
/// as `record_delete` does.
pub open spec fn run_deletes(s: StatsV, oks: Seq<bool>) -> StatsV
    decreases oks.len(),
{
    if oks.len() == 0 {
        s
    } else {
        after_delete(run_deletes(s, oks.drop_last()), oks.last())
    }
}

/// Copies that were written and passed their check.
pub open spec fn good_copies(outs: Seq<Option<(nat, bool)>>) -> nat
    decreases outs.len(),
{
    if outs.len() == 0 {
        0
    } else {
        good_copies(outs.drop_last()) + if outs.last() matches Some((_, true)) { 1nat } else { 0nat }
    }
}

/// Bytes of the copies that were written and passed their check.
pub open spec fn good_bytes(outs: Seq<Option<(nat, bool)>>) -> nat
    decreases outs.len(),
{
    if outs.len() == 0 {
        0
    } else {
        good_bytes(outs.drop_last()) + match outs.last() {
            Some((b, true)) => b,
            _ => 0nat,
        }
    }
}

/// Deletions that succeeded.
pub open spec fn good_deletes(oks: Seq<bool>) -> nat
    decreases oks.len(),
{
    if oks.len() == 0 {
        0
    } else {
        good_deletes(oks.drop_last()) + if oks.last() { 1nat } else { 0nat }
    }
}

proof fn lemma_run_copies(outs: Seq<Option<(nat, bool)>>)
    ensures
        run_copies((0, 0, 0, 0), outs) == (good_copies(outs), 0nat, (outs.len() - good_copies(outs)) as nat, good_bytes(outs)),
        good_copies(outs) <= outs.len(),
    decreases outs.len(),
{
    if outs.len() > 0 {
        lemma_run_copies(outs.drop_last());
    }
}

proof fn lemma_run_deletes(s: StatsV, oks: Seq<bool>)
    ensures
        run_deletes(s, oks) == (s.0, s.1 + good_deletes(oks), (s.2 + (oks.len() - good_deletes(oks))) as nat, s.3),
        good_deletes(oks) <= oks.len(),
    decreases oks.len(),
{
    if oks.len() > 0 {
        lemma_run_deletes(s, oks.drop_last());
    }
}

/// Every file a run handles is counted once, whatever fails: starting from
/// zero and recording the copy outcomes `outs` and then the deletion
/// results `oks`, the run counts as copied the copies written and checked,
/// as deleted the deletions that succeeded, as failed every other copy and
/// deletion, and as written the bytes of the counted copies.
pub proof fn lemma_run_accounting(outs: Seq<Option<(nat, bool)>>, oks: Seq<bool>)
    ensures
        ({
            let s = run_deletes(run_copies((0, 0, 0, 0), outs), oks);
            &&& s == (
                good_copies(outs),
                good_deletes(oks),
                ((outs.len() - good_copies(outs)) + (oks.len() - good_deletes(oks))) as nat,
                good_bytes(outs),
            )
            &&& s.0 + s.1 + s.2 == outs.len() + oks.len()
        }),
{
    lemma_run_copies(outs);
    lemma_run_deletes(run_copies((0, 0, 0, 0), outs), oks);
}

// ── Manifest states ──────────────────────────────────────────────────────────

/// A manifest record as (path, state).
pub type Record = (Seq<char>, State);

pub open spec fn records(es: Seq<ManifestEntry>) -> Seq<Record> {
    es.map_values(|e: ManifestEntry| (e.path@, e.state))
}

/// The state each path ends in after the records `rs`, in file order.
pub open spec fn last_states(rs: Seq<Record>) -> Map<Seq<char>, State>
    decreases rs.len(),
{
    if rs.len() == 0 {
        Map::empty()
    } else {
        last_states(rs.drop_last()).insert(rs.last().0, rs.last().1)
    }
}

/// No path occurs twice.
pub open spec fn distinct_paths(rs: Seq<Record>) -> bool {
    forall|i: int, j: int| 0 <= i < j < rs.len() ==> #[trigger] rs[i].0 != #[trigger] rs[j].0
}

/// The last written state for a path wins: after the records `rs`, a path
/// that occurs in them is in the state of its last record, and no other
/// path has a state.
pub proof fn lemma_last_state_wins(rs: Seq<Record>, j: int)
    requires
        0 <= j < rs.len(),
        forall|k: int| j < k < rs.len() ==> #[trigger] rs[k].0 != rs[j].0,
    ensures
        last_states(rs).contains_key(rs[j].0),
        last_states(rs)[rs[j].0] == rs[j].1,
    decreases rs.len(),
{
    if j < rs.len() - 1 {
        assert(rs.drop_last()[j] == rs[j]);
        assert forall|k: int| j < k < rs.drop_last().len() implies #[trigger] rs.drop_last()[k].0 != rs.drop_last()[j].0 by {
            assert(rs.drop_last()[k] == rs[k]);
        }
        lemma_last_state_wins(rs.drop_last(), j);
    }
}

/// Only paths that occur in the records have a state.
pub proof fn lemma_last_states_domain(rs: Seq<Record>, p: Seq<char>)
    ensures
        last_states(rs).contains_key(p) <==> exists|k: int| 0 <= k < rs.len() && #[trigger] rs[k].0 == p,
    decreases rs.len(),
{
    if rs.len() > 0 {
        lemma_last_states_domain(rs.drop_last(), p);
        if exists|k: int| 0 <= k < rs.drop_last().len() && #[trigger] rs.drop_last()[k].0 == p {
            let k = choose|k: int| 0 <= k < rs.drop_last().len() && #[trigger] rs.drop_last()[k].0 == p;
            assert(rs[k] == rs.drop_last()[k]);
        }
        if exists|k: int| 0 <= k < rs.len() && #[trigger] rs[k].0 == p {
            let k = choose|k: int| 0 <= k < rs.len() && #[trigger] rs[k].0 == p;
            if k < rs.len() - 1 {
                assert(rs.drop_last()[k] == rs[k]);
            }
        }
    }
}

/// Replacing the state of an existing path in records with distinct paths
/// replaces it in their map.
proof fn lemma_last_states_update(rs: Seq<Record>, i: int, s: State)
    requires
        0 <= i < rs.len(),
        distinct_paths(rs),
    ensures
        last_states(rs.update(i, (rs[i].0, s))) == last_states(rs).insert(rs[i].0, s),
    decreases rs.len(),
{
    let u = rs.update(i, (rs[i].0, s));
    if i == rs.len() - 1 {
        assert(u.drop_last() =~= rs.drop_last());
        assert(last_states(u) =~= last_states(rs).insert(rs[i].0, s));
    } else {
        assert(u.drop_last() =~= rs.drop_last().update(i, (rs[i].0, s)));
        assert(rs.drop_last()[i] == rs[i]);
        lemma_last_states_update(rs.drop_last(), i, s);
        assert(rs.last().0 != rs[i].0);
        assert(last_states(u) =~= last_states(rs).insert(rs[i].0, s));
    }
}

/// A manifest line that is the run's header rather than a file record: it
/// holds the key `type` with the value `header`. Inside a JSON string every
/// quote is escaped, so a record's path (even one named `type`) cannot
/// produce this text.
pub fn is_header_line(line: &str) -> (r: bool)
    ensures
        r == has_infix(line@, "\"type\":\"header\""@),
{
    contains(line, "\"type\":\"header\"")
}

/// The last state of each path among the manifest records `entries` (in
/// file order): one pair per path, in order of first appearance.
pub fn load_states(entries: &Vec<ManifestEntry>) -> (r: Vec<(String, State)>)
    ensures
        distinct_paths(r@.map_values(|p: (String, State)| (p.0@, p.1))),
        last_states(r@.map_values(|p: (String, State)| (p.0@, p.1))) == last_states(records(entries@)),
{
    let ghost rs = records(entries@);
    let mut out: Vec<(String, State)> = Vec::new();
    let mut i: usize = 0;
    assert(rs.take(0) =~= Seq::<Record>::empty());
    assert(out@.map_values(|p: (String, State)| (p.0@, p.1)) =~= Seq::<Record>::empty());
    while i < entries.len()
        invariant
            0 <= i <= entries@.len(),
            rs == records(entries@),
            distinct_paths(out@.map_values(|p: (String, State)| (p.0@, p.1))),
            last_states(out@.map_values(|p: (String, State)| (p.0@, p.1))) == last_states(rs.take(i as int)),
        decreases entries@.len() - i,
    {
        let ghost ov = out@.map_values(|p: (String, State)| (p.0@, p.1));
        assert(rs.take(i as int + 1).drop_last() =~= rs.take(i as int));
        assert(rs[i as int] == (entries@[i as int].path@, entries@[i as int].state));
        let e = &entries[i];
        let mut k: usize = 0;
        while k < out.len() && !str_eq(out[k].0.as_str(), e.path.as_str())
            invariant
                0 <= k <= out@.len(),
                ov == out@.map_values(|p: (String, State)| (p.0@, p.1)),
                forall|m: int| 0 <= m < k ==> #[trigger] ov[m].0 != e.path@,
            decreases out@.len() - k,
        {
            assert(ov[k as int] == (out@[k as int].0@, out@[k as int].1));
            k += 1;
        }
        if k < out.len() {
            assert(ov[k as int] == (out@[k as int].0@, out@[k as int].1));
            let path = out[k].0.clone();
            out.set(k, (path, e.state));
            proof {
                lemma_last_states_update(ov, k as int, e.state);
                assert(out@.map_values(|p: (String, State)| (p.0@, p.1)) =~= ov.update(k as int, (ov[k as int].0, e.state)));
            }
        } else {
            out.push((e.path.clone(), e.state));
            assert(out@.map_values(|p: (String, State)| (p.0@, p.1)) =~= ov.push((e.path@, e.state)));
            assert(ov.push((e.path@, e.state)).drop_last() =~= ov);
        }
        i += 1;
    }
    assert(rs.take(i as int) =~= rs);
    out
}

} // verus!
