//! Comparing a source tree against a destination tree.

pub mod compare;
pub mod plan;
pub mod walker;

use vstd::prelude::*;

use crate::dap::Filesystem;
use crate::diff::plan::{Entry, EntryKind, PathWarning, PathWarningKind, Plan, Row};
use crate::paths::{components, path_components};

verus! {

/// Outcome of a full diff.
#[derive(Debug, Clone)]
pub struct DiffResult {
    pub plan: Plan,
    pub src_count: usize,
    pub dst_count: usize,
}

/// Length in bytes of the UTF-8 encoding of `s`, as `str::len` reports it.
pub open spec fn byte_len(s: Seq<char>) -> usize {
    vstd::utf8::encode_utf8(s).len() as usize
}

/// A warning as (path, kind, length, limit).
pub type WarnRow = (Seq<char>, PathWarningKind, nat, u32);

impl View for PathWarning {
    type V = WarnRow;

    open spec fn view(&self) -> WarnRow {
        (self.path@, self.kind, self.length_bytes as nat, self.limit_bytes)
    }
}

/// Index of the first component longer than `max` bytes, or `-1`.
pub open spec fn first_long(comps: Seq<Seq<char>>, max: u32, k: int) -> int
    decreases comps.len() - k,
{
    if k < 0 || k >= comps.len() {
        -1
    } else if byte_len(comps[k]) > max {
        k
    } else {
        first_long(comps, max, k + 1)
    }
}

pub open spec fn is_write(kind: EntryKind) -> bool {
    kind == EntryKind::New || kind == EntryKind::Modified
}

/// Length of `path` once placed under `music_root`: root, `/`, path.
pub open spec fn full_len(root: Seq<char>, path: Seq<char>) -> nat {
    (byte_len(root) + 1 + byte_len(path)) as nat
}

/// The warning for one plan entry, if any: a component over the filename
/// limit (the first such), else a full path over the path limit.
pub open spec fn warning_for(e: Row, fs: Filesystem, root: Seq<char>) -> Option<WarnRow> {
    if !is_write(e.0) {
        None
    } else {
        let comps = path_components(e.1);
        let k = first_long(comps, fs.max_filename_bytes, 0);
        if k >= 0 {
            Some((e.1, PathWarningKind::FilenameTooLong, byte_len(comps[k]) as nat, fs.max_filename_bytes))
        } else if full_len(root, e.1) > fs.max_path_bytes {
            Some((e.1, PathWarningKind::PathTooLong, full_len(root, e.1), fs.max_path_bytes))
        } else {
            None
        }
    }
}

/// Warnings for all entries, in entry order.
pub open spec fn warnings_spec(es: Seq<Row>, fs: Filesystem, root: Seq<char>) -> Seq<WarnRow>
    decreases es.len(),
{
    if es.len() == 0 {
        Seq::empty()
    } else {
        let prev = warnings_spec(es.drop_last(), fs, root);
        match warning_for(es.last(), fs, root) {
            Some(w) => prev.push(w),
            None => prev,
        }
    }
}

/// Lengths the check computes fit in `usize`.
pub open spec fn limits_fit(es: Seq<Row>, root: Seq<char>) -> bool {
    forall|k: int|
        0 <= k < es.len() && is_write(#[trigger] es[k].0) ==> full_len(root, es[k].1)
            <= usize::MAX
}

proof fn lemma_first_long(comps: Seq<Seq<char>>, max: u32, k: int)
    requires
        0 <= k <= comps.len(),
    ensures
        first_long(comps, max, k) == -1 || (k <= first_long(comps, max, k) < comps.len()),
    decreases comps.len() - k,
{
    if k < comps.len() && byte_len(comps[k]) <= max {
        lemma_first_long(comps, max, k + 1);
    }
}

/// Checks every new or modified entry against the filesystem limits of the
/// DAP: one warning per offending entry, a component longer than
/// `max_filename_bytes` taking precedence over a full path (music root, `/`,
/// relative path) longer than `max_path_bytes`.
pub fn check_path_limits(entries: &[Entry], filesystem: &Filesystem, music_root: &str) -> (r: Vec<
    PathWarning,
>)
    requires
        limits_fit(entries@.map_values(|e: Entry| e@), music_root@),
    ensures
        r@.map_values(|w: PathWarning| w@) == warnings_spec(
            entries@.map_values(|e: Entry| e@),
            *filesystem,
            music_root@,
        ),
{
    let ghost es = entries@.map_values(|e: Entry| e@);
    let mut warnings: Vec<PathWarning> = Vec::new();
    let mut i: usize = 0;
    while i < entries.len()
        invariant
            0 <= i <= entries@.len(),
            es == entries@.map_values(|e: Entry| e@),
            limits_fit(es, music_root@),
            warnings@.map_values(|w: PathWarning| w@) == warnings_spec(
                es.take(i as int),
                *filesystem,
                music_root@,
            ),
        decreases entries@.len() - i,
    {
        let entry = &entries[i];
        let ghost e = es[i as int];
        assert(e == entry@);
        assert(es.take(i as int + 1).drop_last() =~= es.take(i as int));
        assert(es.take(i as int + 1).last() == e);
        let ghost before = warnings@.map_values(|w: PathWarning| w@);
        if !(entry.kind == EntryKind::New || entry.kind == EntryKind::Modified) {
            i += 1;
            continue;
        }
        let comps = components(entry.path.as_str());
        let ghost cs = path_components(entry.path@);
        let mut k: usize = 0;
        while k < comps.len() && comps[k].as_str().len() <= filesystem.max_filename_bytes as usize
            invariant
                0 <= k <= comps@.len(),
                cs == comps@.map_values(|c: String| c@),
                first_long(cs, filesystem.max_filename_bytes, 0) == first_long(
                    cs,
                    filesystem.max_filename_bytes,
                    k as int,
                ),
            decreases comps@.len() - k,
        {
            assert(cs[k as int] == comps@[k as int]@);
            k += 1;
        }
        proof {
            lemma_first_long(cs, filesystem.max_filename_bytes, 0);
            if k < comps@.len() {
                assert(cs[k as int] == comps@[k as int]@);
            }
        }
        if k < comps.len() {
            warnings.push(
                PathWarning {
                    path: entry.path.clone(),
                    kind: PathWarningKind::FilenameTooLong,
                    length_bytes: comps[k].as_str().len(),
                    limit_bytes: filesystem.max_filename_bytes,
                },
            );
        } else {
            assert(is_write(es[i as int].0));
            assert(full_len(music_root@, e.1) <= usize::MAX);
            let full = music_root.len() + 1 + entry.path.as_str().len();
            if full > filesystem.max_path_bytes as usize {
                warnings.push(
                    PathWarning {
                        path: entry.path.clone(),
                        kind: PathWarningKind::PathTooLong,
                        length_bytes: full,
                        limit_bytes: filesystem.max_path_bytes,
                    },
                );
            }
        }
        assert(warnings@.map_values(|w: PathWarning| w@) =~= warnings_spec(
            es.take(i as int + 1),
            *filesystem,
            music_root@,
        ));
        i += 1;
    }
    assert(es.take(i as int) =~= es);
    warnings
}

} // verus!
