//! Merge-join of a source listing against a destination listing.

use vstd::prelude::*;

use crate::config::Verify;
use crate::diff::plan::{
    count_kind, clone_opt, opt_view, Entry as PlanEntry, EntryKind, Plan, Row,
};
use crate::diff::walker::Entry as WalkEntry;
use crate::paths::{order_paths, path_order};

verus! {

/// FAT32 stores modification times with 2 s granularity: times up to 2 s
/// apart count as equal.
pub const MTIME_TOLERANCE_NS: i128 = 2_000_000_000;

/// `|a - b| <= 2 s`.
pub open spec fn mtime_close(a: i128, b: i128) -> bool {
    -(MTIME_TOLERANCE_NS as int) <= a - b <= MTIME_TOLERANCE_NS as int
}

/// `a - b` and its absolute value are representable as `i128`.
pub open spec fn diff_fits(a: i128, b: i128) -> bool {
    i128::MIN < a - b <= i128::MAX
}

pub open spec fn same_size_mtime_spec(s: WalkEntry, d: WalkEntry) -> bool {
    s.size == d.size && mtime_close(s.mtime_ns, d.mtime_ns)
}

/// Kind of a path present on both sides.
pub open spec fn classify_spec(s: WalkEntry, d: WalkEntry, verify: Verify) -> EntryKind {
    match verify {
        Verify::Off => EntryKind::Same,
        Verify::SizeMtime => if same_size_mtime_spec(s, d) {
            EntryKind::Same
        } else {
            EntryKind::Modified
        },
        Verify::Checksum => if s.size != d.size {
            EntryKind::Modified
        } else {
            match (s.hash, d.hash) {
                (Some(a), Some(b)) => if a@ == b@ {
                    EntryKind::Same
                } else {
                    EntryKind::Modified
                },
                _ => if mtime_close(s.mtime_ns, d.mtime_ns) {
                    EntryKind::Same
                } else {
                    EntryKind::Modified
                },
            }
        },
    }
}

/// Whether classifying `s` against `d` looks at their modification times.
pub open spec fn uses_mtime(s: WalkEntry, d: WalkEntry, verify: Verify) -> bool {
    match verify {
        Verify::Off => false,
        Verify::SizeMtime => s.size == d.size,
        Verify::Checksum => s.size == d.size && !(s.hash is Some && d.hash is Some),
    }
}

pub open spec fn new_row(s: WalkEntry) -> Row {
    (EntryKind::New, s.rel@, s.size, opt_view(s.src_ext))
}

pub open spec fn orphan_row(d: WalkEntry) -> Row {
    (EntryKind::Orphan, d.rel@, d.size, None)
}

pub open spec fn matched_row(s: WalkEntry, d: WalkEntry, verify: Verify) -> Row {
    (classify_spec(s, d, verify), s.rel@, s.size, opt_view(s.src_ext))
}

/// The plan for `src` against `dst`: walk both lists in step, ordered by
/// `camino` path order; a source path before the destination's is new, a
/// destination path before the source's is an orphan, equal paths are
/// classified; what is left of either list is new or orphan.
pub open spec fn merge(src: Seq<WalkEntry>, dst: Seq<WalkEntry>, verify: Verify) -> Seq<Row>
    decreases src.len() + dst.len(),
{
    if src.len() == 0 {
        dst.map_values(|d: WalkEntry| orphan_row(d))
    } else if dst.len() == 0 {
        src.map_values(|s: WalkEntry| new_row(s))
    } else {
        let o = path_order(src[0].rel@, dst[0].rel@);
        if o < 0 {
            seq![new_row(src[0])] + merge(src.drop_first(), dst, verify)
        } else if o > 0 {
            seq![orphan_row(dst[0])] + merge(src, dst.drop_first(), verify)
        } else {
            seq![matched_row(src[0], dst[0], verify)] + merge(
                src.drop_first(),
                dst.drop_first(),
                verify,
            )
        }
    }
}

/// Entries strictly ascending in camino's path order, as a walk returns
/// them.
pub open spec fn path_sorted(s: Seq<WalkEntry>) -> bool {
    forall|i: int, j: int| 0 <= i < j < s.len() ==> path_order(#[trigger] s[i].rel@, #[trigger] s[j].rel@) < 0
}

/// Plan rows strictly ascending in camino's path order.
pub open spec fn rows_ascending(rows: Seq<Row>) -> bool {
    forall|i: int, j: int| 0 <= i < j < rows.len() ==> path_order(#[trigger] rows[i].1, #[trigger] rows[j].1) < 0
}

/// Every pair of entries that `merge` classifies by modification time has a
/// representable time difference.
pub open spec fn merge_fits(src: Seq<WalkEntry>, dst: Seq<WalkEntry>, verify: Verify) -> bool
    decreases src.len() + dst.len(),
{
    if src.len() == 0 || dst.len() == 0 {
        true
    } else {
        let o = path_order(src[0].rel@, dst[0].rel@);
        if o < 0 {
            merge_fits(src.drop_first(), dst, verify)
        } else if o > 0 {
            merge_fits(src, dst.drop_first(), verify)
        } else {
            (uses_mtime(src[0], dst[0], verify) ==> diff_fits(src[0].mtime_ns, dst[0].mtime_ns))
                && merge_fits(src.drop_first(), dst.drop_first(), verify)
        }
    }
}

fn same_mtime(src: &WalkEntry, dst: &WalkEntry) -> (r: bool)
    requires
        diff_fits(src.mtime_ns, dst.mtime_ns),
    ensures
        r == mtime_close(src.mtime_ns, dst.mtime_ns),
{
    let d = src.mtime_ns - dst.mtime_ns;
    let a = if d < 0 {
        -d
    } else {
        d
    };
    a <= MTIME_TOLERANCE_NS
}

fn same_size_mtime(src: &WalkEntry, dst: &WalkEntry) -> (r: bool)
    requires
        src.size == dst.size ==> diff_fits(src.mtime_ns, dst.mtime_ns),
    ensures
        r == same_size_mtime_spec(*src, *dst),
{
    if src.size != dst.size {
        return false;
    }
    same_mtime(src, dst)
}

fn same_hash(a: &[u8; 32], b: &[u8; 32]) -> (r: bool)
    ensures
        r == (a@ == b@),
{
    let mut i: usize = 0;
    while i < 32
        invariant
            0 <= i <= 32,
            a@.len() == 32,
            b@.len() == 32,
            forall|k: int| 0 <= k < i ==> a@[k] == b@[k],
        decreases 32 - i,
    {
        if a[i] != b[i] {
            return false;
        }
        i += 1;
    }
    assert(a@ =~= b@);
    true
}

fn classify(src: &WalkEntry, dst: &WalkEntry, verify: Verify) -> (r: EntryKind)
    requires
        uses_mtime(*src, *dst, verify) ==> diff_fits(src.mtime_ns, dst.mtime_ns),
    ensures
        r == classify_spec(*src, *dst, verify),
{
    match verify {
        Verify::Off => EntryKind::Same,
        Verify::SizeMtime => {
            if same_size_mtime(src, dst) {
                EntryKind::Same
            } else {
                EntryKind::Modified
            }
        },
        Verify::Checksum => {
            if src.size != dst.size {
                return EntryKind::Modified;
            }
            match (&src.hash, &dst.hash) {
                (Some(sh), Some(dh)) => {
                    if same_hash(sh, dh) {
                        EntryKind::Same
                    } else {
                        EntryKind::Modified
                    }
                },
                _ => {
                    if same_mtime(src, dst) {
                        EntryKind::Same
                    } else {
                        EntryKind::Modified
                    }
                },
            }
        },
    }
}

fn entry_new(s: &WalkEntry) -> (r: PlanEntry)
    ensures
        r@ == new_row(*s),
{
    PlanEntry {
        kind: EntryKind::New,
        path: s.rel.clone(),
        size_bytes: s.size,
        transcode_from: clone_opt(&s.src_ext),
    }
}

fn entry_orphan(d: &WalkEntry) -> (r: PlanEntry)
    ensures
        r@ == orphan_row(*d),
{
    PlanEntry { kind: EntryKind::Orphan, path: d.rel.clone(), size_bytes: d.size, transcode_from: None }
}

proof fn lemma_merge_tail_src(src: Seq<WalkEntry>, dst: Seq<WalkEntry>, verify: Verify)
    requires
        dst.len() == 0,
        src.len() > 0,
    ensures
        merge(src, dst, verify) == seq![new_row(src[0])] + merge(src.drop_first(), dst, verify),
{
    assert(merge(src, dst, verify) =~= seq![new_row(src[0])] + src.drop_first().map_values(
        |s: WalkEntry| new_row(s),
    ));
}

proof fn lemma_merge_tail_dst(src: Seq<WalkEntry>, dst: Seq<WalkEntry>, verify: Verify)
    requires
        src.len() == 0,
        dst.len() > 0,
    ensures
        merge(src, dst, verify) == seq![orphan_row(dst[0])] + merge(src, dst.drop_first(), verify),
{
    assert(merge(src, dst, verify) =~= seq![orphan_row(dst[0])] + dst.drop_first().map_values(
        |d: WalkEntry| orphan_row(d),
    ));
}

/// Produces the plan for `src` against `dst` (see `merge`). Both lists are
/// expected sorted by path, as a walk returns them; each source entry then
/// yields exactly one new, modified or same entry and each destination entry
/// exactly one orphan or a match (`lemma_merge_accounts`).
pub fn compare(src: &[WalkEntry], dst: &[WalkEntry], verify: Verify) -> (r: Plan)
    requires
        merge_fits(src@, dst@, verify),
    ensures
        r@ == merge(src@, dst@, verify),
        r.warnings@.len() == 0,
        path_sorted(src@) && path_sorted(dst@) ==> rows_ascending(r@),
{
    let mut entries: Vec<PlanEntry> = Vec::new();
    let mut si: usize = 0;
    let mut di: usize = 0;
    let ghost whole = merge(src@, dst@, verify);
    let ghost sorted = path_sorted(src@) && path_sorted(dst@);
    assert(src@.skip(0) =~= src@);
    assert(dst@.skip(0) =~= dst@);
    while si < src.len() || di < dst.len()
        invariant
            0 <= si <= src@.len(),
            0 <= di <= dst@.len(),
            whole == merge(src@, dst@, verify),
            merge_fits(src@.skip(si as int), dst@.skip(di as int), verify),
            entries@.map_values(|e: PlanEntry| e@) + merge(
                src@.skip(si as int),
                dst@.skip(di as int),
                verify,
            ) == whole,
            sorted == (path_sorted(src@) && path_sorted(dst@)),
            sorted ==> rows_ascending(entries@.map_values(|e: PlanEntry| e@)),
            sorted ==> forall|i: int, k: int|
                0 <= i < entries@.len() && si <= k < src@.len() ==> path_order(
                    (#[trigger] entries@[i])@.1,
                    (#[trigger] src@[k]).rel@,
                ) < 0,
            sorted ==> forall|i: int, k: int|
                0 <= i < entries@.len() && di <= k < dst@.len() ==> path_order(
                    (#[trigger] entries@[i])@.1,
                    (#[trigger] dst@[k]).rel@,
                ) < 0,
        decreases src@.len() - si + dst@.len() - di,
    {
        let ghost s = src@.skip(si as int);
        let ghost d = dst@.skip(di as int);
        let ghost before = entries@.map_values(|e: PlanEntry| e@);
        proof {
            if si < src@.len() {
                assert(s.drop_first() =~= src@.skip(si as int + 1));
            }
            if di < dst@.len() {
                assert(d.drop_first() =~= dst@.skip(di as int + 1));
            }
        }
        if si < src.len() && di < dst.len() {
            let o = order_paths(src[si].rel.as_str(), dst[di].rel.as_str());
            if o < 0 {
                entries.push(entry_new(&src[si]));
                si += 1;
            } else if o > 0 {
                entries.push(entry_orphan(&dst[di]));
                di += 1;
            } else {
                let kind = classify(&src[si], &dst[di], verify);
                entries.push(
                    PlanEntry {
                        kind,
                        path: src[si].rel.clone(),
                        size_bytes: src[si].size,
                        transcode_from: clone_opt(&src[si].src_ext),
                    },
                );
                si += 1;
                di += 1;
            }
        } else if si < src.len() {
            proof {
                lemma_merge_tail_src(s, d, verify);
            }
            entries.push(entry_new(&src[si]));
            si += 1;
        } else {
            proof {
                lemma_merge_tail_dst(s, d, verify);
            }
            entries.push(entry_orphan(&dst[di]));
            di += 1;
        }
        assert(entries@.map_values(|e: PlanEntry| e@) =~= before.push(
            entries@[entries@.len() - 1]@,
        ));
        assert(before.push(entries@[entries@.len() - 1]@) + merge(
            src@.skip(si as int),
            dst@.skip(di as int),
            verify,
        ) =~= before + (seq![entries@[entries@.len() - 1]@] + merge(
            src@.skip(si as int),
            dst@.skip(di as int),
            verify,
        )));
    }
    assert(src@.skip(si as int) =~= Seq::<WalkEntry>::empty());
    assert(dst@.skip(di as int) =~= Seq::<WalkEntry>::empty());
    assert(merge(src@.skip(si as int), dst@.skip(di as int), verify) =~= Seq::<Row>::empty());
    assert(entries@.map_values(|e: PlanEntry| e@) =~= whole);
    Plan::new(entries)
}

// ── Laws ─────────────────────────────────────────────────────────────────────

pub proof fn lemma_count_kind_concat(a: Seq<Row>, b: Seq<Row>, kind: EntryKind)
    ensures
        count_kind(a + b, kind) == count_kind(a, kind) + count_kind(b, kind),
    decreases b.len(),
{
    if b.len() == 0 {
        assert(a + b =~= a);
    } else {
        lemma_count_kind_concat(a, b.drop_last(), kind);
        assert((a + b).drop_last() =~= a + b.drop_last());
    }
}

proof fn lemma_count_single(x: Row, kind: EntryKind)
    ensures
        count_kind(seq![x], kind) == if x.0 == kind { 1nat } else { 0nat },
{
    assert(seq![x].drop_last() =~= Seq::<Row>::empty());
    assert(count_kind(Seq::<Row>::empty(), kind) == 0);
    assert(seq![x].last() == x);
}

proof fn lemma_count_map_new(s: Seq<WalkEntry>)
    ensures
        count_kind(s.map_values(|x: WalkEntry| new_row(x)), EntryKind::New) == s.len(),
        count_kind(s.map_values(|x: WalkEntry| new_row(x)), EntryKind::Modified) == 0,
        count_kind(s.map_values(|x: WalkEntry| new_row(x)), EntryKind::Same) == 0,
        count_kind(s.map_values(|x: WalkEntry| new_row(x)), EntryKind::Orphan) == 0,
    decreases s.len(),
{
    if s.len() > 0 {
        lemma_count_map_new(s.drop_last());
        assert(s.map_values(|x: WalkEntry| new_row(x)).drop_last() =~= s.drop_last().map_values(
            |x: WalkEntry| new_row(x),
        ));
    }
}

proof fn lemma_count_map_orphan(s: Seq<WalkEntry>)
    ensures
        count_kind(s.map_values(|x: WalkEntry| orphan_row(x)), EntryKind::Orphan) == s.len(),
        count_kind(s.map_values(|x: WalkEntry| orphan_row(x)), EntryKind::Modified) == 0,
        count_kind(s.map_values(|x: WalkEntry| orphan_row(x)), EntryKind::Same) == 0,
        count_kind(s.map_values(|x: WalkEntry| orphan_row(x)), EntryKind::New) == 0,
    decreases s.len(),
{
    if s.len() > 0 {
        lemma_count_map_orphan(s.drop_last());
        assert(s.map_values(|x: WalkEntry| orphan_row(x)).drop_last() =~= s.drop_last().map_values(
            |x: WalkEntry| orphan_row(x),
        ));
    }
}

/// Every source entry yields exactly one new, modified or same entry, and
/// every destination entry exactly one orphan or modified/same match.
pub proof fn lemma_merge_accounts(src: Seq<WalkEntry>, dst: Seq<WalkEntry>, verify: Verify)
    ensures
        count_kind(merge(src, dst, verify), EntryKind::New) + count_kind(
            merge(src, dst, verify),
            EntryKind::Modified,
        ) + count_kind(merge(src, dst, verify), EntryKind::Same) == src.len(),
        count_kind(merge(src, dst, verify), EntryKind::Orphan) + count_kind(
            merge(src, dst, verify),
            EntryKind::Modified,
        ) + count_kind(merge(src, dst, verify), EntryKind::Same) == dst.len(),
    decreases src.len() + dst.len(),
{
    if src.len() == 0 {
        lemma_count_map_orphan(dst);
    } else if dst.len() == 0 {
        lemma_count_map_new(src);
    } else {
        let o = path_order(src[0].rel@, dst[0].rel@);
        let (head, s2, d2) = if o < 0 {
            (new_row(src[0]), src.drop_first(), dst)
        } else if o > 0 {
            (orphan_row(dst[0]), src, dst.drop_first())
        } else {
            (matched_row(src[0], dst[0], verify), src.drop_first(), dst.drop_first())
        };
        lemma_merge_accounts(s2, d2, verify);
        assert(merge(src, dst, verify) == seq![head] + merge(s2, d2, verify));
        lemma_count_kind_concat(seq![head], merge(s2, d2, verify), EntryKind::New);
        lemma_count_kind_concat(seq![head], merge(s2, d2, verify), EntryKind::Modified);
        lemma_count_kind_concat(seq![head], merge(s2, d2, verify), EntryKind::Same);
        lemma_count_kind_concat(seq![head], merge(s2, d2, verify), EntryKind::Orphan);
        lemma_count_single(head, EntryKind::New);
        lemma_count_single(head, EntryKind::Modified);
        lemma_count_single(head, EntryKind::Same);
        lemma_count_single(head, EntryKind::Orphan);
    }
}

/// Without verification no path present on both sides is ever modified.
pub proof fn lemma_verify_off_never_modified(src: Seq<WalkEntry>, dst: Seq<WalkEntry>)
    ensures
        count_kind(merge(src, dst, Verify::Off), EntryKind::Modified) == 0,
    decreases src.len() + dst.len(),
{
    if src.len() == 0 {
        lemma_count_map_orphan(dst);
    } else if dst.len() == 0 {
        lemma_count_map_new(src);
    } else {
        let o = path_order(src[0].rel@, dst[0].rel@);
        let (head, s2, d2) = if o < 0 {
            (new_row(src[0]), src.drop_first(), dst)
        } else if o > 0 {
            (orphan_row(dst[0]), src, dst.drop_first())
        } else {
            (matched_row(src[0], dst[0], Verify::Off), src.drop_first(), dst.drop_first())
        };
        lemma_verify_off_never_modified(s2, d2);
        assert(merge(src, dst, Verify::Off) == seq![head] + merge(s2, d2, Verify::Off));
        lemma_count_kind_concat(seq![head], merge(s2, d2, Verify::Off), EntryKind::Modified);
        lemma_count_single(head, EntryKind::Modified);
    }
}

/// Every modification time of `es` lies within half the `i128` range, so
/// that any difference of two of them is representable.
pub open spec fn mtimes_moderate(es: Seq<WalkEntry>) -> bool {
    forall|k: int| 0 <= k < es.len() ==> -0x4000_0000_0000_0000_0000_0000_0000_0000 <= #[trigger] es[k].mtime_ns
        <= 0x3fff_ffff_ffff_ffff_ffff_ffff_ffff_ffff
}

proof fn lemma_moderate_fits(src: Seq<WalkEntry>, dst: Seq<WalkEntry>, verify: Verify)
    requires
        mtimes_moderate(src),
        mtimes_moderate(dst),
    ensures
        merge_fits(src, dst, verify),
    decreases src.len() + dst.len(),
{
    if src.len() > 0 && dst.len() > 0 {
        assert(mtimes_moderate(src.drop_first())) by {
            assert forall|k: int| 0 <= k < src.drop_first().len() implies -0x4000_0000_0000_0000_0000_0000_0000_0000
                <= #[trigger] src.drop_first()[k].mtime_ns <= 0x3fff_ffff_ffff_ffff_ffff_ffff_ffff_ffff by {
                assert(src.drop_first()[k] == src[k + 1]);
            }
        }
        assert(mtimes_moderate(dst.drop_first())) by {
            assert forall|k: int| 0 <= k < dst.drop_first().len() implies -0x4000_0000_0000_0000_0000_0000_0000_0000
                <= #[trigger] dst.drop_first()[k].mtime_ns <= 0x3fff_ffff_ffff_ffff_ffff_ffff_ffff_ffff by {
                assert(dst.drop_first()[k] == dst[k + 1]);
            }
        }
        assert(src[0].mtime_ns == src[0].mtime_ns);
        assert(dst[0].mtime_ns == dst[0].mtime_ns);
        lemma_moderate_fits(src.drop_first(), dst, verify);
        lemma_moderate_fits(src, dst.drop_first(), verify);
        lemma_moderate_fits(src.drop_first(), dst.drop_first(), verify);
    }
}

fn all_moderate(es: &[WalkEntry]) -> (r: bool)
    ensures
        r == mtimes_moderate(es@),
{
    let mut i: usize = 0;
    while i < es.len()
        invariant
            0 <= i <= es@.len(),
            forall|k: int| 0 <= k < i ==> -0x4000_0000_0000_0000_0000_0000_0000_0000 <= #[trigger] es@[k].mtime_ns
                <= 0x3fff_ffff_ffff_ffff_ffff_ffff_ffff_ffff,
        decreases es@.len() - i,
    {
        let t = es[i].mtime_ns;
        if t < -0x4000_0000_0000_0000_0000_0000_0000_0000i128 || t > 0x3fff_ffff_ffff_ffff_ffff_ffff_ffff_ffffi128 {
            return false;
        }
        i += 1;
    }
    true
}

/// `compare` for lists whose modification times all lie within half the
/// `i128` range (nanoseconds since the epoch always do); `None` for lists
/// that hold a time outside it.
pub fn compare_checked(src: &[WalkEntry], dst: &[WalkEntry], verify: Verify) -> (r: Option<Plan>)
    ensures
        (mtimes_moderate(src@) && mtimes_moderate(dst@)) ==> (r matches Some(p) && p@ == merge(src@, dst@, verify)),
        !(mtimes_moderate(src@) && mtimes_moderate(dst@)) ==> r is None,
{
    if all_moderate(src) && all_moderate(dst) {
        proof {
            lemma_moderate_fits(src@, dst@, verify);
        }
        Some(compare(src, dst, verify))
    } else {
        None
    }
}

/// A row of `rows` with path `p`.
pub open spec fn has_path(rows: Seq<Row>, p: Seq<char>) -> bool {
    exists|i: int| 0 <= i < rows.len() && (#[trigger] rows[i]).1 == p
}

/// A row of `rows` whose path is `p` or equal to it in camino's order.
pub open spec fn has_path_like(rows: Seq<Row>, p: Seq<char>) -> bool {
    exists|i: int| 0 <= i < rows.len() && ((#[trigger] rows[i]).1 == p || path_order(rows[i].1, p) == 0)
}

/// `p` is the path of an entry of `src` or of `dst`.
pub open spec fn input_path(src: Seq<WalkEntry>, dst: Seq<WalkEntry>, p: Seq<char>) -> bool {
    (exists|k: int| 0 <= k < src.len() && (#[trigger] src[k]).rel@ == p) || (exists|k: int|
        0 <= k < dst.len() && (#[trigger] dst[k]).rel@ == p)
}

/// The plan's paths are the union of both lists: every source path is a
/// row, every destination path is a row or is matched by one with an equal
/// path, and every row's path is a source or destination path.
pub proof fn lemma_merge_union(src: Seq<WalkEntry>, dst: Seq<WalkEntry>, verify: Verify)
    ensures
        forall|k: int| 0 <= k < src.len() ==> has_path(merge(src, dst, verify), #[trigger] src[k].rel@),
        forall|k: int| 0 <= k < dst.len() ==> has_path_like(merge(src, dst, verify), #[trigger] dst[k].rel@),
        forall|i: int|
            0 <= i < merge(src, dst, verify).len() ==> input_path(src, dst, (#[trigger] merge(src, dst, verify)[i]).1),
    decreases src.len() + dst.len(),
{
    let m = merge(src, dst, verify);
    if src.len() == 0 {
        assert forall|k: int| 0 <= k < dst.len() implies has_path_like(m, #[trigger] dst[k].rel@) by {
            assert(m[k].1 == dst[k].rel@);
        }
        assert forall|i: int| 0 <= i < m.len() implies input_path(src, dst, (#[trigger] m[i]).1) by {
            assert(dst[i].rel@ == m[i].1);
        }
    } else if dst.len() == 0 {
        assert forall|k: int| 0 <= k < src.len() implies has_path(m, #[trigger] src[k].rel@) by {
            assert(m[k].1 == src[k].rel@);
        }
        assert forall|i: int| 0 <= i < m.len() implies input_path(src, dst, (#[trigger] m[i]).1) by {
            assert(src[i].rel@ == m[i].1);
        }
    } else {
        let o = path_order(src[0].rel@, dst[0].rel@);
        let s2 = if o <= 0 { src.drop_first() } else { src };
        let d2 = if o >= 0 { dst.drop_first() } else { dst };
        let head = if o < 0 {
            new_row(src[0])
        } else if o > 0 {
            orphan_row(dst[0])
        } else {
            matched_row(src[0], dst[0], verify)
        };
        let t = merge(s2, d2, verify);
        lemma_merge_union(s2, d2, verify);
        assert(m == seq![head] + t);
        assert forall|k: int| 0 <= k < src.len() implies has_path(m, #[trigger] src[k].rel@) by {
            if k == 0 && o <= 0 {
                assert(m[0].1 == src[0].rel@);
            } else {
                let k2 = if o <= 0 { k - 1 } else { k };
                assert(s2[k2] == src[k]);
                assert(has_path(t, s2[k2].rel@));
                let i = choose|i: int| 0 <= i < t.len() && (#[trigger] t[i]).1 == s2[k2].rel@;
                assert(m[i + 1] == t[i]);
            }
        }
        assert forall|k: int| 0 <= k < dst.len() implies has_path_like(m, #[trigger] dst[k].rel@) by {
            if k == 0 && o >= 0 {
                assert(m[0].1 == dst[0].rel@ || path_order(m[0].1, dst[0].rel@) == 0);
            } else {
                let k2 = if o >= 0 { k - 1 } else { k };
                assert(d2[k2] == dst[k]);
                assert(has_path_like(t, d2[k2].rel@));
                let i = choose|i: int| 0 <= i < t.len() && ((#[trigger] t[i]).1 == d2[k2].rel@ || path_order(
                    t[i].1,
                    d2[k2].rel@,
                ) == 0);
                assert(m[i + 1] == t[i]);
            }
        }
        assert forall|i: int| 0 <= i < m.len() implies input_path(src, dst, (#[trigger] m[i]).1) by {
            if i == 0 {
                if o <= 0 {
                    assert(src[0].rel@ == m[0].1);
                } else {
                    assert(dst[0].rel@ == m[0].1);
                }
            } else {
                assert(m[i] == t[i - 1]);
                assert(input_path(s2, d2, t[i - 1].1));
                if exists|k: int| 0 <= k < s2.len() && (#[trigger] s2[k]).rel@ == t[i - 1].1 {
                    let k = choose|k: int| 0 <= k < s2.len() && (#[trigger] s2[k]).rel@ == t[i - 1].1;
                    let k0 = if o <= 0 { k + 1 } else { k };
                    assert(src[k0] == s2[k]);
                } else {
                    let k = choose|k: int| 0 <= k < d2.len() && (#[trigger] d2[k]).rel@ == t[i - 1].1;
                    let k0 = if o >= 0 { k + 1 } else { k };
                    assert(dst[k0] == d2[k]);
                }
            }
        }
    }
}

/// Two files of the same path are the same under size-and-mtime checking
/// exactly when their sizes agree and their modification times are at most
/// two seconds apart, in either direction: the plan of one source entry
/// against one destination entry of equal path is one row, `Same` or
/// `Modified` accordingly, and swapping the two sides changes nothing.
pub proof fn lemma_size_mtime_tolerance(s: WalkEntry, d: WalkEntry)
    requires
        path_order(s.rel@, d.rel@) == 0,
    ensures
        merge(seq![s], seq![d], Verify::SizeMtime).len() == 1,
        merge(seq![s], seq![d], Verify::SizeMtime)[0].0 == (if s.size == d.size && -2_000_000_000 <= s.mtime_ns
            - d.mtime_ns <= 2_000_000_000 {
            EntryKind::Same
        } else {
            EntryKind::Modified
        }),
        classify_spec(s, d, Verify::SizeMtime) == classify_spec(d, s, Verify::SizeMtime),
        s.size == d.size && (s.mtime_ns - d.mtime_ns > 2_000_000_000 || d.mtime_ns - s.mtime_ns > 2_000_000_000)
            ==> classify_spec(s, d, Verify::SizeMtime) == EntryKind::Modified,
{
    let src = seq![s];
    let dst = seq![d];
    assert(src.drop_first() =~= Seq::<WalkEntry>::empty());
    assert(dst.drop_first() =~= Seq::<WalkEntry>::empty());
    assert(merge(src.drop_first(), dst.drop_first(), Verify::SizeMtime) =~= Seq::<Row>::empty());
    assert(merge(src, dst, Verify::SizeMtime) =~= seq![matched_row(s, d, Verify::SizeMtime)]);
}

/// Classifying a pair of files does not depend on which side each is on,
/// whatever the check.
pub proof fn lemma_classify_symmetric(s: WalkEntry, d: WalkEntry, verify: Verify)
    ensures
        classify_spec(s, d, verify) == classify_spec(d, s, verify),
{
}

/// What each check compares: without a check a file present on both sides
/// is the same; a size difference makes it modified under both other
/// checks; under the checksum check two known digests decide, and without
/// both digests the modification times decide with the two-second
/// tolerance.
pub proof fn lemma_classify_rules(s: WalkEntry, d: WalkEntry)
    ensures
        classify_spec(s, d, Verify::Off) == EntryKind::Same,
        s.size != d.size ==> classify_spec(s, d, Verify::SizeMtime) == EntryKind::Modified,
        s.size != d.size ==> classify_spec(s, d, Verify::Checksum) == EntryKind::Modified,
        s.size == d.size && s.hash is Some && d.hash is Some ==> (classify_spec(s, d, Verify::Checksum)
            == EntryKind::Same <==> s.hash->0@ == d.hash->0@),
        s.size == d.size && (s.hash is None || d.hash is None) ==> (classify_spec(s, d, Verify::Checksum)
            == EntryKind::Same <==> -2_000_000_000 <= s.mtime_ns - d.mtime_ns <= 2_000_000_000),
        classify_spec(s, d, Verify::SizeMtime) == EntryKind::Same || classify_spec(s, d, Verify::SizeMtime)
            == EntryKind::Modified,
{
}

} // verus!
