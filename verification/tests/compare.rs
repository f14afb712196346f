use dapctl::config::Verify;
use dapctl::diff::compare::compare;
use dapctl::diff::plan::EntryKind;
use dapctl::diff::walker::{sort_by_path, Entry as WalkEntry};

fn entry(path: &str, size: u64, mtime_ns: i128) -> WalkEntry {
    WalkEntry { rel: path.to_owned(), size, mtime_ns, hash: None, src_ext: None }
}

fn entry_hashed(path: &str, size: u64, data: &[u8]) -> WalkEntry {
    let hash = Some(*blake3::hash(data).as_bytes());
    WalkEntry { rel: path.to_owned(), size, mtime_ns: 0, hash, src_ext: None }
}

const T: i128 = 1_000_000_000_000; // arbitrary base timestamp

#[test]
fn empty_both_produces_empty_plan() {
    let plan = compare(&[], &[], Verify::SizeMtime);
    assert!(plan.entries.is_empty());
}

#[test]
fn all_new_when_dst_empty() {
    let src = vec![entry("a.flac", 100, T), entry("b.flac", 200, T)];
    let plan = compare(&src, &[], Verify::SizeMtime);
    assert_eq!(plan.count(EntryKind::New), 2);
    assert_eq!(plan.count(EntryKind::Orphan), 0);
}

#[test]
fn all_orphan_when_src_empty() {
    let dst = vec![entry("a.flac", 100, T), entry("b.flac", 200, T)];
    let plan = compare(&[], &dst, Verify::SizeMtime);
    assert_eq!(plan.count(EntryKind::Orphan), 2);
    assert_eq!(plan.count(EntryKind::New), 0);
}

#[test]
fn identical_entries_are_same() {
    let src = vec![entry("a.flac", 100, T)];
    let dst = vec![entry("a.flac", 100, T)];
    let plan = compare(&src, &dst, Verify::SizeMtime);
    assert_eq!(plan.count(EntryKind::Same), 1);
}

#[test]
fn different_size_is_modified() {
    let src = vec![entry("a.flac", 200, T)];
    let dst = vec![entry("a.flac", 100, T)];
    let plan = compare(&src, &dst, Verify::SizeMtime);
    assert_eq!(plan.count(EntryKind::Modified), 1);
}

#[test]
fn mtime_diff_beyond_tolerance_is_modified() {
    // 3 seconds apart — exceeds the 2 s FAT32 tolerance.
    let src = vec![entry("a.flac", 100, T + 3_000_000_001)];
    let dst = vec![entry("a.flac", 100, T)];
    let plan = compare(&src, &dst, Verify::SizeMtime);
    assert_eq!(plan.count(EntryKind::Modified), 1);
}

#[test]
fn mtime_diff_within_fat32_tolerance_is_same() {
    // 2 seconds apart — within FAT32 granularity, treated as Same.
    let src = vec![entry("a.flac", 100, T + 2_000_000_000)];
    let dst = vec![entry("a.flac", 100, T)];
    let plan = compare(&src, &dst, Verify::SizeMtime);
    assert_eq!(plan.count(EntryKind::Same), 1);
}

#[test]
fn verify_none_always_same() {
    // Even with different sizes, no verification never marks Modified.
    let src = vec![entry("a.flac", 999, T + 10_000_000_000)];
    let dst = vec![entry("a.flac", 100, T)];
    let plan = compare(&src, &dst, Verify::Off);
    assert_eq!(plan.count(EntryKind::Same), 1);
    assert_eq!(plan.count(EntryKind::Modified), 0);
}

#[test]
fn mixed_plan_counts_correctly() {
    let src = vec![
        entry("album/01.flac", 100, T), // Same
        entry("album/02.flac", 200, T), // Modified (size change)
        entry("album/03.flac", 300, T), // New
    ];
    let dst = vec![
        entry("album/01.flac", 100, T), // Same
        entry("album/02.flac", 150, T), // → Modified
        entry("album/04.flac", 400, T), // Orphan
    ];
    let plan = compare(&src, &dst, Verify::SizeMtime);
    assert_eq!(plan.count(EntryKind::New), 1, "new");
    assert_eq!(plan.count(EntryKind::Modified), 1, "modified");
    assert_eq!(plan.count(EntryKind::Orphan), 1, "orphan");
    assert_eq!(plan.count(EntryKind::Same), 1, "same");
}

#[test]
fn checksum_same_hash_is_same() {
    let data = b"identical content";
    let src = vec![entry_hashed("a.flac", data.len() as u64, data)];
    let dst = vec![entry_hashed("a.flac", data.len() as u64, data)];
    let plan = compare(&src, &dst, Verify::Checksum);
    assert_eq!(plan.count(EntryKind::Same), 1);
    assert_eq!(plan.count(EntryKind::Modified), 0);
}

#[test]
fn checksum_different_hash_same_size_is_modified() {
    let src = vec![entry_hashed("a.flac", 10, b"source data")];
    let dst = vec![entry_hashed("a.flac", 10, b"dest__data")];
    let plan = compare(&src, &dst, Verify::Checksum);
    assert_eq!(plan.count(EntryKind::Modified), 1);
}

#[test]
fn checksum_no_hashes_falls_back_to_mtime() {
    // Without hashes, checksum verification behaves like size+mtime.
    let src = vec![entry("a.flac", 100, T + 5_000_000_000)];
    let dst = vec![entry("a.flac", 100, T)];
    let plan = compare(&src, &dst, Verify::Checksum);
    assert_eq!(plan.count(EntryKind::Modified), 1);
}

#[test]
fn transfer_bytes_counts_new_and_modified_only() {
    let src = vec![
        entry("new.flac", 500, T),
        entry("modified.flac", 300, T + 5_000_000_000),
        entry("same.flac", 100, T),
    ];
    let dst = vec![
        entry("modified.flac", 300, T),
        entry("orphan.flac", 200, T),
        entry("same.flac", 100, T),
    ];
    let plan = compare(&src, &dst, Verify::SizeMtime);
    // transfer_bytes = new(500) + modified(300)
    assert_eq!(plan.transfer_bytes(), 800);
}

// ── Further cases ───────────────────────────────────────────────────────────

#[test]
fn compare_keeps_path_order_and_sizes() {
    let src = vec![entry("a/1.flac", 10, T), entry("b/2.flac", 20, T)];
    let dst = vec![entry("a/0.flac", 5, T), entry("b/2.flac", 20, T + 1)];
    let plan = compare(&src, &dst, Verify::SizeMtime);
    let kinds: Vec<EntryKind> = plan.entries.iter().map(|e| e.kind).collect();
    assert_eq!(kinds, vec![EntryKind::Orphan, EntryKind::New, EntryKind::Same]);
    let paths: Vec<&str> = plan.entries.iter().map(|e| e.path.as_str()).collect();
    assert_eq!(paths, vec!["a/0.flac", "a/1.flac", "b/2.flac"]);
    assert_eq!(plan.entries[0].size_bytes, 5);
    assert_eq!(plan.total_bytes(EntryKind::Orphan), 5);
    assert_eq!(plan.total_bytes(EntryKind::Same), 20);
}

#[test]
fn compare_orders_by_components_not_bytes() {
    // "a-b" sorts after "a/…" component-wise ("a" < "a-b"), unlike bytes.
    let src = vec![entry("a/x.flac", 1, T), entry("a-b.flac", 2, T)];
    let dst = vec![entry("a-b.flac", 2, T)];
    let plan = compare(&src, &dst, Verify::SizeMtime);
    assert_eq!(plan.count(EntryKind::New), 1);
    assert_eq!(plan.count(EntryKind::Same), 1);
    assert_eq!(plan.entries[0].path, "a/x.flac");
}

#[test]
fn transcode_source_extension_is_carried() {
    let mut s = entry("a.flac", 1, T);
    s.src_ext = Some("dsf".to_owned());
    let plan = compare(&[s], &[], Verify::SizeMtime);
    assert_eq!(plan.entries[0].transcode_from.as_deref(), Some("dsf"));
}

#[test]
fn eta_is_transfer_over_speed() {
    let src = vec![entry("a.flac", 1000, T)];
    let plan = compare(&src, &[], Verify::SizeMtime);
    assert_eq!(plan.eta_secs(0), 0);
    assert_eq!(plan.eta_secs(300), 3);
}

#[test]
fn every_entry_is_accounted_once() {
    let src = vec![entry("a", 1, T), entry("b", 2, T), entry("d", 4, T)];
    let dst = vec![entry("b", 3, T), entry("c", 5, T), entry("d", 4, T)];
    let plan = compare(&src, &dst, Verify::SizeMtime);
    let n = plan.count(EntryKind::New);
    let m = plan.count(EntryKind::Modified);
    let s = plan.count(EntryKind::Same);
    let o = plan.count(EntryKind::Orphan);
    assert_eq!(n + m + s, src.len());
    assert_eq!(o + m + s, dst.len());
}

#[test]
fn plan_paths_are_the_ascending_union() {
    let src = vec![entry("a/1.flac", 1, T), entry("b/2.flac", 2, T), entry("d/4.flac", 4, T)];
    let dst = vec![entry("a/0.flac", 9, T), entry("b/2.flac", 2, T), entry("c/3.flac", 3, T)];
    let plan = compare(&src, &dst, Verify::SizeMtime);
    let paths: Vec<&str> = plan.entries.iter().map(|e| e.path.as_str()).collect();
    assert_eq!(paths, vec!["a/0.flac", "a/1.flac", "b/2.flac", "c/3.flac", "d/4.flac"]);
    let kinds: Vec<EntryKind> = plan.entries.iter().map(|e| e.kind).collect();
    assert_eq!(kinds, vec![EntryKind::Orphan, EntryKind::New, EntryKind::Same, EntryKind::Orphan, EntryKind::New]);
    assert_eq!(plan.entries[0].size_bytes, 9);
}

#[test]
fn walk_entries_sort_by_path_components() {
    let v = vec![entry("b/x.flac", 1, T), entry("a/z.flac", 2, T), entry("a b/c.flac", 3, T), entry("a/y.flac", 4, T)];
    let sorted = sort_by_path(v);
    let paths: Vec<&str> = sorted.iter().map(|e| e.rel.as_str()).collect();
    // component-wise: "a" sorts before "a b"
    assert_eq!(paths, vec!["a/y.flac", "a/z.flac", "a b/c.flac", "b/x.flac"]);
    assert!(sort_by_path(vec![]).is_empty());
}
