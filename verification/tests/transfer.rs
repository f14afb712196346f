use dapctl::config::{TranscodeRule, Verify};
use dapctl::diff::plan::{Entry, EntryKind, Plan};
use dapctl::transfer::{
    copy_entries, copy_source, delete_entries, dry_run_stats, is_header_line, load_states, mtime_source, record_copy, record_delete,
    size_mtime_match, tmp_path, truncate_path, verify_check, CopyOutcome, CopySource, ManifestEntry, ProgressEvent, State, Stats,
    SyncMode, VerifyCheck,
};

fn e(kind: EntryKind, path: &str, size: u64) -> Entry {
    Entry { kind, path: path.to_owned(), size_bytes: size, transcode_from: None }
}

fn plan() -> Plan {
    Plan::new(vec![
        e(EntryKind::New, "a.flac", 10),
        e(EntryKind::Same, "b.flac", 20),
        e(EntryKind::Orphan, "c.flac", 30),
        e(EntryKind::Modified, "d.flac", 40),
        e(EntryKind::Orphan, "e.flac", 50),
    ])
}

fn zero() -> Stats {
    Stats { copied: 0, deleted: 0, failed: 0, bytes_written: 0, elapsed_ms: 0 }
}

#[test]
fn copy_and_delete_lists() {
    let p = plan();
    let c: Vec<String> = copy_entries(&p).into_iter().map(|x| x.path).collect();
    assert_eq!(c, vec!["a.flac", "d.flac"]);
    let m: Vec<String> = delete_entries(&p, SyncMode::Mirror).into_iter().map(|x| x.path).collect();
    assert_eq!(m, vec!["c.flac", "e.flac"]);
    assert!(delete_entries(&p, SyncMode::Additive).is_empty());
}

#[test]
fn dry_run_equals_clean_run() {
    let p = plan();
    let dry = dry_run_stats(&p, SyncMode::Mirror);
    let mut s = zero();
    for entry in copy_entries(&p) {
        let size = entry.size_bytes;
        record_copy(&mut s, &entry, CopyOutcome::Written { bytes: size, verified: true });
    }
    for entry in delete_entries(&p, SyncMode::Mirror) {
        record_delete(&mut s, &entry, Ok(()));
    }
    assert_eq!((s.copied, s.deleted, s.failed, s.bytes_written), (dry.copied, dry.deleted, dry.failed, dry.bytes_written));
    assert_eq!((dry.copied, dry.deleted, dry.failed, dry.bytes_written), (2, 2, 0, 50));
    let add = dry_run_stats(&p, SyncMode::Additive);
    assert_eq!(add.deleted, 0);
}

#[test]
fn record_copy_outcomes() {
    let entry = e(EntryKind::New, "x/y.flac", 7);
    let mut s = zero();
    let (m, ev) = record_copy(&mut s, &entry, CopyOutcome::Written { bytes: 7, verified: true });
    assert_eq!(m.state, State::Done);
    assert!(matches!(ev, ProgressEvent::FileDone { ref path, bytes: 7 } if path == "x/y.flac"));
    let (m, ev) = record_copy(&mut s, &entry, CopyOutcome::Written { bytes: 7, verified: false });
    assert_eq!(m.state, State::Failed);
    assert_eq!(m.err.as_deref(), Some("verify mismatch"));
    assert!(matches!(ev, ProgressEvent::FileFail { ref err, .. } if err == "verify mismatch"));
    let (m, _) = record_copy(&mut s, &entry, CopyOutcome::Failed { err: "disk full".to_owned() });
    assert_eq!(m.err.as_deref(), Some("disk full"));
    assert_eq!((s.copied, s.failed, s.bytes_written), (1, 2, 7));
    let ev = record_delete(&mut s, &entry, Err("busy".to_owned()));
    assert!(matches!(ev, ProgressEvent::FileFail { ref err, .. } if err == "busy"));
    assert_eq!((s.deleted, s.failed), (0, 3));
}

#[test]
fn temp_path_sits_beside_destination() {
    assert_eq!(tmp_path("/dap/Music/a/b.flac"), "/dap/Music/a/b.flac.dapctl-tmp");
    assert_eq!(tmp_path("b.flac"), "b.flac.dapctl-tmp");
    assert_eq!(tmp_path("/"), "file.dapctl-tmp");
}

#[test]
fn transcoded_entries_read_the_original_file() {
    let rules = vec![TranscodeRule { from: "FLAC".to_owned(), to: "mp3".to_owned(), params: "-q:a 2".to_owned() }];
    let mut entry = e(EntryKind::New, "a/song.mp3", 5);
    entry.transcode_from = Some("flac".to_owned());
    match copy_source(&entry, Some(&rules)) {
        CopySource::Transcode { src_rel, rule } => {
            assert_eq!(src_rel, "a/song.flac");
            assert_eq!(rule, 0);
        }
        other => panic!("unexpected {other:?}"),
    }
    assert!(matches!(copy_source(&entry, None), CopySource::Direct { ref src_rel } if src_rel == "a/song.mp3"));
    let other_rules = vec![TranscodeRule { from: "wav".to_owned(), to: "mp3".to_owned(), params: String::new() }];
    assert!(matches!(copy_source(&entry, Some(&other_rules)), CopySource::Direct { ref src_rel } if src_rel == "a/song.mp3"));
    assert_eq!(mtime_source(&entry), "a/song.flac");
    assert_eq!(mtime_source(&e(EntryKind::New, "z.flac", 1)), "z.flac");
}

#[test]
fn verification_checks() {
    assert_eq!(verify_check(true, Verify::Checksum), VerifyCheck::NonEmpty);
    assert_eq!(verify_check(false, Verify::Off), VerifyCheck::Pass);
    assert_eq!(verify_check(false, Verify::SizeMtime), VerifyCheck::SizeMtime);
    assert_eq!(verify_check(false, Verify::Checksum), VerifyCheck::Checksum);
    assert!(size_mtime_match(10, 10, 5_000_000_000, 3_000_000_000));
    assert!(!size_mtime_match(10, 10, 5_000_000_001, 3_000_000_000));
    assert!(!size_mtime_match(10, 11, 0, 0));
}

#[test]
fn progress_paths_are_truncated_from_the_left() {
    assert_eq!(truncate_path("short", 10), "short");
    assert_eq!(truncate_path("abcdefghij", 5), "…ghij");
    assert_eq!(truncate_path("abc", 0), "…");
}

#[test]
fn manifest_last_state_wins() {
    let rec = |p: &str, s: State| ManifestEntry { path: p.to_owned(), size_bytes: 1, state: s, err: None };
    let entries = vec![
        rec("a.flac", State::Pending),
        rec("b.flac", State::Pending),
        rec("a.flac", State::InProgress),
        rec("a.flac", State::Done),
        rec("b.flac", State::Failed),
        rec("c.flac", State::Pending),
    ];
    let states = load_states(&entries);
    assert_eq!(
        states,
        vec![("a.flac".to_owned(), State::Done), ("b.flac".to_owned(), State::Failed), ("c.flac".to_owned(), State::Pending)]
    );
    assert!(load_states(&vec![]).is_empty());
    assert!(is_header_line("{\"type\":\"header\",\"run_id\":\"x\"}"));
    assert!(is_header_line("{\"profile\":\"p\",\"run_id\":\"x\",\"started_at\":\"t\",\"type\":\"header\"}"));
    // a record for the path `type` is a record
    assert!(!is_header_line("{\"path\":\"type\",\"size_bytes\":1,\"state\":\"done\"}"));
    assert!(!is_header_line("{\"path\":\"a\\\"type\\\":\\\"header\",\"size_bytes\":1,\"state\":\"done\"}"));
    assert!(!is_header_line("{\"path\":\"a.flac\",\"size_bytes\":1,\"state\":\"done\"}"));
}

#[test]
fn run_accounting_counts_every_file_once() {
    let entry = e(EntryKind::New, "a.flac", 5);
    let mut s = zero();
    let outcomes = vec![
        CopyOutcome::Written { bytes: 5, verified: true },
        CopyOutcome::Failed { err: "io".to_owned() },
        CopyOutcome::Written { bytes: 9, verified: true },
        CopyOutcome::Written { bytes: 3, verified: false },
    ];
    let copies = outcomes.len();
    for o in outcomes {
        record_copy(&mut s, &entry, o);
    }
    let deletions = vec![Ok(()), Err("busy".to_owned()), Ok(())];
    let n_del = deletions.len();
    for d in deletions {
        record_delete(&mut s, &entry, d);
    }
    assert_eq!((s.copied, s.deleted, s.failed, s.bytes_written), (2, 2, 3, 14));
    assert_eq!(s.copied + s.deleted + s.failed, copies + n_del);
}
