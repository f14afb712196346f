use dapctl::cli::diff::fmt_eta;
use dapctl::cli::sync::{effective_dry_run, refusal_message, repairs_mtimes, run_result, sync_decision, sync_mode, SyncDecision};
use dapctl::config::Mode;
use dapctl::dap::Filesystem;
use dapctl::diff::check_path_limits;
use dapctl::diff::plan::{Entry, EntryKind, PathWarningKind};
use dapctl::error::{exit_code, ErrorClass};
use dapctl::scan::{auto_dap_id, classify_mounts, dest_under_mount, fmt_bytes, identify, Confidence, Mount, RootMarkers};
use dapctl::ssh::{cat_command, find_command, shell_quote, SshSession, SshUri, SshUriError};
use dapctl::text::split_whitespace;
use dapctl::transfer::{ProgressEvent, Stats, SyncMode};
use dapctl::tui::app::{EntryFilter, LogEntry, LogLevel, ProgressState, WizardStep};
use dapctl::tui::views::new_profile::sanitize_name;
use dapctl::tui::views::player::{fmt_dur, trunc, PlayerFocus, PlayerSource};

#[test]
fn whitespace_words() {
    assert_eq!(split_whitespace("  a\tbb \n c  "), vec!["a", "bb", "c"]);
    assert!(split_whitespace(" \t ").is_empty());
    assert_eq!(split_whitespace("x\u{3000}y"), vec!["x", "y"]);
}

#[test]
fn ssh_uris() {
    let u = SshUri::parse("ssh://me@nas:2222/volume1/music", "fallback").unwrap();
    assert_eq!((u.user.as_str(), u.host.as_str(), u.port, u.path.as_str()), ("me", "nas", 2222, "/volume1/music"));
    let u = SshUri::parse("ssh://nas", "fallback").unwrap();
    assert_eq!((u.user.as_str(), u.host.as_str(), u.port, u.path.as_str()), ("fallback", "nas", 22, "/"));
    assert_eq!(SshUri::parse("nas:/x", "f").unwrap_err(), SshUriError::NotSsh);
    assert_eq!(SshUri::parse("ssh://nas:99999/x", "f").unwrap_err(), SshUriError::InvalidPort);
    assert!(SshUri::is_ssh("ssh://a"));
    assert!(!SshUri::is_ssh("/local"));
    let s = SshSession::connect(&SshUri::parse("ssh://me@nas/m/", "f").unwrap(), true, Some(0)).unwrap();
    assert_eq!(s.remote_path("a b.flac"), "/m/a b.flac");
    let e = SshSession::connect(&SshUri::parse("ssh://me@nas/m", "f").unwrap(), false, Some(255)).unwrap_err();
    assert!(e.starts_with("SSH connection to me@nas:22 failed (exit 255)."));
    assert_eq!(shell_quote("it's"), "'it'\\''s'");
    assert_eq!(cat_command("/a b"), "cat '/a b'");
    assert!(find_command("/m").starts_with("find '/m' -type f"));
}

fn mount(label: Option<&str>, fs: Option<&str>) -> Mount {
    Mount {
        mount_point: "/media/x".to_owned(),
        label: label.map(|s| s.to_owned()),
        filesystem: fs.map(|s| s.to_owned()),
        total_bytes: None,
        free_bytes: None,
    }
}

const NO_MARKERS: RootMarkers = RootMarkers { database_uuid: false, hiby_music: false, thumbnails: false, music_dir: false };

#[test]
fn device_identification() {
    let d = identify(&mount(Some("fiio m21"), None), NO_MARKERS).unwrap();
    assert_eq!((d.dap_id.as_str(), d.confidence), ("fiio-m21", Confidence::Exact));
    let d = identify(&mount(Some("My HiBy"), None), NO_MARKERS).unwrap();
    assert_eq!((d.dap_id.as_str(), d.confidence), ("hiby-r6", Confidence::Heuristic));
    let music = RootMarkers { music_dir: true, ..NO_MARKERS };
    let d = identify(&mount(None, Some("EXFAT")), music).unwrap();
    assert_eq!((d.dap_id.as_str(), d.confidence), ("generic", Confidence::Fallback));
    assert!(identify(&mount(Some("USB STICK"), Some("NTFS")), music).is_none());
    let r = classify_mounts(vec![(mount(Some("SR35"), None), NO_MARKERS), (mount(None, None), NO_MARKERS)]);
    assert_eq!(r.identified.len(), 1);
    assert_eq!(r.identified[0].dap_id, "ak-sr35");
    assert_eq!(r.unidentified.len(), 1);
    assert_eq!(auto_dap_id("auto:fiio-m21").as_deref(), Some("fiio-m21"));
    assert_eq!(auto_dap_id("/media/x"), None);
    assert_eq!(dest_under_mount("/media/x", "/Music"), "/media/x/Music");
    assert_eq!(dest_under_mount("/media/x", "/"), "/media/x");
}

#[test]
fn byte_sizes_match_float_formatting() {
    const GIB: u64 = 1 << 30;
    const MIB: u64 = 1 << 20;
    for &b in &[0u64, 1, MIB / 2, MIB, 3 * MIB / 2, 5 * MIB / 2, 1023 * MIB, GIB, GIB + GIB / 20, 3 * GIB / 2, 123 * GIB + 456 * MIB, u64::MAX] {
        let expected = if b >= GIB {
            format!("{:.1} GB", b as f64 / GIB as f64)
        } else {
            format!("{:.0} MB", b as f64 / MIB as f64)
        };
        assert_eq!(fmt_bytes(b), expected, "bytes = {b}");
    }
}

#[test]
fn path_limits() {
    let fs = Filesystem {
        preferred: "fat32".to_owned(),
        supported: Vec::new(),
        max_filename_bytes: 8,
        max_path_bytes: 20,
        case_sensitive: false,
    };
    let e = |k, p: &str| Entry { kind: k, path: p.to_owned(), size_bytes: 1, transcode_from: None };
    let w = check_path_limits(
        &[
            e(EntryKind::New, "a/verylongname.flac"),
            e(EntryKind::Modified, "abc/def/ghi/jk.flac"),
            e(EntryKind::Orphan, "a/verylongname.flac"),
            e(EntryKind::New, "a/b.flac"),
        ],
        &fs,
        "/Music",
    );
    assert_eq!(w.len(), 2);
    assert_eq!((w[0].kind, w[0].length_bytes, w[0].limit_bytes), (PathWarningKind::FilenameTooLong, 17, 8));
    assert_eq!((w[1].kind, w[1].length_bytes, w[1].limit_bytes), (PathWarningKind::PathTooLong, 26, 20));
}

#[test]
fn exit_codes() {
    assert_eq!(exit_code(&[]), 1);
    assert_eq!(exit_code(&[ErrorClass::Other, ErrorClass::Scan, ErrorClass::Config]), 3);
    assert_eq!(exit_code(&[ErrorClass::Dap]), 2);
}

#[test]
fn sync_flow_decisions() {
    assert!(effective_dry_run(true, true, false));
    assert!(!effective_dry_run(false, true, true));
    assert!(effective_dry_run(false, false, true));
    assert_eq!(sync_mode(Mode::Selective), SyncMode::Additive);
    assert_eq!(sync_decision(0, 0, SyncMode::Mirror, false, true, true), SyncDecision::NothingToDo);
    assert_eq!(
        sync_decision(10, 2, SyncMode::Mirror, true, true, false),
        SyncDecision::DryRun { hint_yes: true, deletions: true }
    );
    assert_eq!(sync_decision(0, 2, SyncMode::Mirror, false, false, false), SyncDecision::RefuseDeletions { orphans: 2 });
    assert_eq!(sync_decision(0, 2, SyncMode::Mirror, false, false, true), SyncDecision::Execute);
    assert_eq!(sync_decision(5, 2, SyncMode::Additive, false, false, false), SyncDecision::Execute);
    assert!(refusal_message(2).starts_with("2 orphan(s) would be deleted in mirror mode."));
    let s = Stats { copied: 1, deleted: 0, failed: 3, bytes_written: 9, elapsed_ms: 0 };
    assert_eq!(run_result(&s).unwrap_err(), "3 file(s) failed to transfer");
    assert_eq!(fmt_eta(0), "< 1s");
    assert_eq!(fmt_eta(59), "59s");
    assert_eq!(fmt_eta(187), "3m 07s");
    assert_eq!(fmt_eta(7500), "2h 05m");
}

#[test]
fn interface_state() {
    assert_eq!(EntryFilter::All.next(), EntryFilter::New);
    assert_eq!(EntryFilter::Same.next(), EntryFilter::All);
    assert!(EntryFilter::Orphan.matches(EntryKind::Orphan));
    assert!(!EntryFilter::New.matches(EntryKind::Same));
    assert_eq!(WizardStep::Name.prev(), None);
    assert_eq!(WizardStep::Name.next(), Some(WizardStep::Source));
    assert_eq!(WizardStep::Confirm.number(), 5);
    assert_eq!(WizardStep::Mode.label(), "sync mode");
    assert_eq!(PlayerFocus::Library.toggle().toggle(), PlayerFocus::Library);
    assert_eq!(PlayerSource::Library.toggle(), PlayerSource::Destination);
    assert_eq!(sanitize_name("  My Profile! "), "my-profile");
    assert_eq!(fmt_dur(75), "1:15");
    assert_eq!(fmt_dur(3725), "1:02:05");
    assert_eq!(trunc("abcdef", 4), "abc…");
    let l = LogEntry { time: String::new(), level: LogLevel::Warn, event: String::new(), detail: String::new() };
    assert_eq!(l.level_str(), "warn");
}

#[test]
fn progress_view_counts_events() {
    let mut p = ProgressState::new("main".to_owned(), 100);
    p.handle_event(ProgressEvent::FileStart { path: "a.flac".to_owned(), bytes: 40 });
    p.handle_event(ProgressEvent::FileProgress { bytes: 40 });
    p.handle_event(ProgressEvent::FileDone { path: "a.flac".to_owned(), bytes: 40 });
    p.handle_event(ProgressEvent::FileFail { path: "b.flac".to_owned(), err: "io".to_owned() });
    p.handle_event(ProgressEvent::DeleteDone { path: "c.flac".to_owned() });
    assert_eq!((p.done_bytes, p.copied, p.failed, p.deleted), (40, 1, 1, 1));
    assert_eq!(p.recent.len(), 3);
    assert_eq!(p.recent[1].path, "b.flac  (io)");
    assert!(p.current_file.is_empty());
}

#[test]
fn dry_run_repairs_nothing() {
    assert!(!repairs_mtimes(effective_dry_run(true, true, false)));
    assert!(!repairs_mtimes(effective_dry_run(false, false, true)));
    assert!(repairs_mtimes(effective_dry_run(false, true, true)));
}
