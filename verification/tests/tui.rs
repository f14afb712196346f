use dapctl::config::{Filters, Mode, ProfileHeader, SyncProfile, Transcode, Transfer, Verify};
use dapctl::diff::plan::{Entry, EntryKind, Plan};
use dapctl::diff::DiffResult;
use dapctl::order::sort_by_lower;
use dapctl::player::library::{LibraryIndex, LibraryNode};
use dapctl::player::queue::TrackInfo;
use dapctl::scan::{Confidence, IdentifiedDap, Mount, ScanResult};
use dapctl::transfer::SyncMode;
use dapctl::tui::app::{
    App, BrowseStep, DiffState, EntryFilter, FileBrowserState, LogLevel, NewProfileState, ProgressState, View,
    WizardStep,
};
use dapctl::tui::keys::{handle_key, handle_wizard_key, name_checked, enqueue_diff_entry, Key, KeyAction, KeyCode, WizardAction};
use dapctl::text::get_bytes;
use dapctl::tui::log::{parse_jsonl_line, split_lines};
use dapctl::tui::views::new_profile::draft_profile;
use dapctl::tui::views::player::LibraryState;

fn names(v: &[&str]) -> Vec<String> {
    v.iter().map(|s| s.to_string()).collect()
}

fn key(c: char) -> Key {
    Key { code: KeyCode::Char(c), ctrl: false }
}

fn code(k: KeyCode) -> Key {
    Key { code: k, ctrl: false }
}

fn mount(p: &str) -> Mount {
    Mount { mount_point: p.to_owned(), label: None, filesystem: None, total_bytes: None, free_bytes: None }
}

fn scan_with(ids: &[(&str, &str)], others: &[&str]) -> ScanResult {
    ScanResult {
        identified: ids
            .iter()
            .map(|(m, id)| IdentifiedDap { mount: mount(m), dap_id: id.to_string(), confidence: Confidence::Exact })
            .collect(),
        unidentified: others.iter().map(|m| mount(m)).collect(),
    }
}

fn profile(name: &str, source: &str, dest: &str, mode: Mode) -> SyncProfile {
    SyncProfile {
        schema_version: 1,
        profile: ProfileHeader {
            name: name.to_owned(),
            source: source.to_owned(),
            destination: dest.to_owned(),
            dap_profile: "generic".to_owned(),
            mode,
        },
        filters: Filters::empty(),
        transfer: Transfer::default(),
        transcode: Transcode { enabled: false, rules: Vec::new() },
    }
}

fn entry(kind: EntryKind, path: &str, size: u64) -> Entry {
    Entry { kind, path: path.to_owned(), size_bytes: size, transcode_from: None }
}

fn ready_app(mode: Mode, entries: Vec<Entry>) -> App {
    let mut app = App::new(vec![("main".to_owned(), profile("Main", "/music", "/mnt/dap", mode))], scan_with(&[], &[]));
    app.diff_state = DiffState::Ready {
        result: DiffResult { plan: Plan { entries, warnings: vec![] }, src_count: 0, dst_count: 0 },
        source: "/music".to_owned(),
        destination: "/mnt/dap".to_owned(),
        profile_name: "Main".to_owned(),
        dap_id: "generic".to_owned(),
        mode,
    };
    app.view = View::Diff;
    app
}

fn track(path: &str, artist: &str, album: &str) -> TrackInfo {
    TrackInfo {
        path: path.to_owned(),
        title: path.to_owned(),
        artist: Some(artist.to_owned()),
        album_artist: None,
        album: Some(album.to_owned()),
        duration_ms: None,
        sample_rate_hz: None,
        bit_depth: None,
        channels: None,
        bitrate_kbps: None,
    }
}

#[test]
fn case_insensitive_stable_sort() {
    assert_eq!(sort_by_lower(names(&["b", "A", "a", "C", "B"])), names(&["A", "a", "b", "B", "C"]));
    assert!(sort_by_lower(vec![]).is_empty());
}

#[test]
fn file_browser_navigation() {
    let mut b = FileBrowserState::new("/music".to_owned(), names(&["Zeta", "alpha", "Beta"]));
    assert_eq!(b.entries, names(&["alpha", "Beta", "Zeta"]));
    assert_eq!(b.total_items(), 4);
    assert_eq!(b.location_label(), "/music");
    assert_eq!(b.enter_selected(), BrowseStep::Confirmed);
    b.move_down();
    b.move_down();
    assert_eq!(b.cursor, 2);
    assert_eq!(b.enter_selected(), BrowseStep::Moved);
    assert_eq!(b.current, "/music/Beta");
    assert_eq!(b.cursor, 0);
    b.refresh(names(&["x"]));
    assert_eq!(b.go_up(), BrowseStep::Moved);
    assert_eq!(b.current, "/music");
    b.refresh(names(&["Zeta", "alpha", "Beta"]));
    assert_eq!(b.cursor, 2, "the directory left is highlighted");
    b.move_up();
    b.move_up();
    b.move_up();
    assert_eq!(b.cursor, 0);
}

#[test]
fn file_browser_drives() {
    let mut b = FileBrowserState::new("/".to_owned(), names(&["home", "mnt"]));
    assert_eq!(b.go_up(), BrowseStep::Moved);
    assert!(b.at_drives_root);
    assert_eq!(b.location_label(), "drives");
    b.refresh(names(&["/"]));
    assert_eq!(b.cursor, 0);
    assert_eq!(b.total_items(), 1);
    b.move_down();
    assert_eq!(b.cursor, 0);
    assert_eq!(b.go_up(), BrowseStep::Stayed);
    assert_eq!(b.enter_selected(), BrowseStep::Moved);
    assert_eq!(b.current, "/");
    assert!(!b.at_drives_root);
    let mut d = FileBrowserState::drives_root(vec![]);
    assert_eq!(d.enter_selected(), BrowseStep::Stayed);
}

#[test]
fn library_pane_state() {
    let index = LibraryIndex::from_tracks(
        vec![track("/m/a/1.flac", "Abba", "Gold"), track("/m/b/1.flac", "Beck", "Odelay")],
        "/m",
    );
    let mut lib = LibraryState::new(index);
    assert_eq!(lib.flat, vec![LibraryNode::Artist(0), LibraryNode::Artist(1)]);
    assert_eq!(lib.selected, Some(0));
    assert!(lib.selected_album_tracks().is_none());
    lib.toggle_expand();
    assert_eq!(lib.flat, vec![LibraryNode::Artist(0), LibraryNode::Album { artist: 0, album: 0 }, LibraryNode::Artist(1)]);
    lib.move_down();
    let ts = lib.selected_album_tracks().unwrap();
    assert_eq!(ts.len(), 1);
    assert_eq!(ts[0].path, "/m/a/1.flac");
    lib.move_down();
    lib.move_down();
    assert_eq!(lib.cursor, 2);
    lib.search_active = true;
    lib.search = "odel".to_owned();
    lib.rebuild_flat();
    assert_eq!(lib.flat, vec![LibraryNode::Artist(1), LibraryNode::Album { artist: 1, album: 0 }]);
    assert_eq!(lib.cursor, 1);
    assert_eq!(lib.selected, Some(1));
    lib.move_up();
    lib.move_up();
    assert_eq!(lib.cursor, 0);
}

#[test]
fn wizard_states_and_draft() {
    let scan = scan_with(&[("/mnt/m21", "fiio-m21")], &["/mnt/usb"]);
    let w = NewProfileState::new(&scan, names(&["/"]), names(&["Music"]));
    assert_eq!(w.step, WizardStep::Name);
    assert!(w.source_browser.at_drives_root);
    let d = w.dest_browser.as_ref().unwrap();
    assert_eq!(d.current, "/mnt/m21");
    assert_eq!(d.entries, names(&["Music"]));
    assert_eq!(w.destination(&scan), "auto:fiio-m21");
    assert_eq!(w.selected_mode(), "additive");
    assert_eq!(draft_profile(&w, &scan).err().unwrap(), "name is empty");

    let p = profile("Main", "/music", "auto:fiio-m21", Mode::Mirror);
    let mut c = NewProfileState::from_clone(&p, &scan, names(&["/"]), true, names(&["b", "A"]), false, names(&["X"]));
    assert_eq!(c.name, "Main-copy");
    assert_eq!(c.cloned_from.as_deref(), Some("Main"));
    assert_eq!(c.source(), "/music");
    assert_eq!(c.source_browser.entries, names(&["A", "b"]));
    assert_eq!(c.dest_choice, 0);
    assert_eq!(c.mode_choice, 1);
    assert_eq!(c.selected_mode(), "mirror");
    let draft = draft_profile(&c, &scan).unwrap();
    assert_eq!(draft.name, "Main-copy");
    assert_eq!(draft.file_stem, "main-copy");
    assert!(draft.text.starts_with("schema_version = 1\n\n[profile]\nname        = \"Main-copy\"\n"));
    assert!(draft.text.contains("destination = \"auto:fiio-m21\"\ndap_profile = \"generic\"\nmode        = \"mirror\"\n"));
    assert!(draft.text.ends_with("parallelism     = 4\n"));

    let other = profile("Win", "C:\\Music", "D:\\", Mode::Additive);
    c = NewProfileState::from_clone(&other, &scan, names(&["/"]), false, vec![], true, names(&["x"]));
    assert!(c.source_browser.at_drives_root);
    assert_eq!(c.dest_choice, 1);
    assert_eq!(c.destination(&scan), "D:\\");
    c.name = "  ".to_owned();
    assert_eq!(draft_profile(&c, &scan).err().unwrap(), "name is empty");
    c.name = "Win".to_owned();
    assert_eq!(draft_profile(&c, &scan).err().unwrap(), "source is empty");
    c.source_browser = FileBrowserState::new("C:\\Music".to_owned(), vec![]);
    let t = draft_profile(&c, &scan).unwrap().text;
    assert!(t.contains("source      = \"C:\\\\Music\"\ndestination = \"D:\\\\\"\n"));
}

#[test]
fn wizard_keys() {
    let scan = scan_with(&[("/mnt/m21", "fiio-m21")], &[]);
    let mut w = NewProfileState::new(&scan, names(&["/"]), names(&["Music"]));
    assert!(matches!(handle_wizard_key(&mut w, code(KeyCode::Enter), 1), WizardAction::Done));
    assert_eq!(w.error.as_deref(), Some("name cannot be empty"));
    assert!(matches!(handle_wizard_key(&mut w, key('x'), 1), WizardAction::EditName));
    w.name = " My Mix! ".to_owned();
    match handle_wizard_key(&mut w, code(KeyCode::Enter), 1) {
        WizardAction::CheckName(stem) => assert_eq!(stem, "my-mix"),
        other => panic!("{other:?}"),
    }
    name_checked(&mut w, "my-mix", true);
    assert_eq!(w.error.as_deref(), Some("'my-mix.toml' already exists — choose a different name"));
    assert_eq!(w.step, WizardStep::Name);
    name_checked(&mut w, "my-mix", false);
    assert_eq!(w.step, WizardStep::Source);
    assert!(w.error.is_none());
    // Source: on the drives list, open "/".
    assert!(matches!(handle_wizard_key(&mut w, key('l'), 1), WizardAction::ListSource));
    w.source_browser.refresh(names(&["music"]));
    assert!(matches!(handle_wizard_key(&mut w, code(KeyCode::Enter), 1), WizardAction::Done));
    assert_eq!(w.step, WizardStep::Destination);
    // Destination list: the DAP, then "browse".
    handle_wizard_key(&mut w, key('j'), 1);
    assert_eq!(w.dest_choice, 1);
    handle_wizard_key(&mut w, key('j'), 1);
    assert_eq!(w.dest_choice, 1);
    assert!(matches!(handle_wizard_key(&mut w, code(KeyCode::Esc), 1), WizardAction::Done));
    assert_eq!(w.dest_choice, 0);
    assert_eq!(w.step, WizardStep::Destination);
    handle_wizard_key(&mut w, code(KeyCode::Enter), 1);
    assert_eq!(w.step, WizardStep::Mode);
    handle_wizard_key(&mut w, key('j'), 1);
    handle_wizard_key(&mut w, key('j'), 1);
    handle_wizard_key(&mut w, key('j'), 1);
    assert_eq!(w.mode_choice, 2);
    handle_wizard_key(&mut w, key('k'), 1);
    assert_eq!(w.mode_choice, 1);
    handle_wizard_key(&mut w, code(KeyCode::Enter), 1);
    assert_eq!(w.step, WizardStep::Confirm);
    assert!(matches!(handle_wizard_key(&mut w, code(KeyCode::Enter), 1), WizardAction::Write));
    assert!(matches!(handle_wizard_key(&mut w, key('q'), 1), WizardAction::Close));
    assert!(matches!(handle_wizard_key(&mut w, Key { code: KeyCode::Char('c'), ctrl: true }, 1), WizardAction::Quit));
    let mut first = NewProfileState::new(&scan, names(&["/"]), vec![]);
    assert!(matches!(handle_wizard_key(&mut first, code(KeyCode::Esc), 1), WizardAction::Close));
}

#[test]
fn main_view_keys() {
    let profiles = vec![
        ("a".to_owned(), profile("A", "/a", "/x", Mode::Additive)),
        ("b".to_owned(), profile("B", "/b", "/y", Mode::Additive)),
    ];
    let mut app = App::new(profiles, scan_with(&[], &[]));
    assert_eq!(app.view, View::Profiles);
    assert_eq!(handle_key(&mut app, key('j')), KeyAction::Done);
    assert_eq!(app.profile_idx, 1);
    handle_key(&mut app, key('j'));
    assert_eq!(app.profile_idx, 1);
    assert_eq!(handle_key(&mut app, key('D')), KeyAction::Done);
    assert!(app.delete_confirm);
    assert_eq!(app.flash.as_deref(), Some("press D again to delete 'b'"));
    assert_eq!(app.flash_ticks, 12);
    assert_eq!(handle_key(&mut app, key('D')), KeyAction::DeleteProfile);
    assert!(!app.delete_confirm);
    handle_key(&mut app, key('D'));
    handle_key(&mut app, key('k'));
    assert!(!app.delete_confirm, "another key drops the pending delete");
    assert_eq!(handle_key(&mut app, key('n')), KeyAction::NewProfile);
    assert_eq!(handle_key(&mut app, key('c')), KeyAction::CloneProfile);
    assert_eq!(handle_key(&mut app, code(KeyCode::Enter)), KeyAction::Done);
    assert_eq!(app.view, View::Diff);
    assert!(matches!(app.diff_state, DiffState::Loading));
    assert_eq!(handle_key(&mut app, code(KeyCode::Tab)), KeyAction::Done);
    assert_eq!(app.diff_entry_filter, EntryFilter::New);
    handle_key(&mut app, code(KeyCode::Esc));
    assert_eq!(app.view, View::Profiles);
    handle_key(&mut app, key('q'));
    assert_eq!(app.view, View::Home);
    handle_key(&mut app, key('j'));
    handle_key(&mut app, key('j'));
    handle_key(&mut app, key('j'));
    assert_eq!(app.home_cursor, 2);
    assert_eq!(handle_key(&mut app, code(KeyCode::Enter)), KeyAction::LoadLog);
    assert_eq!(handle_key(&mut app, key('r')), KeyAction::RefreshScan);
    handle_key(&mut app, key('q'));
    assert!(app.should_quit);

    let mut empty = App::new(vec![], scan_with(&[], &[]));
    handle_key(&mut empty, key('c'));
    assert_eq!(empty.flash.as_deref(), Some("no profiles to clone"));
    handle_key(&mut empty, code(KeyCode::Enter));
    assert_eq!(empty.view, View::Profiles);
    empty.tick_flash();
    assert_eq!(empty.flash_ticks, 11);
    for _ in 0..11 {
        empty.tick_flash();
    }
    assert!(empty.flash.is_none());
    let mut quit = App::new(vec![], scan_with(&[], &[]));
    handle_key(&mut quit, Key { code: KeyCode::Char('c'), ctrl: true });
    assert!(quit.should_quit);
}

#[test]
fn progress_and_log_keys() {
    let mut app = App::new(vec![], scan_with(&[], &[]));
    app.sync_started("Main".to_owned(), 100);
    assert_eq!(app.view, View::Progress);
    assert_eq!(handle_key(&mut app, key('l')), KeyAction::Done);
    handle_key(&mut app, key('q'));
    assert_eq!(app.view, View::Progress, "q waits for the sync to finish");
    handle_key(&mut app, code(KeyCode::Esc));
    assert_eq!(app.view, View::Progress);
    app.progress_state.as_mut().unwrap().finished = true;
    assert_eq!(handle_key(&mut app, key('l')), KeyAction::LoadLog);
    app.show_log(
        "run1".to_owned(),
        "{\"ts\":\"2024-05-01T12:34:56Z\",\"level\":\"warn\",\"fields\":{\"event\":\"copy\",\"n\":3,\"path\":\"a b\"}}\r\n\n  \nnot json\n",
    );
    assert_eq!(app.view, View::Log);
    assert_eq!(app.log_run_id, "run1");
    assert_eq!(app.log_lines.len(), 2);
    assert_eq!(app.log_scroll, 1);
    let e = &app.log_lines[0];
    assert_eq!((e.time.as_str(), e.level_str(), e.event.as_str(), e.detail.as_str()), ("12:34:56", "warn", "copy", "n=3  path=a b"));
    assert_eq!(app.log_lines[1].event, "not json");
    assert!(app.log_lines[1].level == LogLevel::Other);
    handle_key(&mut app, key('j'));
    assert_eq!(app.log_scroll, 1);
    handle_key(&mut app, key('g'));
    assert_eq!(app.log_scroll, 0);
    handle_key(&mut app, key('G'));
    assert_eq!(app.log_scroll, 1);
    app.log_missing();
    assert_eq!(app.log_lines[0].event, "no runs found");
    app.log_unreadable("denied");
    assert_eq!(app.log_lines[0].event, "cannot read log: denied");
}

#[test]
fn log_line_parsing() {
    let e = parse_jsonl_line("{\"ts\":\"short\",\"level\":\"info\",\"fields\":{\"event\":5}}");
    assert_eq!((e.time.as_str(), e.level_str(), e.event.as_str(), e.detail.as_str()), ("short", "info", "", ""));
    let e = parse_jsonl_line("{\"level\":\"trace\"}");
    assert_eq!(e.level_str(), "?");
    assert_eq!(split_lines("a\r\nb\n\nc"), names(&["a", "b", "", "c"]));
    assert_eq!(split_lines("x\n"), names(&["x"]));
    assert!(split_lines("").is_empty());
    assert_eq!(get_bytes("2024-05-01T12:34:56Z", 11, 19).as_deref(), Some("12:34:56"));
    assert_eq!(get_bytes("ééééééé", 1, 4), None);
    assert_eq!(get_bytes("ééééééé", 2, 4).as_deref(), Some("é"));
}

#[test]
fn diff_view_sync_and_selection() {
    let entries = vec![
        entry(EntryKind::New, "Abba/Gold/1.flac", 10),
        entry(EntryKind::Orphan, "Old/x.flac", 5),
        entry(EntryKind::Modified, "top.flac", 7),
    ];
    let mut app = ready_app(Mode::Mirror, entries.clone());
    assert_eq!(handle_key(&mut app, key('y')), KeyAction::Done);
    assert!(app.confirm_sync);
    assert_eq!(app.flash.as_deref(), Some("Mirror mode will DELETE 1 orphan(s).  Press y again to confirm."));
    assert_eq!(handle_key(&mut app, key('y')), KeyAction::StartSync);
    assert!(!app.confirm_sync);
    let job = app.sync_job().unwrap();
    assert_eq!(job.mode, SyncMode::Mirror);
    assert_eq!(job.total_bytes, 17);
    assert_eq!(job.plan.entries.len(), 3);
    assert!(job.selection.is_none());
    assert_eq!(job.verify, Verify::SizeMtime);
    handle_key(&mut app, key('x'));
    assert_eq!(app.flash.as_deref(), Some("x = toggle selection (only in selective mode profiles)"));
    handle_key(&mut app, key('j'));
    assert_eq!(enqueue_diff_entry(&mut app), None);
    assert_eq!(app.flash.as_deref(), Some("orphans exist only on destination — use L/D in player to toggle"));
    handle_key(&mut app, key('k'));
    assert_eq!(enqueue_diff_entry(&mut app).as_deref(), Some("/music/Abba/Gold/1.flac"));
    assert_eq!(handle_key(&mut app, key(' ')), KeyAction::EnqueueEntry);

    let mut sel = ready_app(Mode::Selective, entries);
    handle_key(&mut sel, key('x'));
    assert_eq!(sel.selective_paths, names(&["Abba/Gold"]));
    handle_key(&mut sel, key('j'));
    handle_key(&mut sel, key('x'));
    assert_eq!(sel.selective_paths, names(&["Abba/Gold", "Old"]));
    handle_key(&mut sel, key('j'));
    handle_key(&mut sel, key('x'));
    assert_eq!(sel.flash.as_deref(), Some("cannot select root-level files individually"));
    handle_key(&mut sel, key('k'));
    handle_key(&mut sel, key('x'));
    assert_eq!(sel.selective_paths, names(&["Abba/Gold"]));
    let job = sel.sync_job().unwrap();
    assert_eq!(job.mode, SyncMode::Additive);
    assert_eq!(job.plan.entries.len(), 1);
    assert_eq!(job.plan.entries[0].path, "Abba/Gold/1.flac");
    assert_eq!(job.total_bytes, 10);
    let (stem, paths) = job.selection.unwrap();
    assert_eq!((stem.as_str(), paths), ("main", names(&["Abba/Gold"])));

    let mut none = App::new(vec![], scan_with(&[], &[]));
    none.view = View::Diff;
    handle_key(&mut none, key('y'));
    assert_eq!(none.flash.as_deref(), Some("no diff ready — press enter on a profile first"));
    assert!(none.sync_job().is_none());
    let mut ps = ProgressState::new("x".to_owned(), 1);
    ps.finished = true;
    none.progress_state = Some(ps);
}
