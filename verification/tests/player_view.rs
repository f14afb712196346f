use dapctl::player::lyrics::Lyrics;
use dapctl::player::engine::PlayerEvent;
use dapctl::player::library::{LibraryIndex, LibraryNode};
use dapctl::player::queue::{RepeatMode, TrackInfo};
use dapctl::tui::keys::{Key, KeyCode};
use dapctl::tui::views::player::{
    artist_album_text, next_sleep_timer, progress_label, sleep_text, PlayerFocus, PlayerKeyAction, PlayerRequest, PlayerSource, PlayerView, RightPane,
};

fn key(c: char) -> Key {
    Key { code: KeyCode::Char(c), ctrl: false }
}

fn code(k: KeyCode) -> Key {
    Key { code: k, ctrl: false }
}

fn track(path: &str, artist: &str, album: &str) -> TrackInfo {
    TrackInfo {
        path: path.to_owned(),
        title: path.to_owned(),
        artist: Some(artist.to_owned()),
        album_artist: None,
        album: Some(album.to_owned()),
        duration_ms: None,
        sample_rate_hz: None,
        bit_depth: None,
        channels: None,
        bitrate_kbps: None,
    }
}

#[test]
fn sleep_timer_cycle() {
    assert_eq!(next_sleep_timer(None), Some(900));
    assert_eq!(next_sleep_timer(Some(900)), Some(1800));
    assert_eq!(next_sleep_timer(Some(1000)), Some(2700));
    assert_eq!(next_sleep_timer(Some(2700)), Some(3600));
    assert_eq!(next_sleep_timer(Some(3600)), None);
}

#[test]
fn playback_keys() {
    let mut v = PlayerView::new(true);
    assert!(matches!(v.handle_key(key(' ')), PlayerKeyAction::Send(PlayerRequest::Pause)));
    assert!(v.paused);
    assert!(matches!(v.handle_key(key(' ')), PlayerKeyAction::Send(PlayerRequest::Resume)));
    assert!(!v.paused);
    assert!(matches!(v.handle_key(key('r')), PlayerKeyAction::Send(PlayerRequest::CycleRepeat)));
    assert_eq!(v.repeat, RepeatMode::All);
    assert!(matches!(v.handle_key(key('s')), PlayerKeyAction::Send(PlayerRequest::ToggleShuffle)));
    assert!(v.shuffle);
    assert!(matches!(v.handle_key(key('t')), PlayerKeyAction::Send(PlayerRequest::SetSleepTimer(Some(900)))));
    assert!(matches!(v.handle_key(code(KeyCode::Left)), PlayerKeyAction::Send(PlayerRequest::SeekRelative(-30))));
    assert!(matches!(v.handle_key(key('+')), PlayerKeyAction::VolumeUp));
    assert!(matches!(v.handle_key(key('-')), PlayerKeyAction::VolumeDown));
    v.handle_key(key('d'));
    assert_eq!(v.source, PlayerSource::Destination);
    v.handle_key(key('i'));
    assert_eq!(v.right_pane, RightPane::Lyrics);
    assert!(matches!(v.handle_key(code(KeyCode::Tab)), PlayerKeyAction::Nothing));
    assert_eq!(v.focus, PlayerFocus::Queue, "no library: Tab does nothing");
    assert!(matches!(v.handle_key(key('q')), PlayerKeyAction::Back));

    let mut off = PlayerView::new(false);
    assert!(matches!(off.handle_key(key(' ')), PlayerKeyAction::Nothing));
    assert!(!off.paused);
    off.handle_key(key('r'));
    assert_eq!(off.repeat, RepeatMode::All);
    assert!(matches!(off.handle_key(code(KeyCode::Esc)), PlayerKeyAction::Back));
}

#[test]
fn queue_and_events() {
    let mut v = PlayerView::new(true);
    v.apply_event(
        PlayerEvent::QueueUpdated { tracks: vec![track("/a", "A", "X"), track("/b", "B", "Y")], cursor: 1 },
        false,
    );
    assert_eq!(v.queue_selected, Some(1));
    v.handle_key(key('j'));
    assert_eq!(v.queue_selected, Some(1));
    v.handle_key(key('k'));
    v.handle_key(key('k'));
    assert_eq!(v.queue_selected, Some(0));
    assert!(matches!(v.handle_key(code(KeyCode::Enter)), PlayerKeyAction::Send(PlayerRequest::JumpTo(0))));
    v.right_pane = RightPane::Lyrics;
    v.apply_event(PlayerEvent::TrackStarted(track("/b", "B", "Y")), false);
    assert_eq!(v.right_pane, RightPane::Queue);
    assert_eq!(v.current.as_ref().unwrap().path, "/b");
    assert_eq!(v.queue_selected, Some(1));
    v.apply_event(PlayerEvent::Position(1500), false);
    assert_eq!(v.position_ms, 1500);
    v.apply_event(PlayerEvent::TrackMetadata { idx: 0, track: track("/a2", "A", "X") }, false);
    assert_eq!(v.queue_tracks[0].path, "/a2");
    v.apply_event(PlayerEvent::TrackMetadata { idx: 9, track: track("/z", "Z", "Z") }, false);
    assert_eq!(v.queue_tracks.len(), 2);
    v.apply_event(PlayerEvent::DecodeError { path: "/b".to_owned(), err: "bad".to_owned() }, false);
    assert_eq!(v.flash.as_deref(), Some("bad  (/b)"));
    v.apply_event(PlayerEvent::SleepTimerSet(Some(900)), false);
    assert_eq!(v.sleep_secs, Some(900));
    v.apply_event(PlayerEvent::SleepTimerFired, false);
    assert!(v.paused);
    assert_eq!(v.sleep_secs, None);
    assert_eq!(v.flash.as_deref(), Some("sleep timer — playback paused"));
    v.apply_event(PlayerEvent::Stopped, false);
    assert!(v.current.is_none() && !v.paused && v.position_ms == 0);
}

#[test]
fn library_browsing_and_search() {
    let mut v = PlayerView::new(true);
    v.set_library(LibraryIndex::from_tracks(
        vec![track("/m/a/1.flac", "Abba", "Gold"), track("/m/b/1.flac", "Beck", "Odelay")],
        "/m",
    ));
    assert_eq!(v.focus, PlayerFocus::Library);
    assert!(matches!(v.handle_key(code(KeyCode::Enter)), PlayerKeyAction::Nothing));
    let lib = v.library.as_ref().unwrap();
    assert_eq!(lib.flat, vec![LibraryNode::Artist(0), LibraryNode::Album { artist: 0, album: 0 }, LibraryNode::Artist(1)]);
    v.handle_key(key('j'));
    match v.handle_key(code(KeyCode::Enter)) {
        PlayerKeyAction::Send(PlayerRequest::PlayQueue(ts)) => assert_eq!(ts.len(), 1),
        _ => panic!("an album row plays the album"),
    }
    assert_eq!(v.focus, PlayerFocus::Queue);
    v.handle_key(code(KeyCode::Tab));
    assert_eq!(v.focus, PlayerFocus::Library);
    v.handle_key(key('/'));
    assert!(v.library.as_ref().unwrap().search_active);
    assert!(matches!(v.handle_key(key('o')), PlayerKeyAction::EditSearch));
    v.search_changed("odel".to_owned());
    assert_eq!(v.library.as_ref().unwrap().flat, vec![LibraryNode::Artist(1), LibraryNode::Album { artist: 1, album: 0 }]);
    assert!(matches!(v.handle_key(key('q')), PlayerKeyAction::EditSearch), "q types while searching");
    v.handle_key(code(KeyCode::Esc));
    let lib = v.library.as_ref().unwrap();
    assert!(!lib.search_active);
    assert!(lib.search.is_empty());
    assert_eq!(lib.flat.len(), 3);
}

#[test]
fn tracks_from_paths_and_tags() {
    let t = TrackInfo::from_path("/music/a/01 Intro.flac".to_owned());
    assert_eq!(t.title, "01 Intro");
    assert!(t.artist.is_none());
    let t = t.with_tag_values(Some("Abba".to_owned()), None, Some(String::new()), Some(61_000));
    assert_eq!(t.title, "01 Intro", "an empty title tag keeps the file stem");
    assert_eq!(t.artist.as_deref(), Some("Abba"));
    assert_eq!(t.duration_ms, Some(61_000));
    let t = t.with_tag_values(None, Some("Gold".to_owned()), Some("Intro".to_owned()), None);
    assert_eq!((t.title.as_str(), t.album.as_deref(), t.artist.as_deref()), ("Intro", Some("Gold"), Some("Abba")));
    assert_eq!(TrackInfo::from_path("/".to_owned()).title, "unknown");
}

#[test]
fn lyrics_files() {
    assert!(Lyrics::load_from("[ar:Someone]\n").is_none());
    let l = Lyrics::load_from("[00:01.00] a\n").unwrap();
    assert_eq!(l.lines.len(), 1);
}

#[test]
fn player_texts() {
    let mut v = PlayerView::new(true);
    assert!(v.is_idle());
    assert_eq!(v.idle_hint(), "  — idle —  press m from profiles to load library, or space on a diff entry");
    v.set_library(LibraryIndex::from_tracks(
        vec![track("/m/a/1.flac", "Abba", "Gold"), track("/m/a/2.flac", "Abba", "Gold")],
        "/m",
    ));
    assert_eq!(v.idle_hint(), "  — idle —  press Enter on an album in the library to play");
    let lib = v.library.as_mut().unwrap();
    assert_eq!(lib.title(true), " ▶ library  (1) ");
    assert_eq!(lib.title(false), "   library  (1) ");
    assert_eq!(lib.row_label(0, 20).as_deref(), Some("▶ Abba"));
    lib.toggle_expand();
    assert_eq!(lib.row_label(0, 4).as_deref(), Some("▼ A…"));
    assert_eq!(lib.row_label(1, 16).as_deref(), Some("  Gold       (2)"));
    assert_eq!(lib.row_label(2, 16), None);
    lib.scanning = true;
    lib.scan_done = 3;
    lib.scan_total = 9;
    assert_eq!(lib.title(true), " ▶ library  (3/9 scanning...) ");
    lib.search_active = true;
    lib.search = "go".to_owned();
    assert_eq!(lib.title(true), " / go_ ");
    assert_eq!(lib.empty_hint(), "  — no results —");
    let t = track("/x.flac", "Abba", "Gold");
    assert_eq!(artist_album_text(&t), "  Abba  ·  Gold");
    assert_eq!(progress_label(61_500, Some(3_600_000)), "  1:01  /  1:00:00");
    assert_eq!(progress_label(0, None), "  0:00  /  ?:??");
    assert_eq!(sleep_text(605), "  ⏾ sleep 10:05");
}
