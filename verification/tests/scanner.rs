use dapctl::player::scanner::{is_library_audio, library_order, needs_tag_read, pruned_paths, row_track, ScanRow};

fn row(path: &str, aa: Option<&str>, artist: Option<&str>, album: Option<&str>, disc: Option<u32>, track: Option<u32>, title: Option<&str>) -> ScanRow {
    ScanRow {
        path: path.to_owned(),
        title: title.map(|s| s.to_owned()),
        artist: artist.map(|s| s.to_owned()),
        album_artist: aa.map(|s| s.to_owned()),
        album: album.map(|s| s.to_owned()),
        track_number: track,
        disc_number: disc,
        duration_ms: None,
        sample_rate_hz: None,
        bit_depth: None,
        bitrate_kbps: None,
        channels: None,
    }
}

#[test]
fn audio_extensions() {
    assert!(is_library_audio("FLAC"));
    assert!(is_library_audio("aif"));
    assert!(!is_library_audio("jpg"));
    assert!(!is_library_audio(""));
}

#[test]
fn stale_and_pruned() {
    assert!(needs_tag_read(None, 1, 2));
    assert!(!needs_tag_read(Some((1, 2)), 1, 2));
    assert!(needs_tag_read(Some((1, 3)), 1, 2));
    assert!(needs_tag_read(Some((0, 2)), 1, 2));
    let cached = vec!["/m/a".to_owned(), "/m/b".to_owned(), "/m/c".to_owned()];
    let walked = vec!["/m/c".to_owned(), "/m/a".to_owned()];
    assert_eq!(pruned_paths(&cached, &walked), vec!["/m/b".to_owned()]);
}

#[test]
fn library_order_by_artist_album_disc_track_title() {
    let rows = vec![
        row("/5", None, Some("beck"), Some("Odelay"), None, Some(2), Some("b")),
        row("/4", Some("Abba"), Some("x"), Some("gold"), Some(2), Some(1), Some("a")),
        row("/3", None, Some("ABBA"), Some("Gold"), None, None, Some("z")),
        row("/2", None, Some("abba"), Some("Gold"), Some(1), Some(3), Some("y")),
        row("/1", None, None, None, None, None, None),
        row("/6", None, Some("abba"), Some("Gold"), Some(1), Some(3), Some("Y")),
    ];
    let sorted: Vec<String> = library_order(rows).into_iter().map(|r| r.path).collect();
    assert_eq!(sorted, vec!["/1", "/2", "/6", "/3", "/4", "/5"]);
}

#[test]
fn cached_row_titles() {
    let t = row_track(row("/music/a/01 Intro.flac", None, None, None, None, None, None));
    assert_eq!(t.title, "01 Intro");
    let t = row_track(row("/music/a/x.flac", None, None, None, None, None, Some("Song")));
    assert_eq!(t.title, "Song");
    let t = row_track(row("/", None, None, None, None, None, None));
    assert_eq!(t.title, "unknown");
}
