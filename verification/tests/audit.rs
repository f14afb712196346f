use dapctl::audit::{
    album_display, album_report, analyze_album, build_report, is_audio_ext, is_cover_name, AlbumInput, Issue,
    Severity, TrackMeta,
};

fn meta(ext: &str, num: Option<u32>, ok: bool, cover: bool) -> TrackMeta {
    TrackMeta {
        ext: ext.to_owned(),
        title_ok: ok,
        artist_ok: ok,
        album_ok: ok,
        track_num: num,
        year_ok: ok,
        has_embedded_cover: cover,
    }
}

#[test]
fn clean_album_has_no_issues() {
    let t = vec![meta("flac", Some(1), true, true), meta("flac", Some(2), true, true)];
    assert!(analyze_album(&t, false).is_empty());
}

#[test]
fn issues_sorted_high_first() {
    let t = vec![meta("flac", Some(1), false, false), meta("mp3", Some(3), true, false)];
    let issues = analyze_album(&t, false);
    let sev: Vec<Severity> = issues.iter().map(|i| i.severity).collect();
    assert_eq!(
        sev,
        vec![Severity::High, Severity::High, Severity::High, Severity::High, Severity::Medium, Severity::Medium, Severity::Low]
    );
    assert!(matches!(issues[3].issue, Issue::NoCover));
    match &issues[4].issue {
        Issue::FormatMix { formats } => assert_eq!(formats, &vec!["FLAC".to_owned(), "MP3".to_owned()]),
        other => panic!("unexpected {other:?}"),
    }
    match &issues[5].issue {
        Issue::TrackGap { missing } => assert_eq!(missing, &vec![2]),
        other => panic!("unexpected {other:?}"),
    }
    match &issues[0].issue {
        Issue::MissingTag { field, affected } => assert_eq!((field.as_str(), *affected), ("title", 1)),
        other => panic!("unexpected {other:?}"),
    }
    assert_eq!(issues[0].issue.description(), "1 track(s) missing title tag");
    assert_eq!(issues[3].issue.description(), "no cover art");
    assert_eq!(issues[4].issue.description(), "format mix: FLAC + MP3");
    assert_eq!(issues[5].issue.description(), "track gaps: 2");
}

#[test]
fn long_gap_lists_are_shortened() {
    let gap = Issue::TrackGap { missing: vec![2, 3, 5, 7, 11] };
    assert_eq!(gap.description(), "track gaps: 2, 3, 5 (and 2 more)");
    assert_eq!(Issue::TrackGap { missing: vec![1, 2, 3, 4] }.description(), "track gaps: 1, 2, 3, 4");
    assert_eq!(gap.severity(), Severity::Medium);
    assert_eq!(Issue::MissingTag { field: "year".to_owned(), affected: 2 }.severity(), Severity::Low);
    assert_eq!(Issue::MissingTag { field: "track_num".to_owned(), affected: 2 }.severity(), Severity::Medium);
}

#[test]
fn folder_cover_counts() {
    let t = vec![meta("flac", Some(1), true, false)];
    assert!(analyze_album(&t, true).is_empty());
    assert_eq!(analyze_album(&t, false).len(), 1);
}

#[test]
fn audio_and_cover_names() {
    assert!(is_audio_ext("FLAC"));
    assert!(is_audio_ext("ape"));
    assert!(!is_audio_ext("jpg"));
    assert!(is_cover_name("Folder.JPG"));
    assert!(is_cover_name("front.jpeg"));
    assert!(!is_cover_name("back.jpg"));
}

#[test]
fn display_labels() {
    assert_eq!(album_display(Some("Artist"), Some("Album"), "/lib/a/b", "/lib"), "Artist / Album");
    assert_eq!(album_display(Some(""), Some("Album"), "/lib/a/b", "/lib"), "a/b");
    assert_eq!(album_display(None, None, "/else/x", "/lib"), "/else/x");
}

fn input(path: &str, display: &str, tracks: Vec<TrackMeta>, cover: bool) -> AlbumInput {
    AlbumInput { path: path.to_owned(), display: display.to_owned(), tracks, folder_has_cover: cover }
}

#[test]
fn report_sorted_by_severity_then_label() {
    let ok = || vec![meta("flac", Some(1), true, true)];
    let albums = vec![
        input("/l/1", "Zed / Low", vec![meta("flac", Some(1), true, true), meta("flac", Some(3), true, true)], false),
        input("/l/2", "Clean", ok(), false),
        input("/l/3", "Beta / NoCover", vec![meta("flac", Some(1), true, false)], false),
        input("/l/4", "Alpha / NoCover", vec![meta("flac", Some(1), true, false)], false),
    ];
    let r = build_report("/l".to_owned(), albums);
    assert_eq!(r.albums_scanned, 4);
    assert_eq!(r.tracks_scanned, 5);
    assert_eq!(r.albums_with_issues, 3);
    let labels: Vec<&str> = r.albums.iter().map(|a| a.display.as_str()).collect();
    assert_eq!(labels, vec!["Alpha / NoCover", "Beta / NoCover", "Zed / Low"]);
    assert_eq!((r.issues_total, r.high, r.medium, r.low), (3, 2, 1, 0));
    assert_eq!(r.albums[2].max_severity(), Some(Severity::Medium));
    assert!(album_report(input("/x", "x", ok(), false)).is_none());
}
