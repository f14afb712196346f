use dapctl::cover::{
    artist_album_of, caa_cache_url, cache_fresh, cache_key, dir_label, embed_action, is_embed_ext, most_common,
    plan_album, record_fetch, to_jpeg, album_cover, cover_file_names, file_outcome, record_embed, EmbedOutcome, EmbedStats, AlbumPlan, CacheEntry, EmbedAction, FetchOutcome, FetchStats,
};
use dapctl::player::lyrics::lrc_path;
use dapctl::transcode::{cache_key as transcode_cache_key, ffmpeg_args, to_hex, version_from_banner, Cache};

#[test]
fn cover_cache_keys_and_freshness() {
    assert_eq!(cache_key("ABBA", "Gold"), "abba\0gold");
    assert_eq!(caa_cache_url("abba\0gold"), "https://coverartarchive.org/release/cached/abba--gold");
    assert!(cache_fresh(100, 100));
    assert!(cache_fresh(2_592_099, 100));
    assert!(!cache_fresh(2_592_100, 100));
    assert!(cache_fresh(5, 100));
}

#[test]
fn fetch_plan_per_album() {
    assert!(matches!(plan_album(true, "a", "b", None, 0), AlbumPlan::AlreadyHave));
    assert!(matches!(plan_album(false, "", "", None, 0), AlbumPlan::NoTags));
    let nf = CacheEntry { url: String::new(), ts: 10 };
    assert!(matches!(plan_album(false, "A", "B", Some(&nf), 20), AlbumPlan::CachedNotFound));
    let hit = CacheEntry { url: "http://x/y.jpg".to_owned(), ts: 10 };
    assert!(matches!(plan_album(false, "A", "B", Some(&hit), 20), AlbumPlan::CachedUrl { ref url } if url == "http://x/y.jpg"));
    assert!(matches!(plan_album(false, "A", "B", Some(&hit), 10 + 3_000_000), AlbumPlan::Search { ref key } if key == "a\0b"));
    let mut s = FetchStats { albums_scanned: 3, already_have: 0, fetched: 0, not_found: 0, errors: 0 };
    record_fetch(&mut s, FetchOutcome::Fetched);
    record_fetch(&mut s, FetchOutcome::NotFound);
    assert_eq!((s.albums_scanned, s.fetched, s.not_found, s.errors), (3, 1, 1, 0));
    record_fetch(&mut s, FetchOutcome::AlreadyHave);
    assert_eq!(s.already_have + s.fetched + s.not_found + s.errors, s.albums_scanned);
}

#[test]
fn embed_decisions() {
    assert!(is_embed_ext("opus"));
    assert_eq!(embed_action("txt", true, false, false), EmbedAction::Ignore);
    assert_eq!(embed_action("wav", true, false, false), EmbedAction::SkipFormat);
    assert_eq!(embed_action("flac", false, false, false), EmbedAction::SkipFormat);
    assert_eq!(embed_action("flac", true, true, false), EmbedAction::SkipHasArt);
    assert_eq!(embed_action("flac", true, true, true), EmbedAction::Embed { remove_existing: true });
    assert_eq!(embed_action("mp3", true, false, false), EmbedAction::Embed { remove_existing: false });
}

#[test]
fn most_common_tags() {
    let v = vec!["b".to_owned(), "a".to_owned(), "b".to_owned()];
    assert_eq!(most_common(&v), "b");
    assert_eq!(most_common(&Vec::new()), "");
    let files = vec![
        (Some("Band".to_owned()), Some("Guest".to_owned()), Some("LP".to_owned())),
        (None, Some("Band".to_owned()), Some("".to_owned())),
        (Some("".to_owned()), Some("Other".to_owned()), Some("LP".to_owned())),
    ];
    assert_eq!(artist_album_of(&files), ("Band".to_owned(), "LP".to_owned()));
}

#[test]
fn labels_and_jpeg() {
    assert_eq!(dir_label("/music/Artist/Album"), "Artist/Album");
    assert_eq!(dir_label("Album"), "Album");
    let jpeg = vec![0xFF, 0xD8, 1, 2, 3];
    assert_eq!(to_jpeg(&jpeg).unwrap(), jpeg);
    assert_eq!(to_jpeg(&[1, 2, 3]).unwrap_err(), "unsupported image format");
    // A 1x1 PNG is re-encoded as JPEG.
    let mut png = Vec::new();
    image::DynamicImage::new_rgb8(1, 1)
        .write_to(&mut std::io::Cursor::new(&mut png), image::ImageFormat::Png)
        .unwrap();
    let out = to_jpeg(&png).unwrap();
    assert_eq!(&out[..2], &[0xFF, 0xD8]);
    let mut expected = Vec::new();
    image::load_from_memory(&png)
        .unwrap()
        .write_to(&mut std::io::Cursor::new(&mut expected), image::ImageFormat::Jpeg)
        .unwrap();
    assert_eq!(out, expected);
}

#[test]
fn transcode_cache_key_is_blake3_hex() {
    let src = *blake3::hash(b"audio").as_bytes();
    let mut h = blake3::Hasher::new();
    h.update(&src);
    h.update(b"-q:a 2");
    assert_eq!(transcode_cache_key(&src, "-q:a 2"), h.finalize().to_hex().to_string());
    assert_ne!(transcode_cache_key(&src, "-q:a 2"), transcode_cache_key(&src, "-q:a 3"));
    assert_eq!(to_hex(&[0x00, 0xab, 0x7f]), "00ab7f");
}

#[test]
fn ffmpeg_banner_and_arguments() {
    assert_eq!(version_from_banner("ffmpeg version 7.0 Copyright (c) 2000-2024\nbuilt with gcc").version, "7.0");
    assert_eq!(version_from_banner("ffmpeg version n6.1.1-static\r\nx").version, "n6.1.1-static");
    assert_eq!(version_from_banner("something else\n").version, "unknown");
    assert_eq!(version_from_banner("").version, "unknown");
    assert_eq!(version_from_banner("ffmpeg version ").version, "unknown");
    assert_eq!(
        ffmpeg_args("in.flac", "  -c:a libmp3lame  -q:a 2 ", "out.mp3"),
        vec!["-i", "in.flac", "-c:a", "libmp3lame", "-q:a", "2", "-y", "out.mp3"]
    );
    assert_eq!(lrc_path("/m/a/song.flac"), "/m/a/song.lrc");
}

#[test]
fn transcode_cache_layout() {
    let c = Cache::new("/cache/transcode".to_owned());
    assert_eq!(c.entry_path("ab12cd", "MP3"), "/cache/transcode/ab/ab12cd.mp3");
    assert_eq!(c.entry_path("a", "flac"), "/cache/transcode/a/a.flac");
    assert_eq!(c.store_tmp_path("ab12cd", "mp3"), "/cache/transcode/ab/ab12cd.mp3.tmp");
    assert_eq!(c.entry_path("éx", "aac"), "/cache/transcode/é/éx.aac");
}

#[test]
fn embed_album_condition_and_counters() {
    assert_eq!(cover_file_names()[0], "folder.jpg");
    assert_eq!(cover_file_names().len(), 8);
    assert_eq!(album_cover(&vec![false, false, true, true]), Some(2));
    assert_eq!(album_cover(&vec![false; 8]), None);
    let mut s = EmbedStats {
        albums_scanned: 2,
        files_embedded: 0,
        files_skipped_has_art: 0,
        files_skipped_no_folder: 0,
        files_skipped_format: 0,
        errors: 0,
    };
    record_embed(&mut s, EmbedOutcome::NoFolderCover { files: 3 });
    record_embed(&mut s, file_outcome(EmbedAction::SkipHasArt, false));
    record_embed(&mut s, file_outcome(EmbedAction::Embed { remove_existing: false }, true));
    record_embed(&mut s, file_outcome(EmbedAction::Embed { remove_existing: true }, false));
    record_embed(&mut s, file_outcome(EmbedAction::SkipFormat, false));
    record_embed(&mut s, file_outcome(EmbedAction::Ignore, false));
    assert_eq!(
        (s.files_embedded, s.files_skipped_has_art, s.files_skipped_no_folder, s.files_skipped_format, s.errors),
        (1, 1, 3, 1, 1)
    );
}
