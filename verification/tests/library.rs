use dapctl::player::library::{normalize_key, LibraryIndex, LibraryNode};
use dapctl::player::queue::TrackInfo;

fn track(path: &str, title: &str, artist: Option<&str>, album_artist: Option<&str>, album: Option<&str>) -> TrackInfo {
    TrackInfo {
        path: path.to_owned(),
        title: title.to_owned(),
        artist: artist.map(|s| s.to_owned()),
        album_artist: album_artist.map(|s| s.to_owned()),
        album: album.map(|s| s.to_owned()),
        duration_ms: None,
        sample_rate_hz: None,
        bit_depth: None,
        channels: None,
        bitrate_kbps: None,
    }
}

#[test]
fn normalize_key_folds_case_and_diacritics() {
    assert_eq!(normalize_key("Rosalía"), "rosalia");
    assert_eq!(normalize_key("Kings Of Leon"), "kings of leon");
    assert_eq!(normalize_key("ÀÉÎÕÜ Ñ ç"), "aeiou n c");
    assert_eq!(normalize_key(""), "");
}

#[test]
fn groups_merge_case_and_accent_variants_first_name_wins() {
    let tracks = vec![
        track("/m/x/1.flac", "One", Some("Kings Of Leon"), None, Some("Only By The Night")),
        track("/m/x/2.flac", "Two", Some("Kings of Leon"), None, Some("only by the night")),
        track("/m/y/1.flac", "Tres", Some("Rosalía"), None, Some("Motomami")),
        track("/m/y/2.flac", "Cuatro", Some("Rosalia"), None, Some("Motomami")),
    ];
    let lib = LibraryIndex::from_tracks(tracks, "/m");
    assert_eq!(lib.artists.len(), 2);
    assert_eq!(lib.artists[0].name, "Kings Of Leon");
    assert_eq!(lib.artists[0].albums.len(), 1);
    assert_eq!(lib.artists[0].albums[0].name, "Only By The Night");
    assert_eq!(lib.artists[0].albums[0].tracks.len(), 2);
    assert_eq!(lib.artists[1].name, "Rosalía");
    assert_eq!(lib.artists[1].albums[0].tracks[1].title, "Cuatro");
    assert_eq!(lib.track_count(), 4);
}

#[test]
fn album_artist_wins_and_empty_tags_fall_back_to_folders() {
    let tracks = vec![
        track("/lib/Band/Record/01.flac", "a", Some("Guest"), Some("Band"), Some("Record")),
        track("/lib/Folder Artist/Folder Album/02.flac", "b", Some(""), None, Some("")),
        track("/lib/loose.flac", "c", None, None, None),
    ];
    let lib = LibraryIndex::from_tracks(tracks, "/lib");
    let names: Vec<&str> = lib.artists.iter().map(|a| a.name.as_str()).collect();
    assert_eq!(names, vec!["Band", "Folder Artist", "Unknown Artist"]);
    assert_eq!(lib.artists[1].albums[0].name, "Folder Album");
    assert_eq!(lib.artists[2].albums[0].name, "Unknown Album");
}

#[test]
fn artists_and_albums_sorted_by_key() {
    let tracks = vec![
        track("/m/1", "t1", Some("zeta"), None, Some("B")),
        track("/m/2", "t2", Some("Alpha"), None, Some("b side")),
        track("/m/3", "t3", Some("alpha"), None, Some("A side")),
    ];
    let lib = LibraryIndex::from_tracks(tracks, "/m");
    assert_eq!(lib.artists[0].name, "Alpha");
    let albums: Vec<&str> = lib.artists[0].albums.iter().map(|a| a.name.as_str()).collect();
    assert_eq!(albums, vec!["A side", "b side"]);
    assert_eq!(lib.artists[1].name, "zeta");
}

#[test]
fn every_track_is_kept() {
    let mut tracks = Vec::new();
    for i in 0..30 {
        let artist = format!("Artist {}", i % 4);
        let album = format!("Album {}", i % 3);
        tracks.push(track(&format!("/m/{i}.flac"), "t", Some(&artist), None, Some(&album)));
    }
    let lib = LibraryIndex::from_tracks(tracks, "/m");
    assert_eq!(lib.track_count(), 30);
    assert_eq!(lib.artists.len(), 4);
}

#[test]
fn empty_library() {
    let lib = LibraryIndex::empty();
    assert!(lib.is_empty());
    assert_eq!(lib.track_count(), 0);
    assert!(lib.build_flat(&[], "").is_empty());
    assert!(LibraryIndex::from_tracks(Vec::new(), "/m").is_empty());
}

#[test]
fn flat_list_follows_expansion_and_search() {
    let tracks = vec![
        track("/m/1", "Song One", Some("Alpha"), None, Some("First")),
        track("/m/2", "Another", Some("Alpha"), None, Some("Second")),
        track("/m/3", "Hidden Gem", Some("Beta"), None, Some("Third")),
    ];
    let lib = LibraryIndex::from_tracks(tracks, "/m");
    assert_eq!(lib.build_flat(&[], ""), vec![LibraryNode::Artist(0), LibraryNode::Artist(1)]);
    assert_eq!(
        lib.build_flat(&[true], ""),
        vec![
            LibraryNode::Artist(0),
            LibraryNode::Album { artist: 0, album: 0 },
            LibraryNode::Album { artist: 0, album: 1 },
            LibraryNode::Artist(1),
        ]
    );
    // A search matches case-insensitively on track titles and expands.
    assert_eq!(
        lib.build_flat(&[], "GEM"),
        vec![LibraryNode::Artist(1), LibraryNode::Album { artist: 1, album: 0 }]
    );
    // An artist match shows all of its albums.
    assert_eq!(
        lib.build_flat(&[], "alph"),
        vec![
            LibraryNode::Artist(0),
            LibraryNode::Album { artist: 0, album: 0 },
            LibraryNode::Album { artist: 0, album: 1 },
        ]
    );
    assert!(lib.build_flat(&[true, true], "nothing").is_empty());
}
