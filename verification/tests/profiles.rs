use dapctl::config::{
    find, profile_candidate, validate, with_selective_paths, Filters, Mode, ProfileHeader, ProfileLocation, ResolvedProfile, SyncProfile,
    Transcode, Transfer,
};
use dapctl::dap::{builtin_ids, list, load, Codecs, DapHeader, DapProfile, Exclude, Filesystem, Layout, ProfileSource, Quirks};
use dapctl::diff::walker::{admits, tag_matches, AudioTags, Entry};
use dapctl::paths::is_plain_ext;
use dapctl::error::{ConfigError, DapError};
use dapctl::export::generate;

fn sync_profile(incl: &[&str], excl: &[&str]) -> SyncProfile {
    let mut filters = Filters::empty();
    filters.include_globs = incl.iter().map(|s| s.to_string()).collect();
    filters.exclude_globs = excl.iter().map(|s| s.to_string()).collect();
    SyncProfile {
        schema_version: 1,
        profile: ProfileHeader {
            name: "main".to_owned(),
            source: "/music".to_owned(),
            destination: "auto:fiio-m21".to_owned(),
            dap_profile: "fiio-m21".to_owned(),
            mode: Mode::Additive,
        },
        filters,
        transfer: Transfer::default(),
        transcode: Transcode { enabled: false, rules: Vec::new() },
    }
}

fn dap_profile(globs: &[&str]) -> DapProfile {
    DapProfile {
        schema_version: 1,
        dap: DapHeader {
            id: "fiio-m21".to_owned(),
            name: "FiiO M21".to_owned(),
            vendor: "FiiO".to_owned(),
            firmware_min: None,
            sources: Vec::new(),
        },
        filesystem: Filesystem {
            preferred: "exfat".to_owned(),
            supported: vec!["exfat".to_owned()],
            max_filename_bytes: 255,
            max_path_bytes: 1024,
            case_sensitive: false,
        },
        codecs: Codecs {
            lossless: vec!["flac".to_owned()],
            lossy: vec!["mp3".to_owned()],
            max_sample_rate_hz: 384000,
            max_bit_depth: 32,
            dsd: Vec::new(),
        },
        layout: Layout { music_root: "/Music/".to_owned(), prefers_artist_album_tree: true },
        exclude: Exclude { globs: globs.iter().map(|s| s.to_string()).collect() },
        quirks: Quirks { warn_on_embedded_art_mb: None, normalize_unicode: None },
    }
}

#[test]
fn find_prefers_an_existing_path() {
    assert_eq!(find("main", true, true).unwrap(), ProfileLocation::Path);
    assert_eq!(find("main", false, true).unwrap(), ProfileLocation::ConfigDir);
    match find("main", false, false) {
        Err(ConfigError::NotFound { name }) => assert_eq!(name, "main"),
        other => panic!("unexpected {other:?}"),
    }
    assert_eq!(profile_candidate("/cfg/profiles", "main"), "/cfg/profiles/main.toml");
}

#[test]
fn dap_ids_and_lookup() {
    let ids = builtin_ids();
    assert_eq!(ids.len(), 7);
    assert_eq!(ids[0], "ak-sr35");
    let all = list(&vec!["zzz-custom".to_owned(), "fiio-m21".to_owned(), "a-mine".to_owned()]);
    assert_eq!(
        all,
        vec!["a-mine", "ak-sr35", "fiio-m11", "fiio-m21", "generic", "hiby-r6", "ibasso-dx320", "shanling-m3ultra", "zzz-custom"]
    );
    assert_eq!(load("generic", false).unwrap(), ProfileSource::Builtin(3));
    assert_eq!(load("generic", true).unwrap(), ProfileSource::UserOverride);
    match load("nope", false) {
        Err(DapError::UnknownId { id }) => assert_eq!(id, "nope"),
        other => panic!("unexpected {other:?}"),
    }
}

#[test]
fn validation_errors() {
    assert!(validate(&sync_profile(&[], &["*.tmp"])).is_ok());
    let mut p = sync_profile(&[], &[]);
    p.schema_version = 2;
    assert!(matches!(validate(&p), Err(ConfigError::UnsupportedVersion { got: 2, expected: 1 })));
    let mut p = sync_profile(&[], &[]);
    p.profile.source = "   ".to_owned();
    match validate(&p) {
        Err(ConfigError::MissingField { section, field }) => assert_eq!((section.as_str(), field.as_str()), ("profile", "source")),
        other => panic!("unexpected {other:?}"),
    }
    match validate(&sync_profile(&["ok/**"], &["a[b"])) {
        Err(ConfigError::InvalidGlob { pattern, reason }) => {
            assert_eq!(pattern, "a[b");
            assert_eq!(reason, globset::Glob::new("a[b").unwrap_err().to_string());
        }
        other => panic!("unexpected {other:?}"),
    }
}

#[test]
fn glob_sets_filter_walk_entries() {
    let r = ResolvedProfile { sync: sync_profile(&["**/*.flac"], &["**/secret/**"]), dap: dap_profile(&["**/.DS_Store"]) };
    let globs: Vec<String> = r.all_exclude_globs();
    assert_eq!(globs, vec!["**/.DS_Store", "**/secret/**"]);
    let exc = r.build_exclude_set().unwrap();
    let inc = r.build_include_set().unwrap();
    assert!(admits("a/b.flac", &exc, inc.as_ref()));
    assert!(!admits("a/b.mp3", &exc, inc.as_ref()));
    assert!(!admits("x/secret/c.flac", &exc, inc.as_ref()));
    assert!(!admits("x/.DS_Store", &exc, None));
    assert!(admits("x/c.mp3", &exc, None));
    let none = ResolvedProfile { sync: sync_profile(&[], &[]), dap: dap_profile(&[]) };
    assert!(none.build_include_set().unwrap().is_none());
    let bad = ResolvedProfile { sync: sync_profile(&[], &["a[b"]), dap: dap_profile(&[]) };
    assert!(bad.build_exclude_set().is_err());
    assert_eq!(bad.build_exclude_set().unwrap_err(), globset::Glob::new("a[b").unwrap_err().to_string());
}

fn tags(sr: Option<u32>, bd: Option<u8>, artist: Option<&str>, genre: Option<&str>) -> AudioTags {
    AudioTags { sample_rate: sr, bit_depth: bd, artist: artist.map(|s| s.to_owned()), genre: genre.map(|s| s.to_owned()) }
}

#[test]
fn tag_filters() {
    let mut f = Filters::empty();
    f.min_sample_rate_hz = Some(48000);
    f.min_bit_depth = Some(24);
    assert!(tag_matches(None, &f));
    assert!(tag_matches(Some(&tags(Some(96000), Some(24), None, None)), &f));
    assert!(!tag_matches(Some(&tags(Some(44100), Some(24), None, None)), &f));
    assert!(!tag_matches(Some(&tags(Some(96000), Some(16), None, None)), &f));
    // an unknown value is not strictly below a minimum: the file is kept
    assert!(tag_matches(Some(&tags(None, Some(24), None, None)), &f));
    assert!(tag_matches(Some(&tags(Some(96000), None, None, None)), &f));
    let mut f = Filters::empty();
    f.max_sample_rate_hz = Some(96000);
    assert!(tag_matches(Some(&tags(None, None, None, None)), &f));
    assert!(!tag_matches(Some(&tags(Some(192000), None, None, None)), &f));
    let mut f = Filters::empty();
    f.include_artists = vec!["Björk".to_owned()];
    f.exclude_genres = vec!["Podcast".to_owned()];
    assert!(tag_matches(Some(&tags(None, None, Some("BJÖRK"), Some("Electronic"))), &f));
    assert!(!tag_matches(Some(&tags(None, None, Some("Other"), None)), &f));
    assert!(!tag_matches(Some(&tags(None, None, Some("björk"), Some("podcast"))), &f));
}

#[test]
fn m3u_export() {
    let entries = vec![
        Entry { rel: "A/B/01.flac".to_owned(), size: 1, mtime_ns: 0, hash: None, src_ext: None },
        Entry { rel: "C\\D\\02.flac".to_owned(), size: 1, mtime_ns: 0, hash: None, src_ext: None },
    ];
    assert_eq!(generate("/Music/", &entries), "#EXTM3U\n/Music/A/B/01.flac\n/Music/C/D/02.flac\n");
    assert_eq!(generate("/Music", &[].to_vec()), "#EXTM3U\n");
}

#[test]
fn selective_paths_saved_into_profile_text() {
    let text = "# my profile\nschema_version = 1\n\n[profile]\nname = \"main\"\n";
    let paths = vec!["Artist/Album".to_owned(), "Other/One".to_owned()];
    let out = with_selective_paths("/p/main.toml", text, &paths).unwrap();
    assert!(out.starts_with("# my profile\nschema_version = 1\n"));
    assert!(out.contains("[selective]"));
    assert!(out.contains("include_paths = [\"Artist/Album\", \"Other/One\"]"));
    // a second save replaces the first selection
    let again = with_selective_paths("/p/main.toml", &out, &vec!["X/Y".to_owned()]).unwrap();
    assert!(again.contains("include_paths = [\"X/Y\"]"));
    assert!(!again.contains("Artist/Album"));
}

#[test]
fn selective_paths_refuse_non_toml_and_non_table() {
    match with_selective_paths("/p/bad.toml", "= = =", &vec![]) {
        Err(ConfigError::Parse { path, .. }) => assert_eq!(path, "/p/bad.toml"),
        other => panic!("unexpected {other:?}"),
    }
    assert!(matches!(
        with_selective_paths("/p/bad.toml", "selective = 5\n", &vec![]),
        Err(ConfigError::Parse { .. })
    ));
}

#[test]
fn plain_extensions() {
    assert!(is_plain_ext("flac"));
    assert!(is_plain_ext("m4a.tmp"));
    assert!(!is_plain_ext("x/y"));
    assert!(!is_plain_ext("a\\b"));
}
