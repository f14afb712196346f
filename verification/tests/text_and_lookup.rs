use dapctl::config::Verify;
use dapctl::cover::{first_artwork, itunes_term, mb_query};
use dapctl::diff::compare::compare_checked;
use dapctl::diff::plan::{Entry, EntryKind, Plan};
use dapctl::diff::walker::Entry as WalkEntry;
use dapctl::ssh::parse_find_line;
use dapctl::text::{replace_all, trim_end_slashes_str};
use dapctl::transcode::version_from_banner;

fn walk(path: &str, size: u64, mtime_ns: i128) -> WalkEntry {
    WalkEntry { rel: path.to_owned(), size, mtime_ns, hash: None, src_ext: None }
}

fn plan_entry(kind: EntryKind, size: u64) -> Entry {
    Entry { kind, path: "x".to_owned(), size_bytes: size, transcode_from: None }
}

#[test]
fn replace_all_matches_str_replace() {
    for (s, p, r) in [
        ("aaa", "aa", "b"),
        ("100x100bb.jpg", "100x100bb", "1000x1000bb"),
        ("no match", "zz", "y"),
        ("", "a", "b"),
        ("abab", "ab", ""),
        ("a\"b\"", "\"", "\\\""),
    ] {
        assert_eq!(replace_all(s, p, r), s.replace(p, r), "{s:?} {p:?} {r:?}");
    }
}

#[test]
fn trailing_slashes_are_trimmed() {
    assert_eq!(trim_end_slashes_str("/music///"), "/music");
    assert_eq!(trim_end_slashes_str("///"), "");
    assert_eq!(trim_end_slashes_str("a/b"), "a/b");
}

#[test]
fn musicbrainz_query_escapes_quotes() {
    assert_eq!(mb_query("ABBA", "Gold"), "artist:\"ABBA\" AND release:\"Gold\"");
    assert_eq!(mb_query("The \"Band\"", "X"), "artist:\"The \\\"Band\\\"\" AND release:\"X\"");
    assert_eq!(itunes_term("ABBA", "Gold"), "ABBA Gold");
}

#[test]
fn first_artwork_is_upgraded() {
    let urls = vec![None, Some("https://a/100x100bb.jpg".to_owned()), Some("https://b/other.jpg".to_owned())];
    assert_eq!(first_artwork(&urls), Some("https://a/1000x1000bb.jpg".to_owned()));
    assert_eq!(first_artwork(&vec![None, None]), None);
    assert_eq!(first_artwork(&vec![]), None);
}

#[test]
fn remote_find_lines() {
    assert_eq!(
        parse_find_line("Artist\\Album/01.flac\t1234\t1700000000.5"),
        Some(("Artist/Album/01.flac".to_owned(), 1234, "1700000000.5".to_owned()))
    );
    assert_eq!(parse_find_line("a.flac\tbig\t1.0"), Some(("a.flac".to_owned(), 0, "1.0".to_owned())));
    assert_eq!(parse_find_line("a.flac\t12"), None);
    assert_eq!(parse_find_line("plain"), None);
}

#[test]
fn compare_checked_refuses_extreme_times() {
    let src = vec![walk("a.flac", 10, 5), walk("b.flac", 20, 7)];
    let dst = vec![walk("a.flac", 10, 5)];
    let plan = compare_checked(&src, &dst, Verify::SizeMtime).unwrap();
    let kinds: Vec<EntryKind> = plan.entries.iter().map(|e| e.kind).collect();
    assert_eq!(kinds, vec![EntryKind::Same, EntryKind::New]);
    let odd = vec![walk("a.flac", 10, i128::MAX)];
    assert!(compare_checked(&odd, &dst, Verify::SizeMtime).is_none());
    assert!(compare_checked(&src, &odd, Verify::Off).is_none());
}

#[test]
fn checked_byte_totals() {
    let plan = Plan {
        entries: vec![plan_entry(EntryKind::New, 5), plan_entry(EntryKind::Modified, 7), plan_entry(EntryKind::Orphan, 100)],
        warnings: vec![],
    };
    assert_eq!(plan.total_bytes_checked(EntryKind::New), Some(5));
    assert_eq!(plan.total_bytes_checked(EntryKind::Orphan), Some(100));
    assert_eq!(plan.transfer_bytes_checked(), Some(12));
    let huge = Plan {
        entries: vec![plan_entry(EntryKind::New, u64::MAX), plan_entry(EntryKind::New, 1)],
        warnings: vec![],
    };
    assert_eq!(huge.total_bytes_checked(EntryKind::New), None);
    assert_eq!(huge.transfer_bytes_checked(), None);
}

#[test]
fn ffmpeg_version_edge_cases() {
    assert_eq!(version_from_banner("ffmpeg version 6.1.1 Copyright\r\nmore").version, "6.1.1");
    assert_eq!(version_from_banner("").version, "unknown");
    assert_eq!(version_from_banner("something else\n").version, "unknown");
    assert_eq!(version_from_banner("ffmpeg version ").version, "unknown");
}
