use dapctl::player::lyrics::Lyrics;

fn ms(secs: f64) -> u64 {
    (secs * 1000.0) as u64
}

#[test]
fn parse_basic_lrc() {
    let src = "[00:12.34] Hello world\n[01:23.45] Second line\n";
    let lyr = Lyrics::from_lrc(src);
    assert_eq!(lyr.lines.len(), 2);
    assert_eq!(lyr.lines[0].time_ms, 12_340);
    assert_eq!(lyr.lines[0].text, "Hello world");
    assert_eq!(lyr.lines[1].time_ms, 83_450);
}

#[test]
fn skip_metadata_tags() {
    let src = "[ar:Artist]\n[ti:Title]\n[00:05.00] First\n";
    let lyr = Lyrics::from_lrc(src);
    assert_eq!(lyr.lines.len(), 1);
    assert_eq!(lyr.lines[0].text, "First");
}

#[test]
fn multiple_timestamps_same_line() {
    let src = "[00:10.00][01:10.00] Chorus\n";
    let lyr = Lyrics::from_lrc(src);
    assert_eq!(lyr.lines.len(), 2);
    assert!(lyr.lines.iter().all(|l| l.text == "Chorus"));
}

#[test]
fn current_idx_before_first() {
    let src = "[00:10.00] First\n[00:20.00] Second\n";
    let lyr = Lyrics::from_lrc(src);
    assert_eq!(lyr.current_idx(ms(5.0)), None);
}

#[test]
fn current_idx_advances() {
    let src = "[00:10.00] First\n[00:20.00] Second\n[00:30.00] Third\n";
    let lyr = Lyrics::from_lrc(src);
    assert_eq!(lyr.current_idx(ms(10.0)), Some(0));
    assert_eq!(lyr.current_idx(ms(19.9)), Some(0));
    assert_eq!(lyr.current_idx(ms(20.0)), Some(1));
    assert_eq!(lyr.current_idx(ms(99.0)), Some(2));
}

// ── Further cases ───────────────────────────────────────────────────────────

#[test]
fn lines_are_sorted_stably_by_time() {
    let src = "[00:30.00] C\n[00:10.00] A\n[00:30.00] D\n[00:20.00] B\n";
    let lyr = Lyrics::from_lrc(src);
    let got: Vec<(u64, &str)> = lyr.lines.iter().map(|l| (l.time_ms, l.text.as_str())).collect();
    assert_eq!(got, vec![(10_000, "A"), (20_000, "B"), (30_000, "C"), (30_000, "D")]);
}

#[test]
fn fraction_widths_and_whitespace() {
    let lyr = Lyrics::from_lrc("[1:02.5]a\n[ 1 : 02.345]b\r\n[01:02]c\n[01:02.1234]d\n  \n");
    let got: Vec<(u64, &str)> = lyr.lines.iter().map(|l| (l.time_ms, l.text.as_str())).collect();
    assert_eq!(got, vec![(62_000, "c"), (62_345, "b"), (62_500, "a")]);
}

#[test]
fn text_before_tag_is_skipped_and_bad_tag_stops() {
    let lyr = Lyrics::from_lrc("x[00:01.00]one[bad]two\n[00:02.00 no close\n");
    assert_eq!(lyr.lines.len(), 1);
    assert_eq!(lyr.lines[0].time_ms, 1_000);
    assert_eq!(lyr.lines[0].text, "two");
}

#[test]
fn overflowing_timestamp_is_reported() {
    assert!(Lyrics::fits("[00:01.00] ok\n"));
    assert!(!Lyrics::fits("[99999999999999999:00] big\n"));
}

#[test]
fn empty_lyrics_have_no_current_line() {
    let lyr = Lyrics::from_lrc("");
    assert!(lyr.lines.is_empty());
    assert_eq!(lyr.current_idx(1_000), None);
}
