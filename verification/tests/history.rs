use dapctl::player::history::{last_n_start, resume_choice, HistoryEntry};
use dapctl::player::queue::TrackInfo;

fn entry(position_ms: u64, duration_ms: Option<u64>) -> HistoryEntry {
    let mut t = TrackInfo::from_path("/m/a.flac".to_owned());
    t.duration_ms = duration_ms;
    HistoryEntry::from_track(&t, position_ms, "2024-01-01T00:00:00Z".to_owned())
}

#[test]
fn resume_candidates() {
    assert!(entry(6000, Some(200_000)).is_resume_candidate());
    assert!(entry(6000, None).is_resume_candidate());
    assert!(!entry(5000, Some(200_000)).is_resume_candidate());
    assert!(!entry(195_000, Some(200_000)).is_resume_candidate());
    assert!(!entry(6000, Some(3000)).is_resume_candidate());
    let e = entry(6000, Some(200_000));
    assert_eq!(e.title, "a");
    assert_eq!(e.ts, "2024-01-01T00:00:00Z");
}

#[test]
fn resume_takes_the_last_entry_only() {
    assert_eq!(resume_choice(&vec![]), None);
    assert_eq!(resume_choice(&vec![entry(1000, None), entry(60_000, None)]), Some(1));
    assert_eq!(resume_choice(&vec![entry(60_000, None), entry(1000, None)]), None);
    assert_eq!(last_n_start(10, 3), 7);
    assert_eq!(last_n_start(2, 3), 0);
}
