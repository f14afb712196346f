use dapctl::player::queue::{shuffle_order, Queue, RepeatMode, TrackInfo};

fn track(p: &str) -> TrackInfo {
    TrackInfo {
        path: p.to_owned(),
        title: p.to_owned(),
        artist: None,
        album_artist: None,
        album: None,
        duration_ms: None,
        sample_rate_hz: None,
        bit_depth: None,
        channels: None,
        bitrate_kbps: None,
    }
}

fn three() -> Vec<TrackInfo> {
    vec![track("/m/a.flac"), track("/m/b.flac"), track("/m/c.flac")]
}

#[test]
fn advance_repeat_off_stops_at_end() {
    let mut q = Queue::new();
    q.set(three());
    assert!(q.advance());
    assert!(q.advance());
    assert_eq!(q.cursor(), 2);
    assert!(!q.advance());
    assert_eq!(q.cursor(), 2);
}

#[test]
fn advance_repeat_all_wraps() {
    let mut q = Queue::new();
    q.set(three());
    q.repeat = RepeatMode::All;
    for _ in 0..3 {
        assert!(q.advance());
    }
    assert_eq!(q.cursor(), 0);
}

#[test]
fn advance_repeat_one_stays() {
    let mut q = Queue::new();
    q.set(three());
    q.jump_to(1);
    q.repeat = RepeatMode::One;
    assert!(q.advance());
    assert_eq!(q.cursor(), 1);
    assert_eq!(q.current().unwrap().path, "/m/b.flac");
}

#[test]
fn empty_queue_does_not_advance() {
    let mut q = Queue::new();
    assert!(!q.advance());
    assert!(q.current().is_none());
    assert!(q.is_empty());
}

#[test]
fn prev_and_jump_bounds() {
    let mut q = Queue::new();
    q.set(three());
    q.prev();
    assert_eq!(q.cursor(), 0);
    q.jump_to(5);
    assert_eq!(q.cursor(), 0);
    q.jump_to(2);
    q.prev();
    assert_eq!(q.cursor(), 1);
}

#[test]
fn shuffle_order_is_a_permutation() {
    for n in 0..20usize {
        for seed in [0u64, 1, 42, u64::MAX] {
            let mut o = shuffle_order(n, seed);
            o.sort();
            assert_eq!(o, (0..n).collect::<Vec<_>>());
        }
    }
}

#[test]
fn shuffle_order_matches_xorshift_fisher_yates() {
    let seed = 0x1234_5678_9abc_def0u64;
    let n = 6usize;
    let mut order: Vec<usize> = (0..n).collect();
    let mut s = seed;
    for i in (1..n).rev() {
        s ^= s << 13;
        s ^= s >> 7;
        s ^= s << 17;
        let j = (s as usize) % (i + 1);
        order.swap(i, j);
    }
    assert_eq!(shuffle_order(n, seed), order);
}

#[test]
fn shuffled_current_is_a_queue_track() {
    let mut q = Queue::new();
    q.toggle_shuffle();
    q.set(three());
    let names: Vec<String> = three().into_iter().map(|t| t.path).collect();
    let mut seen = Vec::new();
    for _ in 0..3 {
        let c = q.current().unwrap().path.clone();
        assert!(names.contains(&c));
        seen.push(c);
        q.advance();
    }
    seen.sort();
    assert_eq!(seen, names);
}

#[test]
fn repeat_mode_cycles_and_labels() {
    assert_eq!(RepeatMode::Off.next(), RepeatMode::All);
    assert_eq!(RepeatMode::All.next(), RepeatMode::One);
    assert_eq!(RepeatMode::One.next(), RepeatMode::Off);
    assert_eq!(RepeatMode::All.label(), "all");
}

#[test]
fn push_keeps_cursor_and_clear_empties() {
    let mut q = Queue::new();
    q.set(three());
    q.jump_to(2);
    q.push(track("/m/d.flac"));
    assert_eq!(q.cursor(), 2);
    assert_eq!(q.len(), 4);
    q.clear();
    assert_eq!(q.len(), 0);
    assert_eq!(q.cursor(), 0);
}

#[test]
fn shuffle_toggled_twice_restores_the_order() {
    let mut q = Queue::new();
    q.set((0..20).map(|i| track(&format!("/m/{i:02}.flac"))).collect());
    q.toggle_shuffle();
    let order: Vec<String> = (0..20)
        .map(|i| {
            q.jump_to(i);
            q.current().unwrap().path.clone()
        })
        .collect();
    q.toggle_shuffle();
    assert!(!q.shuffle);
    q.jump_to(3);
    assert_eq!(q.current().unwrap().path, "/m/03.flac");
    q.toggle_shuffle();
    for (i, p) in order.iter().enumerate() {
        q.jump_to(i);
        assert_eq!(&q.current().unwrap().path, p);
    }
}
