use dapctl::player::engine::{Engine, EngineAction, PlayerCommand, PlayerEvent};
use dapctl::player::queue::{RepeatMode, TrackInfo};

fn track(path: &str) -> TrackInfo {
    TrackInfo::from_path(path.to_owned())
}

fn opens(a: &EngineAction, path: &str) -> bool {
    matches!(a, EngineAction::Open(t) if t.path == path)
}

fn preloads(a: &EngineAction, path: &str) -> bool {
    matches!(a, EngineAction::Preload(t) if t.path == path)
}

fn reports(a: &EngineAction, n: usize, cursor_at: usize) -> bool {
    matches!(a, EngineAction::Emit(PlayerEvent::QueueUpdated { tracks, cursor }) if tracks.len() == n && *cursor == cursor_at)
}

fn started(a: &EngineAction, path: &str) -> bool {
    matches!(a, EngineAction::Emit(PlayerEvent::TrackStarted(t)) if t.path == path)
}

fn playing_two() -> Engine {
    let mut e = Engine::new();
    e.command(PlayerCommand::PlayQueue(vec![track("/m/a.flac"), track("/m/b.flac")]));
    e
}

#[test]
fn engine_play_queue_stops_reports_opens_and_scans() {
    let mut e = Engine::new();
    let r = e.command(PlayerCommand::PlayQueue(vec![track("/m/a.flac"), track("/m/b.flac")]));
    assert_eq!(r.len(), 5);
    assert!(matches!(r[0], EngineAction::StopSink));
    assert!(reports(&r[1], 2, 0));
    assert!(matches!(r[2], EngineAction::StopSink));
    assert!(opens(&r[3], "/m/a.flac"));
    assert!(matches!(&r[4], EngineAction::ScanTags(ts) if ts.len() == 2));
    assert!(!e.playing && !e.paused && e.preloaded.is_none());
}

#[test]
fn engine_load_queue_stays_idle() {
    let mut e = Engine::new();
    let r = e.command(PlayerCommand::LoadQueue(vec![track("/m/a.flac")]));
    assert_eq!(r.len(), 4);
    assert!(matches!(r[0], EngineAction::StopSink));
    assert!(reports(&r[1], 1, 0));
    assert!(matches!(r[2], EngineAction::Emit(PlayerEvent::Stopped)));
    assert!(matches!(&r[3], EngineAction::ScanTags(ts) if ts.len() == 1));
    assert_eq!(e.queue.len(), 1);
}

#[test]
fn engine_opened_track_plays_and_preloads_the_next() {
    let mut e = playing_two();
    let mut tagged = track("/m/a.flac");
    tagged.artist = Some("Artist".to_owned());
    let r = e.opened(tagged, Ok(()));
    assert_eq!(r.len(), 4);
    assert!(matches!(r[0], EngineAction::PlaySink));
    assert!(matches!(&r[1], EngineAction::Emit(PlayerEvent::QueueUpdated { tracks, cursor: 0 })
        if tracks[0].artist.as_deref() == Some("Artist")));
    assert!(started(&r[2], "/m/a.flac"));
    assert!(preloads(&r[3], "/m/b.flac"));
    assert!(e.playing);
    assert_eq!(e.queue.current().unwrap().artist.as_deref(), Some("Artist"));
}

#[test]
fn engine_gapless_change_to_the_preloaded_track() {
    let mut e = playing_two();
    e.opened(track("/m/a.flac"), Ok(()));
    e.preload_ready(track("/m/b.flac"));
    let r = e.tick(false, 1500, true);
    assert_eq!(r.len(), 4);
    assert!(matches!(r[0], EngineAction::Emit(PlayerEvent::Position(1500))));
    assert!(matches!(r[1], EngineAction::Emit(PlayerEvent::TrackEnded)));
    assert!(started(&r[2], "/m/b.flac"));
    assert!(reports(&r[3], 2, 1));
    assert_eq!(e.queue.cursor(), 1);
    assert!(e.playing && e.preloaded.is_none());
    // the last track ends: repeat is off, so the queue is exhausted
    let r = e.tick(true, 0, true);
    assert_eq!(r.len(), 2);
    assert!(matches!(r[0], EngineAction::Emit(PlayerEvent::TrackEnded)));
    assert!(matches!(r[1], EngineAction::Emit(PlayerEvent::QueueEmpty)));
    assert!(!e.playing);
}

#[test]
fn engine_tick_without_an_ending_only_reports_position() {
    let mut e = playing_two();
    e.opened(track("/m/a.flac"), Ok(()));
    let r = e.tick(false, 42_000, false);
    assert_eq!(r.len(), 1);
    assert!(matches!(r[0], EngineAction::Emit(PlayerEvent::Position(42_000))));
    e.command(PlayerCommand::Pause);
    assert!(e.tick(false, 43_000, false).is_empty());
}

#[test]
fn engine_undecodable_track_is_reported_and_skipped() {
    let mut e = playing_two();
    let r = e.opened(track("/m/a.flac"), Err("bad header".to_owned()));
    assert_eq!(r.len(), 3);
    assert!(matches!(&r[0], EngineAction::Emit(PlayerEvent::DecodeError { path, err })
        if path == "/m/a.flac" && err == "bad header"));
    assert!(matches!(r[1], EngineAction::StopSink));
    assert!(opens(&r[2], "/m/b.flac"));
    assert_eq!(e.queue.cursor(), 1);
}

#[test]
fn engine_next_at_the_end_reports_an_empty_queue() {
    let mut e = playing_two();
    let r = e.command(PlayerCommand::Next);
    assert_eq!(r.len(), 3);
    assert!(opens(&r[2], "/m/b.flac"));
    let r = e.command(PlayerCommand::Next);
    assert_eq!(r.len(), 2);
    assert!(matches!(r[0], EngineAction::StopSink));
    assert!(matches!(r[1], EngineAction::Emit(PlayerEvent::QueueEmpty)));
    // previous goes back one track and plays it
    let r = e.command(PlayerCommand::Prev);
    assert!(opens(&r[2], "/m/a.flac"));
}

#[test]
fn engine_small_commands() {
    let mut e = playing_two();
    assert!(matches!(e.command(PlayerCommand::Volume(500))[0], EngineAction::SetVolume(200)));
    assert!(matches!(e.command(PlayerCommand::Volume(80))[0], EngineAction::SetVolume(80)));
    assert!(e.command(PlayerCommand::CycleRepeat).is_empty());
    assert_eq!(e.queue.repeat, RepeatMode::All);
    let r = e.command(PlayerCommand::Stop);
    assert!(matches!(r[1], EngineAction::Emit(PlayerEvent::Stopped)));
    let r = e.command(PlayerCommand::Enqueue(track("/m/c.flac")));
    assert!(reports(&r[0], 3, 0));
    let r = e.command(PlayerCommand::JumpTo(2));
    assert!(opens(&r[2], "/m/c.flac"));
    let r = e.command(PlayerCommand::Seek(10_000));
    assert!(matches!(r[0], EngineAction::SeekTo(10_000)));
    // repeat all: the track after the last is the first
    assert!(preloads(&r[1], "/m/a.flac"));
}
