//! The audio engine's decisions: what each command and each poll of the
//! sink does to the queue and asks of the sink, and what it reports to the
//! player view. The sink itself (decoding and output) is driven by the
//! application, which performs the actions in order.

use vstd::prelude::*;

use crate::player::queue::{advance_spec, duplicate_tracks, next_mode, Queue, RepeatMode, TrackInfo};

verus! {

/// An event of the audio engine.
pub enum PlayerEvent {
    TrackStarted(TrackInfo),
    /// Playback position, in milliseconds.
    Position(u64),
    TrackEnded,
    QueueEmpty,
    QueueUpdated { tracks: Vec<TrackInfo>, cursor: usize },
    Stopped,
    DecodeError { path: String, err: String },
    /// Background tag scan result for a single queue entry.
    TrackMetadata { idx: usize, track: TrackInfo },
    /// A sleep timer of this many seconds was set (`None`: cancelled).
    SleepTimerSet(Option<u64>),
    SleepTimerFired,
}


/// A command for the audio engine.
pub enum PlayerCommand {
    /// Load a queue without starting playback (cursor at 0, idle).
    LoadQueue(Vec<TrackInfo>),
    /// Load a queue and play it from its first track.
    PlayQueue(Vec<TrackInfo>),
    /// Append a track to the queue.
    Enqueue(TrackInfo),
    /// Jump to a queue position and play it.
    JumpTo(usize),
    Pause,
    Resume,
    Stop,
    Next,
    Prev,
    ToggleShuffle,
    CycleRepeat,
    /// Seek to this position, in milliseconds.
    Seek(u64),
    /// Seek by this many seconds (negative: back).
    SeekRelative(i64),
    /// Playback volume in percent: 100 plays unchanged, 0 mutes, at most 200.
    Volume(u16),
}

/// Work for the audio sink and reports for the player view, done in order.
pub enum EngineAction {
    /// Stop the sink, dropping every source it holds.
    StopSink,
    PauseSink,
    /// Start or resume the sink.
    PlaySink,
    /// Read the track's tags, decode it and append it to the sink; report
    /// the outcome to `Engine::opened`.
    Open(TrackInfo),
    /// Decode the track and append it behind the playing one; report
    /// success to `Engine::preload_ready`.
    Preload(TrackInfo),
    /// Seek to this position, in milliseconds.
    SeekTo(u64),
    /// Seek by this many seconds.
    SeekBy(i64),
    /// Set the volume, in percent.
    SetVolume(u16),
    Emit(PlayerEvent),
    /// Read the tags of these tracks in the background, reporting each as
    /// `TrackMetadata` with its queue index.
    ScanTags(Vec<TrackInfo>),
}

/// The engine's state beside its sink.
pub struct Engine {
    pub queue: Queue,
    pub paused: bool,
    /// A track plays and the end of its source is awaited.
    pub playing: bool,
    /// The next track, already appended for a gapless change.
    pub preloaded: Option<TrackInfo>,
}

/// The track under the queue's cursor.
pub open spec fn current_track(q: Queue) -> Option<TrackInfo> {
    match q.effective_idx_spec() {
        Some(i) => Some(q.tracks_spec()[i as int]),
        None => None,
    }
}

/// `a` reports the queue `q`: its tracks and cursor.
pub open spec fn reports_queue(a: EngineAction, q: Queue) -> bool {
    a matches EngineAction::Emit(PlayerEvent::QueueUpdated { tracks, cursor }) && tracks@ == q.tracks_spec() && cursor
        == q.cursor_spec()
}

/// Starting the current track: stop the sink and open it; nothing without
/// one.
pub open spec fn start_actions(q: Queue) -> Seq<EngineAction> {
    match current_track(q) {
        Some(t) => seq![EngineAction::StopSink, EngineAction::Open(t)],
        None => Seq::empty(),
    }
}

/// The engine once the current track is started: nothing plays and
/// nothing is preloaded until it opens.
pub open spec fn after_start(e: Engine) -> Engine {
    match current_track(e.queue) {
        Some(_) => Engine { playing: false, preloaded: None, ..e },
        None => e,
    }
}

/// Preloading the next track when none is preloaded yet.
pub open spec fn preload_actions(e: Engine) -> Seq<EngineAction> {
    if e.preloaded is Some {
        Seq::empty()
    } else {
        match e.queue.next_track_spec() {
            Some(t) => seq![EngineAction::Preload(t)],
            None => Seq::empty(),
        }
    }
}

/// `n` holds `o`'s tracks, order, repeat mode and shuffle, with cursor `c`.
pub open spec fn moved_to(o: Queue, n: Queue, c: nat) -> bool {
    &&& n.tracks_spec() == o.tracks_spec()
    &&& n.order_spec() == o.order_spec()
    &&& n.repeat_mode() == o.repeat_mode()
    &&& n.shuffling() == o.shuffling()
    &&& n.cursor_spec() == c
}

/// `n` is `o` reloaded with `ts`, on its first track.
pub open spec fn reloaded(o: Queue, n: Queue, ts: Seq<TrackInfo>) -> bool {
    &&& n.tracks_spec() == ts
    &&& n.cursor_spec() == 0
    &&& n.repeat_mode() == o.repeat_mode()
    &&& n.shuffling() == o.shuffling()
    &&& n.order_ok()
}

/// `r` is a load of `ts`: stop, report the queue `q`, `middle`, and scan
/// the tags of `ts`.
pub open spec fn load_actions(r: Seq<EngineAction>, q: Queue, middle: Seq<EngineAction>, ts: Seq<TrackInfo>) -> bool {
    &&& r.len() == middle.len() + 3
    &&& r[0] == EngineAction::StopSink
    &&& reports_queue(r[1], q)
    &&& r.subrange(2, r.len() - 1) == middle
    &&& r[r.len() - 1] matches EngineAction::ScanTags(v) && v@ == ts
}

/// What `command` does with `cmd`: `n` is the engine after it, `r` the
/// actions it asks for.
pub open spec fn command_spec(o: Engine, cmd: PlayerCommand, n: Engine, r: Seq<EngineAction>) -> bool {
    let halted = Engine { queue: n.queue, paused: false, playing: false, preloaded: None, ..o };
    match cmd {
        PlayerCommand::LoadQueue(ts) => {
            &&& reloaded(o.queue, n.queue, ts@)
            &&& n == halted
            &&& load_actions(r, n.queue, seq![EngineAction::Emit(PlayerEvent::Stopped)], ts@)
        },
        PlayerCommand::PlayQueue(ts) => {
            &&& reloaded(o.queue, n.queue, ts@)
            &&& n == halted
            &&& load_actions(r, n.queue, start_actions(n.queue), ts@)
        },
        PlayerCommand::Enqueue(t) => {
            &&& n.queue.tracks_spec() == o.queue.tracks_spec().push(t)
            &&& n.queue.cursor_spec() == o.queue.cursor_spec()
            &&& n.queue.repeat_mode() == o.queue.repeat_mode()
            &&& n.queue.shuffling() == o.queue.shuffling()
            &&& n.queue.order_ok()
            &&& n == (Engine { queue: n.queue, ..o })
            &&& r.len() == 1 && reports_queue(r[0], n.queue)
        },
        PlayerCommand::JumpTo(i) => {
            &&& moved_to(
                o.queue,
                n.queue,
                if i < o.queue.tracks_spec().len() {
                    i as nat
                } else {
                    o.queue.cursor_spec()
                },
            )
            &&& n == halted
            &&& r == seq![EngineAction::StopSink] + start_actions(n.queue)
        },
        PlayerCommand::Pause => n == (Engine { paused: true, ..o }) && r == seq![EngineAction::PauseSink],
        PlayerCommand::Resume => n == (Engine { paused: false, ..o }) && r == seq![EngineAction::PlaySink],
        PlayerCommand::Stop => {
            &&& n == (Engine { paused: false, playing: false, preloaded: None, ..o })
            &&& r == seq![EngineAction::StopSink, EngineAction::Emit(PlayerEvent::Stopped)]
        },
        PlayerCommand::Next => {
            let (c, more) = advance_spec(o.queue.cursor_spec(), o.queue.tracks_spec().len(), o.queue.repeat_mode());
            &&& moved_to(o.queue, n.queue, c)
            &&& if more {
                n == halted && r == seq![EngineAction::StopSink] + start_actions(n.queue)
            } else {
                n == (Engine { queue: n.queue, playing: false, preloaded: None, ..o }) && r == seq![
                    EngineAction::StopSink,
                    EngineAction::Emit(PlayerEvent::QueueEmpty),
                ]
            }
        },
        PlayerCommand::Prev => {
            &&& moved_to(
                o.queue,
                n.queue,
                if o.queue.cursor_spec() > 0 {
                    (o.queue.cursor_spec() - 1) as nat
                } else {
                    0
                },
            )
            &&& n == halted
            &&& r == seq![EngineAction::StopSink] + start_actions(n.queue)
        },
        PlayerCommand::ToggleShuffle => {
            &&& n.queue.shuffling() == !o.queue.shuffling()
            &&& n.queue.tracks_spec() == o.queue.tracks_spec()
            &&& n.queue.cursor_spec() == o.queue.cursor_spec()
            &&& n.queue.repeat_mode() == o.queue.repeat_mode()
            &&& n.queue.order_ok()
            &&& n == (Engine { queue: n.queue, ..o })
            &&& r.len() == 0
        },
        PlayerCommand::CycleRepeat => {
            &&& n.queue.repeat_mode() == next_mode(o.queue.repeat_mode())
            &&& n.queue.tracks_spec() == o.queue.tracks_spec()
            &&& n.queue.cursor_spec() == o.queue.cursor_spec()
            &&& n.queue.order_spec() == o.queue.order_spec()
            &&& n.queue.shuffling() == o.queue.shuffling()
            &&& n == (Engine { queue: n.queue, ..o })
            &&& r.len() == 0
        },
        PlayerCommand::Seek(ms) => {
            &&& n == (Engine { preloaded: None, ..o })
            &&& r == seq![EngineAction::SeekTo(ms)] + preload_actions(n)
        },
        PlayerCommand::SeekRelative(d) => {
            &&& n == (Engine { preloaded: None, ..o })
            &&& r == seq![EngineAction::SeekBy(d)] + preload_actions(n)
        },
        PlayerCommand::Volume(v) => n == o && r == seq![
            EngineAction::SetVolume(
                if v > 200 {
                    200
                } else {
                    v
                },
            ),
        ],
    }
}

/// The queue's tracks once the current one is replaced by `t`.
pub open spec fn tagged_tracks(q: Queue, t: TrackInfo) -> Seq<TrackInfo> {
    match q.effective_idx_spec() {
        Some(i) => q.tracks_spec().update(i as int, t),
        None => q.tracks_spec(),
    }
}

/// `n` is `o` with tracks `ts` and cursor `c`, the order, repeat mode and
/// shuffle kept.
pub open spec fn requeued(o: Queue, n: Queue, ts: Seq<TrackInfo>, c: nat) -> bool {
    &&& n.tracks_spec() == ts
    &&& n.order_spec() == o.order_spec()
    &&& n.repeat_mode() == o.repeat_mode()
    &&& n.shuffling() == o.shuffling()
    &&& n.cursor_spec() == c
}

/// What `opened` does: the current track becomes its tagged form `track`;
/// when it opened, it plays, is reported with the queue, and the next track
/// is preloaded; otherwise the failure is reported and the queue moves on,
/// starting the next track while it continues.
pub open spec fn opened_spec(o: Engine, track: TrackInfo, result: Result<(), String>, n: Engine, r: Seq<EngineAction>) -> bool {
    let ts = tagged_tracks(o.queue, track);
    match result {
        Ok(_) => {
            &&& requeued(o.queue, n.queue, ts, o.queue.cursor_spec())
            &&& n == (Engine { queue: n.queue, playing: true, ..o })
            &&& r.len() == 3 + preload_actions(n).len()
            &&& r[0] == EngineAction::PlaySink
            &&& reports_queue(r[1], n.queue)
            &&& r[2] == EngineAction::Emit(PlayerEvent::TrackStarted(track))
            &&& r.skip(3) == preload_actions(n)
        },
        Err(e) => {
            let (c, more) = advance_spec(o.queue.cursor_spec(), o.queue.tracks_spec().len(), o.queue.repeat_mode());
            let failed = seq![EngineAction::Emit(PlayerEvent::DecodeError { path: track.path, err: e })];
            &&& requeued(o.queue, n.queue, ts, c)
            &&& if more {
                n == after_start(Engine { queue: n.queue, ..o }) && r == failed + start_actions(n.queue)
            } else {
                n == (Engine { queue: n.queue, ..o }) && r == failed
            }
        },
    }
}

/// What `tick` does on a poll of the sink: the position is reported while
/// the sink plays; when the playing track's source is used up, its end is
/// reported and the queue moves on, to the preloaded track (gapless) or by
/// starting the next one, or reports that it is exhausted.
pub open spec fn tick_spec(
    o: Engine,
    sink_empty: bool,
    position_ms: u64,
    track_done: bool,
    n: Engine,
    r: Seq<EngineAction>,
) -> bool {
    let pos = if !sink_empty && !o.paused {
        seq![EngineAction::Emit(PlayerEvent::Position(position_ms))]
    } else {
        Seq::empty()
    };
    let (c, more) = advance_spec(o.queue.cursor_spec(), o.queue.tracks_spec().len(), o.queue.repeat_mode());
    let ended = pos + seq![EngineAction::Emit(PlayerEvent::TrackEnded)];
    if !(o.playing && track_done) {
        n == o && r == pos
    } else {
        match o.preloaded {
            Some(next) => {
                &&& moved_to(o.queue, n.queue, c)
                &&& n == (Engine { queue: n.queue, preloaded: None, ..o })
                &&& r.len() == ended.len() + 2 + preload_actions(n).len()
                &&& r.take(ended.len() + 1int) == ended.push(EngineAction::Emit(PlayerEvent::TrackStarted(next)))
                &&& reports_queue(r[ended.len() + 1int], n.queue)
                &&& r.skip(ended.len() + 2int) == preload_actions(n)
            },
            None => {
                &&& moved_to(o.queue, n.queue, c)
                &&& if more {
                    n == after_start(Engine { queue: n.queue, playing: false, ..o }) && r == ended + start_actions(
                        n.queue,
                    )
                } else {
                    n == (Engine { queue: n.queue, playing: false, ..o }) && r == ended.push(
                        EngineAction::Emit(PlayerEvent::QueueEmpty),
                    )
                }
            },
        }
    }
}

impl Engine {
    pub open spec fn wf(&self) -> bool {
        self.queue.wf()
    }

    /// An idle engine with an empty queue.
    pub fn new() -> (r: Self)
        ensures
            r.wf(),
            r.queue.tracks_spec().len() == 0,
            r.queue.cursor_spec() == 0,
            r.queue.repeat_mode() == RepeatMode::Off,
            !r.queue.shuffling(),
            !r.paused && !r.playing && r.preloaded is None,
    {
        Engine { queue: Queue::new(), paused: false, playing: false, preloaded: None }
    }

    /// Reports the queue.
    fn queue_report(&self) -> (a: EngineAction)
        ensures
            reports_queue(a, self.queue),
    {
        EngineAction::Emit(PlayerEvent::QueueUpdated { tracks: self.queue.tracks_copy(), cursor: self.queue.cursor() })
    }

    /// Starts the current track, if any (see `start_actions`).
    fn start(&mut self, out: &mut Vec<EngineAction>)
        requires
            old(self).wf(),
        ensures
            final(self).wf(),
            *final(self) == after_start(*old(self)),
            final(out)@ == old(out)@ + start_actions(old(self).queue),
    {
        let cur = match self.queue.current() {
            Some(t) => Some(t.duplicate()),
            None => None,
        };
        match cur {
            Some(t) => {
                self.playing = false;
                self.preloaded = None;
                out.push(EngineAction::StopSink);
                out.push(EngineAction::Open(t));
            },
            None => {},
        }
        assert(final(out)@ =~= old(out)@ + start_actions(old(self).queue));
    }

    /// Preloads the next track when none is (see `preload_actions`).
    fn preload(&self, out: &mut Vec<EngineAction>)
        requires
            self.wf(),
        ensures
            final(out)@ == old(out)@ + preload_actions(*self),
    {
        if self.preloaded.is_none() {
            match self.queue.peek_next() {
                Some(t) => out.push(EngineAction::Preload(t.duplicate())),
                None => {},
            }
        }
        assert(final(out)@ =~= old(out)@ + preload_actions(*self));
    }

    /// Carries out `cmd` (see `command_spec`), returning the sink work and
    /// reports it asks for.
    pub fn command(&mut self, cmd: PlayerCommand) -> (r: Vec<EngineAction>)
        requires
            old(self).wf(),
        ensures
            final(self).wf(),
            command_spec(*old(self), cmd, *final(self), r@),
    {
        let mut out: Vec<EngineAction> = Vec::new();
        match cmd {
            PlayerCommand::LoadQueue(ts) => {
                let scan = duplicate_tracks(&ts);
                self.playing = false;
                self.preloaded = None;
                self.queue.set(ts);
                self.paused = false;
                out.push(EngineAction::StopSink);
                out.push(self.queue_report());
                out.push(EngineAction::Emit(PlayerEvent::Stopped));
                out.push(EngineAction::ScanTags(scan));
                assert(out@.subrange(2, out@.len() - 1) =~= seq![EngineAction::Emit(PlayerEvent::Stopped)]);
            },
            PlayerCommand::PlayQueue(ts) => {
                let scan = duplicate_tracks(&ts);
                self.playing = false;
                self.preloaded = None;
                self.queue.set(ts);
                self.paused = false;
                out.push(EngineAction::StopSink);
                out.push(self.queue_report());
                self.start(&mut out);
                out.push(EngineAction::ScanTags(scan));
                assert(out@.subrange(2, out@.len() - 1) =~= start_actions(self.queue));
            },
            PlayerCommand::Enqueue(t) => {
                self.queue.push(t);
                out.push(self.queue_report());
            },
            PlayerCommand::JumpTo(i) => {
                self.playing = false;
                self.preloaded = None;
                self.queue.jump_to(i);
                self.paused = false;
                out.push(EngineAction::StopSink);
                self.start(&mut out);
            },
            PlayerCommand::Pause => {
                self.paused = true;
                out.push(EngineAction::PauseSink);
            },
            PlayerCommand::Resume => {
                self.paused = false;
                out.push(EngineAction::PlaySink);
            },
            PlayerCommand::Stop => {
                self.playing = false;
                self.preloaded = None;
                self.paused = false;
                out.push(EngineAction::StopSink);
                out.push(EngineAction::Emit(PlayerEvent::Stopped));
                assert(out@ =~= seq![EngineAction::StopSink, EngineAction::Emit(PlayerEvent::Stopped)]);
            },
            PlayerCommand::Next => {
                self.playing = false;
                self.preloaded = None;
                out.push(EngineAction::StopSink);
                if self.queue.advance() {
                    self.paused = false;
                    self.start(&mut out);
                } else {
                    out.push(EngineAction::Emit(PlayerEvent::QueueEmpty));
                    assert(out@ =~= seq![EngineAction::StopSink, EngineAction::Emit(PlayerEvent::QueueEmpty)]);
                }
            },
            PlayerCommand::Prev => {
                self.playing = false;
                self.preloaded = None;
                self.queue.prev();
                self.paused = false;
                out.push(EngineAction::StopSink);
                self.start(&mut out);
            },
            PlayerCommand::ToggleShuffle => {
                self.queue.toggle_shuffle();
            },
            PlayerCommand::CycleRepeat => {
                self.queue.cycle_repeat();
            },
            PlayerCommand::Seek(ms) => {
                self.preloaded = None;
                out.push(EngineAction::SeekTo(ms));
                self.preload(&mut out);
            },
            PlayerCommand::SeekRelative(d) => {
                self.preloaded = None;
                out.push(EngineAction::SeekBy(d));
                self.preload(&mut out);
            },
            PlayerCommand::Volume(v) => {
                let v = if v > 200 {
                    200
                } else {
                    v
                };
                out.push(EngineAction::SetVolume(v));
            },
        }
        out
    }

    /// The track `Open` asked for, with its tags read (`track`), was
    /// appended to the sink (`Ok`) or could not be decoded (`Err` with the
    /// reason); see `opened_spec`.
    pub fn opened(&mut self, track: TrackInfo, result: Result<(), String>) -> (r: Vec<EngineAction>)
        requires
            old(self).wf(),
        ensures
            final(self).wf(),
            opened_spec(*old(self), track, result, *final(self), r@),
    {
        let mut out: Vec<EngineAction> = Vec::new();
        let path = track.path.clone();
        let started = track.duplicate();
        self.queue.replace_current(track);
        match result {
            Ok(()) => {
                self.playing = true;
                out.push(EngineAction::PlaySink);
                out.push(self.queue_report());
                out.push(EngineAction::Emit(PlayerEvent::TrackStarted(started)));
                self.preload(&mut out);
                assert(out@.skip(3) =~= preload_actions(*self));
            },
            Err(e) => {
                out.push(EngineAction::Emit(PlayerEvent::DecodeError { path, err: e }));
                if self.queue.advance() {
                    self.start(&mut out);
                }
            },
        }
        out
    }

    /// The track `Preload` asked for was appended behind the playing one.
    pub fn preload_ready(&mut self, track: TrackInfo)
        ensures
            *final(self) == (Engine { preloaded: Some(track), ..*old(self) }),
    {
        self.preloaded = Some(track);
    }

    /// A poll of the sink: whether it is empty, its position, and whether
    /// the playing track's source was used up (see `tick_spec`).
    pub fn tick(&mut self, sink_empty: bool, position_ms: u64, track_done: bool) -> (r: Vec<EngineAction>)
        requires
            old(self).wf(),
        ensures
            final(self).wf(),
            tick_spec(*old(self), sink_empty, position_ms, track_done, *final(self), r@),
    {
        let mut out: Vec<EngineAction> = Vec::new();
        if !sink_empty && !self.paused {
            out.push(EngineAction::Emit(PlayerEvent::Position(position_ms)));
        }
        let ghost pos = out@;
        if self.playing && track_done {
            out.push(EngineAction::Emit(PlayerEvent::TrackEnded));
            let ghost ended = out@;
            assert(ended =~= pos + seq![EngineAction::Emit(PlayerEvent::TrackEnded)]);
            match self.preloaded.take() {
                Some(next) => {
                    let _ = self.queue.advance();
                    out.push(EngineAction::Emit(PlayerEvent::TrackStarted(next)));
                    out.push(self.queue_report());
                    self.preload(&mut out);
                    assert(out@.take(ended.len() + 1int) =~= ended.push(EngineAction::Emit(PlayerEvent::TrackStarted(next))));
                    assert(out@.skip(ended.len() + 2int) =~= preload_actions(*self));
                },
                None => {
                    self.playing = false;
                    if self.queue.advance() {
                        self.start(&mut out);
                    } else {
                        out.push(EngineAction::Emit(PlayerEvent::QueueEmpty));
                    }
                },
            }
        }
        out
    }
}

} // verus!
