//! The playback queue with repeat and shuffle.

use std::collections::hash_map::DefaultHasher;
use std::hash::Hasher;

use vstd::prelude::*;

use crate::diff::plan::clone_opt;
use crate::paths::{file_name, file_stem, path_file_name, path_file_stem};

verus! {

/// A single entry in the playback queue.
#[derive(Debug, Clone)]
pub struct TrackInfo {
    /// Absolute path on the local filesystem.
    pub path: String,
    /// Display name (title tag, else the file stem).
    pub title: String,
    pub artist: Option<String>,
    pub album_artist: Option<String>,
    pub album: Option<String>,
    /// Duration in milliseconds, if known.
    pub duration_ms: Option<u64>,
    pub sample_rate_hz: Option<u32>,
    pub bit_depth: Option<u8>,
    pub channels: Option<u8>,
    pub bitrate_kbps: Option<u32>,
}

/// The title a track gets from its path: the file stem, else the file
/// name, else "unknown".
pub open spec fn title_from_path(p: Seq<char>) -> Seq<char> {
    match path_file_stem(p) {
        Some(s) => s,
        None => match path_file_name(p) {
            Some(n) => n,
            None => "unknown"@,
        },
    }
}

impl TrackInfo {
    /// A track known only by its path.
    pub fn from_path(path: String) -> (r: TrackInfo)
        ensures
            r.path == path,
            r.title@ == title_from_path(path@),
            r.artist is None && r.album_artist is None && r.album is None,
            r.duration_ms is None && r.sample_rate_hz is None && r.bit_depth is None,
            r.channels is None && r.bitrate_kbps is None,
    {
        let title = match file_stem(path.as_str()) {
            Some(s) => s,
            None => match file_name(path.as_str()) {
                Some(n) => n,
                None => "unknown".to_owned(),
            },
        };
        TrackInfo {
            path,
            title,
            artist: None,
            album_artist: None,
            album: None,
            duration_ms: None,
            sample_rate_hz: None,
            bit_depth: None,
            channels: None,
            bitrate_kbps: None,
        }
    }

    /// The track with what its tags say: artist and album where present, the
    /// title where present and non-empty, the duration where known.
    pub fn with_tag_values(
        self,
        artist: Option<String>,
        album: Option<String>,
        title: Option<String>,
        duration_ms: Option<u64>,
    ) -> (r: TrackInfo)
        ensures
            r == (TrackInfo {
                artist: if artist is Some {
                    artist
                } else {
                    self.artist
                },
                album: if album is Some {
                    album
                } else {
                    self.album
                },
                title: match title {
                    Some(t) => if t@.len() > 0 {
                        t
                    } else {
                        self.title
                    },
                    None => self.title,
                },
                duration_ms: if duration_ms is Some {
                    duration_ms
                } else {
                    self.duration_ms
                },
                ..self
            }),
    {
        let mut t = self;
        if artist.is_some() {
            t.artist = artist;
        }
        if album.is_some() {
            t.album = album;
        }
        if let Some(x) = title {
            if !x.as_str().is_empty() {
                t.title = x;
            }
        }
        if duration_ms.is_some() {
            t.duration_ms = duration_ms;
        }
        t
    }

    /// A copy with equal fields.
    pub fn duplicate(&self) -> (r: TrackInfo)
        ensures
            r == *self,
    {
        TrackInfo {
            path: self.path.clone(),
            title: self.title.clone(),
            artist: clone_opt(&self.artist),
            album_artist: clone_opt(&self.album_artist),
            album: clone_opt(&self.album),
            duration_ms: self.duration_ms,
            sample_rate_hz: self.sample_rate_hz,
            bit_depth: self.bit_depth,
            channels: self.channels,
            bitrate_kbps: self.bitrate_kbps,
        }
    }
}

/// Copies of `ts`, in order.
pub fn duplicate_tracks(ts: &Vec<TrackInfo>) -> (r: Vec<TrackInfo>)
    ensures
        r@ == ts@,
{
    let mut out: Vec<TrackInfo> = Vec::new();
    let mut i: usize = 0;
    while i < ts.len()
        invariant
            0 <= i <= ts@.len(),
            out@ == ts@.take(i as int),
        decreases ts@.len() - i,
    {
        out.push(ts[i].duplicate());
        assert(out@ =~= ts@.take(i as int + 1));
        i += 1;
    }
    assert(ts@.take(i as int) =~= ts@);
    out
}

#[derive(Debug, Clone, Copy, PartialEq, Eq, Structural)]
pub enum RepeatMode {
    Off,
    All,
    One,
}

impl RepeatMode {
    /// The next mode in the cycle off → all → one → off.
    pub fn next(self) -> (r: Self)
        ensures
            r == match self {
                RepeatMode::Off => RepeatMode::All,
                RepeatMode::All => RepeatMode::One,
                RepeatMode::One => RepeatMode::Off,
            },
    {
        match self {
            RepeatMode::Off => RepeatMode::All,
            RepeatMode::All => RepeatMode::One,
            RepeatMode::One => RepeatMode::Off,
        }
    }

    pub fn label(self) -> (r: &'static str)
        ensures
            r@ == match self {
                RepeatMode::Off => "off"@,
                RepeatMode::All => "all"@,
                RepeatMode::One => "one"@,
            },
    {
        match self {
            RepeatMode::Off => "off",
            RepeatMode::All => "all",
            RepeatMode::One => "one",
        }
    }
}

/// Cycling the repeat mode three times gives the mode back.
pub proof fn lemma_repeat_cycle(m: RepeatMode)
    ensures
        next_mode(next_mode(next_mode(m))) == m,
{
}

pub open spec fn next_mode(m: RepeatMode) -> RepeatMode {
    match m {
        RepeatMode::Off => RepeatMode::All,
        RepeatMode::All => RepeatMode::One,
        RepeatMode::One => RepeatMode::Off,
    }
}

// ── Shuffle order ────────────────────────────────────────────────────────────

/// One xorshift64 step: `s ^= s << 13; s ^= s >> 7; s ^= s << 17`.
pub open spec fn xorshift(s: u64) -> u64 {
    let a = s ^ (s << 13u64);
    let b = a ^ (a >> 7u64);
    b ^ (b << 17u64)
}

/// Index drawn for position `i` from state `s`.
pub open spec fn draw(s: u64, i: int) -> int {
    ((s as usize) % ((i + 1) as usize)) as int
}

pub open spec fn swap(o: Seq<usize>, i: int, j: int) -> Seq<usize> {
    o.update(i, o[j]).update(j, o[i])
}

/// Fisher–Yates from position `i` down to 1, each step drawing from the
/// next xorshift state.
pub open spec fn shuffle_from(o: Seq<usize>, s: u64, i: int) -> Seq<usize>
    decreases i,
{
    if i < 1 {
        o
    } else {
        let s2 = xorshift(s);
        shuffle_from(swap(o, i, draw(s2, i)), s2, i - 1)
    }
}

/// `0, 1, …, n-1`.
pub open spec fn iota(n: nat) -> Seq<usize> {
    Seq::new(n, |k: int| k as usize)
}

/// The shuffle order of `n` tracks for `seed`.
pub open spec fn shuffle_spec(n: nat, seed: u64) -> Seq<usize> {
    shuffle_from(iota(n), seed, n - 1)
}

/// `o` lists each of `0..n` exactly once.
pub open spec fn is_perm(o: Seq<usize>, n: nat) -> bool {
    &&& o.len() == n
    &&& forall|k: int| 0 <= k < o.len() ==> #[trigger] o[k] < n
    &&& forall|a: int, b: int| 0 <= a < b < o.len() ==> o[a] != o[b]
}

proof fn lemma_swap_perm(o: Seq<usize>, n: nat, i: int, j: int)
    requires
        is_perm(o, n),
        0 <= i < n,
        0 <= j < n,
    ensures
        is_perm(swap(o, i, j), n),
{
    let r = swap(o, i, j);
    assert forall|a: int, b: int| 0 <= a < b < r.len() implies r[a] != r[b] by {
        let pa = if a == j { i } else if a == i { j } else { a };
        let pb = if b == j { i } else if b == i { j } else { b };
        assert(r[a] == o[pa]);
        assert(r[b] == o[pb]);
        if pa < pb {
            assert(o[pa] != o[pb]);
        } else {
            assert(o[pb] != o[pa]);
        }
    }
}

proof fn lemma_shuffle_from_perm(o: Seq<usize>, n: nat, s: u64, i: int)
    requires
        is_perm(o, n),
        i < n,
        n <= usize::MAX,
    ensures
        is_perm(shuffle_from(o, s, i), n),
    decreases i,
{
    if i >= 1 {
        let s2 = xorshift(s);
        let j = draw(s2, i);
        assert(0 <= j <= i) by {
            assert((i + 1) as usize == i + 1);
            vstd::arithmetic::div_mod::lemma_mod_bound((s2 as usize) as int, i + 1);
        }
        lemma_swap_perm(o, n, i, j);
        lemma_shuffle_from_perm(swap(o, i, j), n, s2, i - 1);
    }
}

/// Every shuffle order is a permutation of the track indices.
pub proof fn lemma_shuffle_is_perm(n: nat, seed: u64)
    requires
        n <= usize::MAX,
    ensures
        is_perm(shuffle_spec(n, seed), n),
{
    assert(is_perm(iota(n), n));
    lemma_shuffle_from_perm(iota(n), n, seed, n - 1);
}

/// The shuffle order of `n` tracks for `seed`: a Fisher–Yates shuffle of
/// `0..n` driven by xorshift64.
pub fn shuffle_order(n: usize, seed: u64) -> (r: Vec<usize>)
    ensures
        r@ == shuffle_spec(n as nat, seed),
        is_perm(r@, n as nat),
{
    let mut order: Vec<usize> = Vec::new();
    let mut k: usize = 0;
    while k < n
        invariant
            0 <= k <= n,
            order@ == iota(k as nat),
        decreases n - k,
    {
        order.push(k);
        k += 1;
        assert(order@ =~= iota(k as nat));
    }
    if n == 0 {
        return order;
    }
    let mut s = seed;
    let mut i: usize = n - 1;
    while i >= 1
        invariant
            0 <= i < n,
            order@.len() == n,
            shuffle_from(order@, s, i as int) == shuffle_spec(n as nat, seed),
        decreases i,
    {
        s = s ^ (s << 13u64);
        s = s ^ (s >> 7u64);
        s = s ^ (s << 17u64);
        let j = (s as usize) % (i + 1);
        let oi = order[i];
        let oj = order[j];
        order.set(i, oj);
        order.set(j, oi);
        i -= 1;
    }
    proof {
        lemma_shuffle_is_perm(n as nat, seed);
    }
    order
}

/// Starts a hash of the shuffle seed (`DefaultHasher::new` then hashing a
/// track count); nothing is claimed about the hasher's state.
#[verifier::external_body]
fn hash_count(h: &mut DefaultHasher, n: usize) {
    std::hash::Hash::hash(&n, h);
}

/// Feeds a path to the seed hash (`Hash for camino::Utf8Path`); nothing is
/// claimed about the hasher's state.
#[verifier::external_body]
fn hash_path(h: &mut DefaultHasher, p: &str) {
    std::hash::Hash::hash(camino::Utf8Path::new(p), h);
}

// ── Queue ────────────────────────────────────────────────────────────────────

/// Playback queue with repeat and shuffle support.
pub struct Queue {
    tracks: Vec<TrackInfo>,
    cursor: usize,
    pub repeat: RepeatMode,
    pub shuffle: bool,
    shuffle_order: Vec<usize>,
    /// Seed of the shuffle order, taken from the tracks when they change.
    seed: u64,
}

/// The shuffle order of `n` tracks for `seed`: none unless shuffling a
/// non-empty queue.
pub open spec fn order_for_spec(shuffle: bool, n: nat, seed: u64) -> Seq<usize> {
    if !shuffle || n == 0 {
        Seq::empty()
    } else {
        shuffle_spec(n, seed)
    }
}

/// `n` is `o` with shuffle switched and the order rebuilt from the kept
/// seed; tracks, cursor and repeat mode stay.
pub open spec fn shuffle_toggled(o: Queue, n: Queue) -> bool {
    &&& n.shuffling() == !o.shuffling()
    &&& n.tracks_spec() == o.tracks_spec()
    &&& n.cursor_spec() == o.cursor_spec()
    &&& n.repeat_mode() == o.repeat_mode()
    &&& n.seed_spec() == o.seed_spec()
    &&& n.order_ok()
}

/// Switching shuffle twice gives back the queue's shuffle state and
/// order: the order depends only on the track count and the kept seed.
pub proof fn lemma_shuffle_twice_restores(q0: Queue, q1: Queue, q2: Queue)
    requires
        q0.wf(),
        shuffle_toggled(q0, q1),
        shuffle_toggled(q1, q2),
    ensures
        q2.shuffling() == q0.shuffling(),
        q2.order_spec() == q0.order_spec(),
        q2.tracks_spec() == q0.tracks_spec(),
        q2.cursor_spec() == q0.cursor_spec(),
{
}

/// The track `peek_next` announces is the one the queue plays after
/// `advance`: for a queue `q2` that is `q` with its cursor moved as
/// `advance` moves it, when playback continues, `q`'s next track is `q2`'s
/// current track (through the shuffle order when shuffling); when playback
/// stops, there is none.
pub proof fn lemma_next_is_current_after_advance(q: Queue, q2: Queue)
    requires
        q.wf(),
        q2.tracks_spec() == q.tracks_spec(),
        q2.order_spec() == q.order_spec(),
        q2.shuffling() == q.shuffling(),
        q2.cursor_spec() == advance_spec(q.cursor_spec(), q.tracks_spec().len(), q.repeat_mode()).0,
    ensures
        advance_spec(q.cursor_spec(), q.tracks_spec().len(), q.repeat_mode()).1 ==> (q2.effective_idx_spec() matches Some(
            i,
        ) && q.next_track_spec() == Some(q2.tracks_spec()[i as int])),
        !advance_spec(q.cursor_spec(), q.tracks_spec().len(), q.repeat_mode()).1 ==> q.next_track_spec() is None,
{
}

/// Cursor after `advance`, and whether playback continues.
pub open spec fn advance_spec(cursor: nat, len: nat, repeat: RepeatMode) -> (nat, bool) {
    if len == 0 {
        (cursor, false)
    } else {
        match repeat {
            RepeatMode::One => (cursor, true),
            RepeatMode::All => ((cursor + 1) % len, true),
            RepeatMode::Off => if cursor + 1 < len {
                ((cursor + 1) as nat, true)
            } else {
                (cursor, false)
            },
        }
    }
}

impl Queue {
    /// The tracks in play order of insertion.
    pub closed spec fn tracks_spec(&self) -> Seq<TrackInfo> {
        self.tracks@
    }

    pub closed spec fn cursor_spec(&self) -> nat {
        self.cursor as nat
    }

    /// The repeat mode.
    pub closed spec fn repeat_mode(&self) -> RepeatMode {
        self.repeat
    }

    /// Whether shuffle is on.
    pub closed spec fn shuffling(&self) -> bool {
        self.shuffle
    }

    /// The shuffle order (empty when not shuffling).
    pub closed spec fn order_spec(&self) -> Seq<usize> {
        self.shuffle_order@
    }

    /// The seed the shuffle order is drawn from. It is taken from the
    /// track count and the first track's path whenever the tracks change
    /// (by a hash whose value the contracts leave open), and kept otherwise.
    pub closed spec fn seed_spec(&self) -> u64 {
        self.seed
    }

    /// The cursor is on a track (or 0 for an empty queue) and the shuffle
    /// order is empty or a permutation of the track indices.
    pub closed spec fn wf(&self) -> bool {
        &&& (self.tracks@.len() == 0 ==> self.cursor == 0)
        &&& (self.tracks@.len() > 0 ==> self.cursor < self.tracks@.len())
        &&& (self.shuffle_order@.len() == 0 || is_perm(self.shuffle_order@, self.tracks@.len()))
        &&& self.order_ok()
    }

    /// Index into the tracks of the track the cursor designates.
    pub open spec fn effective_idx_spec(&self) -> Option<nat> {
        if self.tracks_spec().len() == 0 {
            None
        } else if self.shuffling() && self.order_spec().len() > 0 {
            Some(self.order_spec()[self.cursor_spec() as int] as nat)
        } else {
            Some(self.cursor_spec())
        }
    }

    /// The shuffle order kept with the tracks: empty unless shuffling a
    /// non-empty queue, else the shuffle of the track indices drawn from
    /// the queue's seed (a permutation, `lemma_shuffle_is_perm`).
    pub open spec fn order_ok(&self) -> bool {
        self.order_spec() == order_for_spec(self.shuffling(), self.tracks_spec().len(), self.seed_spec())
    }

    pub fn new() -> (r: Self)
        ensures
            r.wf(),
            r.tracks_spec().len() == 0,
            r.cursor_spec() == 0,
            r.repeat_mode() == RepeatMode::Off,
            !r.shuffling(),
            r.order_spec().len() == 0,
    {
        Queue {
            tracks: Vec::new(),
            cursor: 0,
            repeat: RepeatMode::Off,
            shuffle: false,
            shuffle_order: Vec::new(),
            seed: 0,
        }
    }

    /// The shuffle seed of `tracks`: a hash of their count and the first
    /// path (0 for no tracks).
    fn compute_seed(tracks: &Vec<TrackInfo>) -> u64 {
        if tracks.len() == 0 {
            return 0;
        }
        let mut hasher = DefaultHasher::new();
        hash_count(&mut hasher, tracks.len());
        hash_path(&mut hasher, tracks[0].path.as_str());
        hasher.finish()
    }

    /// The shuffle order of `n` tracks for `seed` (see `order_for_spec`).
    fn compute_order(shuffle: bool, n: usize, seed: u64) -> (r: Vec<usize>)
        ensures
            r@ == order_for_spec(shuffle, n as nat, seed),
            r@.len() == 0 || is_perm(r@, n as nat),
    {
        if !shuffle || n == 0 {
            return Vec::new();
        }
        shuffle_order(n, seed)
    }

    /// Replaces the tracks and puts the cursor on the first.
    pub fn set(&mut self, tracks: Vec<TrackInfo>)
        ensures
            final(self).wf(),
            final(self).tracks_spec() == tracks@,
            final(self).cursor_spec() == 0,
            final(self).repeat_mode() == old(self).repeat_mode(),
            final(self).shuffling() == old(self).shuffling(),
            final(self).order_ok(),
    {
        let seed = Self::compute_seed(&tracks);
        let order = Self::compute_order(self.shuffle, tracks.len(), seed);
        self.tracks = tracks;
        self.cursor = 0;
        self.seed = seed;
        self.shuffle_order = order;
    }

    /// Appends a track; the cursor stays where it is.
    pub fn push(&mut self, track: TrackInfo)
        requires
            old(self).wf(),
        ensures
            final(self).wf(),
            final(self).tracks_spec() == old(self).tracks_spec().push(track),
            final(self).cursor_spec() == old(self).cursor_spec(),
            final(self).repeat_mode() == old(self).repeat_mode(),
            final(self).shuffling() == old(self).shuffling(),
            final(self).order_ok(),
    {
        self.tracks.push(track);
        self.seed = Self::compute_seed(&self.tracks);
        self.shuffle_order = Self::compute_order(self.shuffle, self.tracks.len(), self.seed);
    }

    /// Empties the queue.
    pub fn clear(&mut self)
        ensures
            final(self).wf(),
            final(self).tracks_spec().len() == 0,
            final(self).cursor_spec() == 0,
            final(self).order_spec().len() == 0,
            final(self).repeat_mode() == old(self).repeat_mode(),
            final(self).shuffling() == old(self).shuffling(),
    {
        self.tracks.clear();
        self.cursor = 0;
        self.shuffle_order.clear();
    }

    pub fn is_empty(&self) -> (r: bool)
        ensures
            r == (self.tracks_spec().len() == 0),
    {
        self.tracks.len() == 0
    }

    pub fn len(&self) -> (r: usize)
        ensures
            r == self.tracks_spec().len(),
    {
        self.tracks.len()
    }

    pub fn cursor(&self) -> (r: usize)
        ensures
            r == self.cursor_spec(),
    {
        self.cursor
    }

    fn effective_idx(&self) -> (r: Option<usize>)
        requires
            self.wf(),
        ensures
            r matches Some(i) ==> self.effective_idx_spec() == Some(i as nat) && i
                < self.tracks_spec().len(),
            r is None ==> self.effective_idx_spec() is None,
    {
        if self.tracks.len() == 0 {
            return None;
        }
        if self.shuffle && self.shuffle_order.len() > 0 {
            Some(self.shuffle_order[self.cursor])
        } else {
            Some(self.cursor)
        }
    }

    /// The track under the cursor (through the shuffle order when shuffling).
    pub fn current(&self) -> (r: Option<&TrackInfo>)
        requires
            self.wf(),
        ensures
            match self.effective_idx_spec() {
                None => r is None,
                Some(i) => r == Some(&self.tracks_spec()[i as int]),
            },
    {
        match self.effective_idx() {
            Some(i) => Some(&self.tracks[i]),
            None => None,
        }
    }

    pub fn tracks(&self) -> (r: &[TrackInfo])
        ensures
            r@ == self.tracks_spec(),
    {
        self.tracks.as_slice()
    }

    /// Copies of the tracks, in order.
    pub fn tracks_copy(&self) -> (r: Vec<TrackInfo>)
        ensures
            r@ == self.tracks_spec(),
    {
        duplicate_tracks(&self.tracks)
    }

    /// Moves to the next track. Returns `false` when the queue is exhausted
    /// with repeat off (playback should stop) or empty; repeat one stays on
    /// the same track, repeat all wraps around.
    pub fn advance(&mut self) -> (r: bool)
        requires
            old(self).wf(),
        ensures
            final(self).wf(),
            (final(self).cursor_spec(), r) == advance_spec(
                old(self).cursor_spec(),
                old(self).tracks_spec().len(),
                old(self).repeat_mode(),
            ),
            final(self).tracks_spec() == old(self).tracks_spec(),
            final(self).order_spec() == old(self).order_spec(),
            final(self).repeat_mode() == old(self).repeat_mode(),
            final(self).shuffling() == old(self).shuffling(),
            final(self).seed_spec() == old(self).seed_spec(),
    {
        if self.tracks.len() == 0 {
            return false;
        }
        match self.repeat {
            RepeatMode::One => true,
            RepeatMode::All => {
                self.cursor = (self.cursor + 1) % self.tracks.len();
                true
            },
            RepeatMode::Off => {
                if self.cursor + 1 < self.tracks.len() {
                    self.cursor += 1;
                    true
                } else {
                    false
                }
            },
        }
    }

    /// Moves to the previous track, if there is one.
    pub fn prev(&mut self)
        requires
            old(self).wf(),
        ensures
            final(self).wf(),
            final(self).cursor_spec() == if old(self).cursor_spec() > 0 {
                (old(self).cursor_spec() - 1) as nat
            } else {
                0
            },
            final(self).tracks_spec() == old(self).tracks_spec(),
            final(self).order_spec() == old(self).order_spec(),
            final(self).repeat_mode() == old(self).repeat_mode(),
            final(self).shuffling() == old(self).shuffling(),
            final(self).seed_spec() == old(self).seed_spec(),
    {
        if self.cursor > 0 {
            self.cursor -= 1;
        }
    }

    /// Puts the cursor on `idx` when it designates a track.
    pub fn jump_to(&mut self, idx: usize)
        requires
            old(self).wf(),
        ensures
            final(self).wf(),
            final(self).cursor_spec() == if idx < old(self).tracks_spec().len() {
                idx as nat
            } else {
                old(self).cursor_spec()
            },
            final(self).tracks_spec() == old(self).tracks_spec(),
            final(self).order_spec() == old(self).order_spec(),
            final(self).repeat_mode() == old(self).repeat_mode(),
            final(self).shuffling() == old(self).shuffling(),
            final(self).seed_spec() == old(self).seed_spec(),
    {
        if idx < self.tracks.len() {
            self.cursor = idx;
        }
    }

    /// Switches shuffle on or off and rebuilds the shuffle order.
    pub fn toggle_shuffle(&mut self)
        requires
            old(self).wf(),
        ensures
            final(self).wf(),
            shuffle_toggled(*old(self), *final(self)),
    {
        self.shuffle = !self.shuffle;
        self.shuffle_order = Self::compute_order(self.shuffle, self.tracks.len(), self.seed);
    }

    /// Moves the repeat mode on to the next in its cycle.
    pub fn cycle_repeat(&mut self)
        requires
            old(self).wf(),
        ensures
            final(self).wf(),
            final(self).repeat_mode() == next_mode(old(self).repeat_mode()),
            final(self).tracks_spec() == old(self).tracks_spec(),
            final(self).cursor_spec() == old(self).cursor_spec(),
            final(self).order_spec() == old(self).order_spec(),
            final(self).shuffling() == old(self).shuffling(),
            final(self).seed_spec() == old(self).seed_spec(),
    {
        self.repeat = self.repeat.next();
    }

    /// The track designated by cursor position `c` (through the shuffle
    /// order when shuffling).
    pub open spec fn track_at_spec(&self, c: nat) -> Option<TrackInfo> {
        if self.tracks_spec().len() == 0 {
            None
        } else if self.shuffling() && self.order_spec().len() > 0 {
            Some(self.tracks_spec()[self.order_spec()[c as int] as int])
        } else {
            Some(self.tracks_spec()[c as int])
        }
    }

    /// The track `advance` would move to, when it continues.
    pub open spec fn next_track_spec(&self) -> Option<TrackInfo> {
        let (c, more) = advance_spec(self.cursor_spec(), self.tracks_spec().len(), self.repeat_mode());
        if more {
            self.track_at_spec(c)
        } else {
            None
        }
    }

    /// The track that follows the current one, without moving the cursor.
    pub fn peek_next(&self) -> (r: Option<&TrackInfo>)
        requires
            self.wf(),
        ensures
            match self.next_track_spec() {
                None => r is None,
                Some(t) => r == Some(&t),
            },
    {
        let n = self.tracks.len();
        if n == 0 {
            return None;
        }
        let c = match self.repeat {
            RepeatMode::One => self.cursor,
            RepeatMode::All => (self.cursor + 1) % n,
            RepeatMode::Off => {
                if self.cursor + 1 < n {
                    self.cursor + 1
                } else {
                    return None;
                }
            },
        };
        if self.shuffle && self.shuffle_order.len() > 0 {
            Some(&self.tracks[self.shuffle_order[c]])
        } else {
            Some(&self.tracks[c])
        }
    }

    /// Replaces the track under the cursor with `track` (its tagged form).
    pub fn replace_current(&mut self, track: TrackInfo)
        requires
            old(self).wf(),
        ensures
            final(self).wf(),
            match old(self).effective_idx_spec() {
                Some(i) => final(self).tracks_spec() == old(self).tracks_spec().update(i as int, track),
                None => final(self).tracks_spec() == old(self).tracks_spec(),
            },
            final(self).tracks_spec().len() == old(self).tracks_spec().len(),
            final(self).cursor_spec() == old(self).cursor_spec(),
            final(self).order_spec() == old(self).order_spec(),
            final(self).repeat_mode() == old(self).repeat_mode(),
            final(self).shuffling() == old(self).shuffling(),
            final(self).seed_spec() == old(self).seed_spec(),
    {
        if let Some(i) = self.effective_idx() {
            self.tracks.set(i, track);
        }
    }
}

proof fn lemma_iterate_advance(cursor: nat, len: nat, steps: nat)
    requires
        len > 0,
        cursor < len,
    ensures
        iterate_advance(cursor, len, steps) == (cursor + steps) % len,
    decreases steps,
{
    if steps > 0 {
        lemma_iterate_advance(cursor, len, (steps - 1) as nat);
        let a = (cursor + steps - 1) as int;
        vstd::arithmetic::div_mod::lemma_add_mod_noop_right(1, a, len as int);
    } else {
        vstd::arithmetic::div_mod::lemma_small_mod(cursor, len);
    }
}

/// With repeat all, `steps` advances move the cursor `steps` places around
/// the queue; `len` advances bring it back where it started.
pub proof fn lemma_repeat_all_cycles(cursor: nat, len: nat, steps: nat)
    requires
        len > 0,
        cursor < len,
    ensures
        iterate_advance(cursor, len, steps) == (cursor + steps) % len,
        iterate_advance(cursor, len, len) == cursor,
{
    lemma_iterate_advance(cursor, len, steps);
    lemma_iterate_advance(cursor, len, len);
    vstd::arithmetic::div_mod::lemma_add_mod_noop_right(cursor as int, len as int, len as int);
    vstd::arithmetic::div_mod::lemma_mod_self_0(len as int);
    vstd::arithmetic::div_mod::lemma_small_mod(cursor, len);
}

/// Cursor after `steps` advances with repeat all.
pub open spec fn iterate_advance(cursor: nat, len: nat, steps: nat) -> nat
    decreases steps,
{
    if steps == 0 {
        cursor
    } else {
        advance_spec(iterate_advance(cursor, len, (steps - 1) as nat), len, RepeatMode::All).0
    }
}

} // verus!
