//! The player view: focus, source, panes and formatting helpers.

use vstd::prelude::*;

use crate::cli::diff::pad2;
use crate::player::library::{flat_rows, ArtistV, LibraryIndex, LibraryNode};
use crate::player::engine::PlayerEvent;
use crate::player::queue::{duplicate_tracks, next_mode, RepeatMode, TrackInfo};
use crate::tui::keys::{key_down, key_up, Key, KeyCode};
use crate::text::lowercase;
use crate::text::{chars_of, dec, fmt_u64, push_char, push_str, string_of_range};

verus! {

#[derive(Debug, Clone, Copy, PartialEq, Eq, Structural)]
pub enum PlayerFocus {
    Library,
    Queue,
}

impl PlayerFocus {
    /// The other pane.
    pub fn toggle(self) -> (r: Self)
        ensures
            r != self,
    {
        match self {
            PlayerFocus::Library => PlayerFocus::Queue,
            PlayerFocus::Queue => PlayerFocus::Library,
        }
    }
}

#[derive(Debug, Clone, Copy, PartialEq, Eq, Structural)]
pub enum PlayerSource {
    Library,
    Destination,
}

impl PlayerSource {
    pub fn label(self) -> (r: &'static str)
        ensures
            r@ == match self {
                PlayerSource::Library => "L library"@,
                PlayerSource::Destination => "D destination"@,
            },
    {
        match self {
            PlayerSource::Library => "L library",
            PlayerSource::Destination => "D destination",
        }
    }

    /// The other source.
    pub fn toggle(self) -> (r: Self)
        ensures
            r != self,
    {
        match self {
            PlayerSource::Library => PlayerSource::Destination,
            PlayerSource::Destination => PlayerSource::Library,
        }
    }
}

#[derive(Debug, Clone, Copy, PartialEq, Eq, Structural)]
pub enum RightPane {
    Queue,
    Lyrics,
}

/// A duration for display: `m:ss`, or `h:mm:ss` from an hour on.
pub open spec fn dur_text(t: nat) -> Seq<char> {
    let m = t / 60;
    let s = t % 60;
    if m >= 60 {
        dec(m / 60) + ":"@ + pad2(m % 60) + ":"@ + pad2(s)
    } else {
        dec(m) + ":"@ + pad2(s)
    }
}

fn push_pad2(s: &mut String, n: u64)
    ensures
        final(s)@ == old(s)@ + pad2(n as nat),
{
    if n < 10 {
        push_char(s, '0');
        let d = fmt_u64(n);
        push_str(s, d.as_str());
        assert(final(s)@ =~= old(s)@ + pad2(n as nat));
    } else {
        let d = fmt_u64(n);
        push_str(s, d.as_str());
    }
}

/// Formats a duration given in whole seconds (see `dur_text`).
pub fn fmt_dur(secs: u64) -> (r: String)
    ensures
        r@ == dur_text(secs as nat),
{
    let m = secs / 60;
    let s = secs % 60;
    if m >= 60 {
        let mut r = fmt_u64(m / 60);
        push_str(&mut r, ":");
        push_pad2(&mut r, m % 60);
        push_str(&mut r, ":");
        push_pad2(&mut r, s);
        r
    } else {
        let mut r = fmt_u64(m);
        push_str(&mut r, ":");
        push_pad2(&mut r, s);
        r
    }
}

/// At most `max` characters of `s`: `s` itself when it fits, else its first
/// `max - 1` characters and an ellipsis; empty for `max == 0`.
pub open spec fn trunc_spec(s: Seq<char>, max: nat) -> Seq<char> {
    if max == 0 {
        Seq::empty()
    } else if s.len() <= max {
        s
    } else {
        s.take(max - 1).push('…')
    }
}

pub fn trunc(s: &str, max: usize) -> (r: String)
    ensures
        r@ == trunc_spec(s@, max as nat),
{
    if max == 0 {
        return String::new();
    }
    let chars = chars_of(s);
    if chars.len() <= max {
        return string_of_range(&chars, 0, chars.len());
    }
    let mut r = string_of_range(&chars, 0, max - 1);
    push_char(&mut r, '…');
    r
}


// ── Library pane ─────────────────────────────────────────────────────────────

/// The library pane: the index, which artists are expanded, the visible
/// rows and the highlighted one.
pub struct LibraryState {
    pub index: LibraryIndex,
    pub expanded: Vec<bool>,
    pub flat: Vec<LibraryNode>,
    pub cursor: usize,
    /// The row the list widget highlights.
    pub selected: Option<usize>,
    pub search_active: bool,
    /// The text typed in the search box.
    pub search: String,
    pub scanning: bool,
    pub scan_done: usize,
    pub scan_total: usize,
}

/// The rows shown for `index` with `expanded` and the search `query`.
pub open spec fn rows_for(index: Seq<ArtistV>, expanded: Seq<bool>, query: Seq<char>) -> Seq<LibraryNode> {
    flat_rows(index, index.len(), expanded, lowercase(query))
}

/// `n` shows the rows of `o`'s index for `expanded` and `o`'s search, with
/// the cursor clamped to the last row (kept when there are none).
pub open spec fn lib_rebuilt(o: LibraryState, n: LibraryState, expanded: Seq<bool>) -> bool {
    &&& n.index == o.index
    &&& n.expanded@ == expanded
    &&& n.search_active == o.search_active
    &&& n.search == o.search
    &&& n.scanning == o.scanning
    &&& n.scan_done == o.scan_done
    &&& n.scan_total == o.scan_total
    &&& n.flat@ == rows_for(o.index@, expanded, o.query())
    &&& n.flat@.len() == 0 ==> n.cursor == o.cursor && n.selected is None
    &&& n.flat@.len() > 0 ==> n.cursor == (if o.cursor < n.flat@.len() {
        o.cursor as int
    } else {
        n.flat@.len() - 1
    })
    &&& n.wf()
}

/// `o` with the cursor one row down, unless it is on the last row.
pub open spec fn lib_down(o: LibraryState) -> LibraryState {
    if o.cursor + 1 < o.flat@.len() {
        LibraryState { cursor: (o.cursor + 1) as usize, selected: Some((o.cursor + 1) as usize), ..o }
    } else {
        o
    }
}

/// `o` with the cursor one row up, unless it is on the first row.
pub open spec fn lib_up(o: LibraryState) -> LibraryState {
    if o.cursor > 0 {
        LibraryState { cursor: (o.cursor - 1) as usize, selected: Some((o.cursor - 1) as usize), ..o }
    } else {
        o
    }
}

/// On an artist row, `n` is `o` with that artist expanded or collapsed and
/// the rows rebuilt; elsewhere nothing changes.
pub open spec fn lib_toggled(o: LibraryState, n: LibraryState) -> bool {
    match lib_row(o) {
        Some(LibraryNode::Artist(ai)) => if ai < o.expanded@.len() {
            lib_rebuilt(o, n, o.expanded@.update(ai as int, !o.expanded@[ai as int]))
        } else {
            n == o
        },
        _ => n == o,
    }
}

impl LibraryState {
    /// The search in effect: the typed text while searching, else none.
    pub open spec fn query(&self) -> Seq<char> {
        if self.search_active {
            self.search@
        } else {
            Seq::empty()
        }
    }

    /// When there are rows, the cursor is on one and it is highlighted.
    pub open spec fn wf(&self) -> bool {
        self.flat@.len() > 0 ==> self.cursor < self.flat@.len() && self.selected == Some(self.cursor)
    }

    /// The pane for `index`: every artist collapsed, no search, the first
    /// row highlighted.
    pub fn new(index: LibraryIndex) -> (r: Self)
        ensures
            r.index@ == index@,
            r.expanded@ == Seq::new(index@.len(), |i: int| false),
            r.flat@ == rows_for(index@, r.expanded@, Seq::empty()),
            r.cursor == 0,
            r.flat@.len() == 0 ==> r.selected is None,
            !r.search_active,
            r.search@ == Seq::<char>::empty(),
            !r.scanning && r.scan_done == 0 && r.scan_total == 0,
            r.wf(),
    {
        let n = index.artists.len();
        let mut expanded: Vec<bool> = Vec::new();
        let mut i: usize = 0;
        while i < n
            invariant
                0 <= i <= n,
                expanded@ == Seq::new(i as nat, |k: int| false),
            decreases n - i,
        {
            expanded.push(false);
            assert(expanded@ =~= Seq::new(i as nat + 1, |k: int| false));
            i += 1;
        }
        let search = String::new();
        let flat = index.build_flat(expanded.as_slice(), search.as_str());
        let selected = if flat.len() == 0 {
            None
        } else {
            Some(0)
        };
        LibraryState {
            index,
            expanded,
            flat,
            cursor: 0,
            selected,
            search_active: false,
            search,
            scanning: false,
            scan_done: 0,
            scan_total: 0,
        }
    }

    /// Recomputes the rows for the current expansion and search; the cursor
    /// is clamped to the last row.
    pub fn rebuild_flat(&mut self)
        ensures
            lib_rebuilt(*old(self), *final(self), old(self).expanded@),
            final(self).expanded == old(self).expanded,
    {
        let empty = String::new();
        let flat = if self.search_active {
            self.index.build_flat(self.expanded.as_slice(), self.search.as_str())
        } else {
            self.index.build_flat(self.expanded.as_slice(), empty.as_str())
        };
        self.flat = flat;
        if self.flat.len() == 0 {
            self.selected = None;
        } else {
            if self.cursor >= self.flat.len() {
                self.cursor = self.flat.len() - 1;
            }
            self.selected = Some(self.cursor);
        }
    }

    /// Moves the cursor one row down, unless it is on the last row.
    pub fn move_down(&mut self)
        requires
            old(self).wf(),
        ensures
            *final(self) == lib_down(*old(self)),
            final(self).wf(),
    {
        if self.flat.len() > 0 && self.cursor < self.flat.len() - 1 {
            self.cursor += 1;
            self.selected = Some(self.cursor);
        }
    }

    /// Moves the cursor one row up, stopping at the first row.
    pub fn move_up(&mut self)
        requires
            old(self).wf(),
        ensures
            *final(self) == lib_up(*old(self)),
            final(self).wf(),
    {
        if self.cursor > 0 {
            self.cursor -= 1;
            self.selected = Some(self.cursor);
        }
    }

    /// On an artist row, expands or collapses that artist and recomputes
    /// the rows; on an album row, or off the rows, does nothing.
    pub fn toggle_expand(&mut self)
        requires
            old(self).wf(),
        ensures
            lib_toggled(*old(self), *final(self)),
            final(self).wf(),
    {
        if self.cursor < self.flat.len() {
            if let LibraryNode::Artist(ai) = self.flat[self.cursor] {
                if ai < self.expanded.len() {
                    let e = self.expanded[ai];
                    self.expanded.set(ai, !e);
                    self.rebuild_flat();
                }
            }
        }
    }

    /// The tracks of the album on the highlighted row; `None` on an artist
    /// row or when the row points nowhere.
    pub fn selected_album_tracks(&self) -> (r: Option<Vec<TrackInfo>>)
        ensures
            match if self.cursor < self.flat@.len() {
                Some(self.flat@[self.cursor as int])
            } else {
                None
            } {
                Some(LibraryNode::Album { artist: ai, album: ali }) if ai < self.index@.len() && ali
                    < self.index@[ai as int].1.len() => r matches Some(ts) && ts@
                    == self.index@[ai as int].1[ali as int].1,
                _ => r is None,
            },
    {
        if self.cursor < self.flat.len() {
            if let LibraryNode::Album { artist: ai, album: ali } = self.flat[self.cursor] {
                if ai < self.index.artists.len() {
                    let artist = &self.index.artists[ai];
                    assert(self.index@[ai as int] == artist@);
                    if ali < artist.albums.len() {
                        assert(artist@.1[ali as int] == artist.albums@[ali as int]@);
                        return Some(duplicate_tracks(&artist.albums[ali].tracks));
                    }
                }
            }
        }
        None
    }
}


// ── Player view ──────────────────────────────────────────────────────────────

/// A request for the audio engine.
pub enum PlayerRequest {
    PlayQueue(Vec<TrackInfo>),
    JumpTo(usize),
    Pause,
    Resume,
    Next,
    Prev,
    CycleRepeat,
    ToggleShuffle,
    /// Sleep after this many seconds (`None`: cancel).
    SetSleepTimer(Option<u64>),
    /// Seek by this many seconds.
    SeekRelative(i64),
}

/// What a key in the player view asks for beyond the view's own state.
pub enum PlayerKeyAction {
    Nothing,
    /// Leave the player view.
    Back,
    Send(PlayerRequest),
    /// Raise the volume a step and send it.
    VolumeUp,
    /// Lower the volume a step and send it.
    VolumeDown,
    /// Hand the key to the search input, then call `search_changed`.
    EditSearch,
}

/// The player view's state that keys and engine events change.
pub struct PlayerView {
    /// An audio device was found.
    pub available: bool,
    pub focus: PlayerFocus,
    pub source: PlayerSource,
    pub right_pane: RightPane,
    pub paused: bool,
    pub current: Option<TrackInfo>,
    pub position_ms: u64,
    pub queue_tracks: Vec<TrackInfo>,
    pub queue_cursor: usize,
    /// The highlighted queue row.
    pub queue_selected: Option<usize>,
    pub shuffle: bool,
    pub repeat: RepeatMode,
    pub flash: Option<String>,
    pub library: Option<LibraryState>,
    /// Length of the running sleep timer, in seconds.
    pub sleep_secs: Option<u64>,
}

/// The next sleep timer in the cycle 15, 30, 45, 60 minutes, off.
pub open spec fn next_sleep(cur: Option<u64>) -> Option<u64> {
    match cur {
        None => Some(900),
        Some(d) => if d <= 900 {
            Some(1800)
        } else if d <= 1800 {
            Some(2700)
        } else if d <= 2700 {
            Some(3600)
        } else {
            None
        },
    }
}

pub fn next_sleep_timer(cur: Option<u64>) -> (r: Option<u64>)
    ensures
        r == next_sleep(cur),
{
    match cur {
        None => Some(900),
        Some(d) => if d <= 900 {
            Some(1800)
        } else if d <= 1800 {
            Some(2700)
        } else if d <= 2700 {
            Some(3600)
        } else {
            None
        },
    }
}

/// The row of the library pane under the cursor.
pub open spec fn lib_row(l: LibraryState) -> Option<LibraryNode> {
    if l.cursor < l.flat@.len() {
        Some(l.flat@[l.cursor as int])
    } else {
        None
    }
}

/// Enter on the library pane: an artist row expands or collapses, an album
/// row plays the album from its start and focuses the queue.
pub open spec fn library_enter_spec(o: PlayerView, n: PlayerView, r: Option<Vec<TrackInfo>>) -> bool {
    match o.library {
        Some(l) => match lib_row(l) {
            Some(LibraryNode::Artist(_)) => {
                &&& r is None
                &&& n == (PlayerView { library: n.library, ..o })
                &&& n.library matches Some(nl) && lib_toggled(l, nl)
            },
            Some(LibraryNode::Album { artist: ai, album: ali }) => if ai < l.index@.len() && ali
                < l.index@[ai as int].1.len() {
                &&& r matches Some(ts) && ts@ == l.index@[ai as int].1[ali as int].1
                &&& n == (PlayerView { focus: PlayerFocus::Queue, ..o })
            } else {
                r is None && n == o
            },
            None => r is None && n == o,
        },
        None => r is None && n == o,
    }
}

impl PlayerView {
    /// The library pane, when there is one, keeps its cursor on a row.
    pub open spec fn wf(&self) -> bool {
        self.library matches Some(l) ==> l.wf()
    }

    /// A player view with an empty queue, focused on the queue.
    pub fn new(available: bool) -> (r: Self)
        ensures
            r.available == available,
            r.focus == PlayerFocus::Queue,
            r.source == PlayerSource::Library,
            r.right_pane == RightPane::Queue,
            !r.paused && r.current is None && r.position_ms == 0,
            r.queue_tracks@.len() == 0 && r.queue_cursor == 0 && r.queue_selected == Some(0usize),
            !r.shuffle && r.repeat == RepeatMode::Off,
            r.flash is None && r.library is None && r.sleep_secs is None,
            r.wf(),
    {
        PlayerView {
            available,
            focus: PlayerFocus::Queue,
            source: PlayerSource::Library,
            right_pane: RightPane::Queue,
            paused: false,
            current: None,
            position_ms: 0,
            queue_tracks: Vec::new(),
            queue_cursor: 0,
            queue_selected: Some(0),
            shuffle: false,
            repeat: RepeatMode::Off,
            flash: None,
            library: None,
            sleep_secs: None,
        }
    }

    /// Shows the library `index`, focused.
    pub fn set_library(&mut self, index: LibraryIndex)
        ensures
            final(self).library matches Some(l) && l.index@ == index@ && l.cursor == 0 && !l.search_active
                && l.flat@ == rows_for(index@, l.expanded@, Seq::empty()),
            *final(self) == (PlayerView { library: final(self).library, focus: PlayerFocus::Library, ..*old(self) }),
            final(self).wf(),
    {
        self.library = Some(LibraryState::new(index));
        self.focus = PlayerFocus::Library;
    }

    /// The search text changed to `text`: the library rows follow it.
    pub fn search_changed(&mut self, text: String)
        requires
            old(self).wf(),
        ensures
            final(self).wf(),
            match old(self).library {
                Some(l) => final(self).library matches Some(nl) && nl.search == text && nl.flat@ == rows_for(
                    l.index@,
                    l.expanded@,
                    if l.search_active {
                        text@
                    } else {
                        Seq::empty()
                    },
                ) && *final(self) == (PlayerView { library: final(self).library, ..*old(self) }),
                None => *final(self) == *old(self),
            },
    {
        if let Some(mut lib) = self.library.take() {
            lib.search = text;
            lib.rebuild_flat();
            self.library = Some(lib);
        }
    }

    /// Enter on the library pane (see `library_enter_spec`); returns the
    /// album to play, if any.
    fn handle_library_enter(&mut self) -> (r: Option<Vec<TrackInfo>>)
        requires
            old(self).wf(),
        ensures
            library_enter_spec(*old(self), *final(self), r),
            final(self).wf(),
    {
        match self.library.take() {
            None => None,
            Some(mut lib) => {
                if lib.cursor < lib.flat.len() {
                    match lib.flat[lib.cursor] {
                        LibraryNode::Artist(_) => {
                            lib.toggle_expand();
                            self.library = Some(lib);
                            None
                        },
                        LibraryNode::Album { .. } => {
                            let r = lib.selected_album_tracks();
                            if r.is_some() {
                                self.focus = PlayerFocus::Queue;
                            }
                            self.library = Some(lib);
                            r
                        },
                    }
                } else {
                    self.library = Some(lib);
                    None
                }
            },
        }
    }
}


/// `o` with the repeat mode and shuffle flag following `r` and `s`, as the
/// engine's do.
pub open spec fn status_synced(o: PlayerView, key: Key) -> PlayerView {
    PlayerView {
        repeat: if key.code == KeyCode::Char('r') {
            next_mode(o.repeat)
        } else {
            o.repeat
        },
        shuffle: if key.code == KeyCode::Char('s') {
            !o.shuffle
        } else {
            o.shuffle
        },
        ..o
    }
}

pub open spec fn is_back(key: Key) -> bool {
    key.code == KeyCode::Char('q') || key.code == KeyCode::Esc
}

pub open spec fn other_focus(f: PlayerFocus) -> PlayerFocus {
    match f {
        PlayerFocus::Library => PlayerFocus::Queue,
        PlayerFocus::Queue => PlayerFocus::Library,
    }
}

pub open spec fn other_pane(p: RightPane) -> RightPane {
    match p {
        RightPane::Queue => RightPane::Lyrics,
        RightPane::Lyrics => RightPane::Queue,
    }
}

/// `r` sends `req`.
pub open spec fn sends(r: PlayerKeyAction, req: PlayerRequest) -> bool {
    r matches PlayerKeyAction::Send(x) && x == req
}

/// The library pane of `o` moved by `f` into `n`.
pub open spec fn lib_moved(o: PlayerView, n: PlayerView, down: bool) -> bool {
    match o.library {
        Some(l) => n == (PlayerView { library: Some(if down { lib_down(l) } else { lib_up(l) }), ..o }),
        None => n == o,
    }
}

/// Enter on the library pane, with the album it plays sent to the engine.
pub open spec fn enter_spec(o: PlayerView, n: PlayerView, r: PlayerKeyAction) -> bool {
    exists|t: Option<Vec<TrackInfo>>| #[trigger] library_enter_spec(o, n, t) && match t {
        Some(ts) => r matches PlayerKeyAction::Send(PlayerRequest::PlayQueue(x)) && x@ == ts@,
        None => r is Nothing,
    }
}

/// A key while the library search is active.
pub open spec fn search_key_spec(o: PlayerView, n: PlayerView, key: Key, r: PlayerKeyAction) -> bool {
    if key.code == KeyCode::Esc || key.code == KeyCode::Char('/') {
        &&& r is Nothing
        &&& n == (PlayerView { library: n.library, ..o })
        &&& o.library matches Some(l) && n.library matches Some(nl) && nl.search@.len() == 0 && lib_rebuilt(
            LibraryState { search_active: false, search: nl.search, ..l },
            nl,
            l.expanded@,
        )
    } else if key.code == KeyCode::Tab {
        r is Nothing && n == (PlayerView { focus: other_focus(o.focus), ..o })
    } else if key_down(key) {
        r is Nothing && lib_moved(o, n, true)
    } else if key_up(key) {
        r is Nothing && lib_moved(o, n, false)
    } else if key.code == KeyCode::Enter {
        enter_spec(o, n, r)
    } else {
        r is EditSearch && n == o
    }
}

/// A key in the player view otherwise.
pub open spec fn view_key_spec(o: PlayerView, n: PlayerView, key: Key, r: PlayerKeyAction) -> bool {
    let sel = match o.queue_selected {
        Some(i) => i as int,
        None => 0,
    };
    if is_back(key) {
        r is Back && n == o
    } else if key.code == KeyCode::Tab && o.library is Some {
        r is Nothing && n == (PlayerView { focus: other_focus(o.focus), ..o })
    } else if key.code == KeyCode::Char(' ') {
        if o.paused {
            sends(r, PlayerRequest::Resume) && n == (PlayerView { paused: false, ..o })
        } else {
            sends(r, PlayerRequest::Pause) && n == (PlayerView { paused: true, ..o })
        }
    } else if key.code == KeyCode::Char('n') {
        sends(r, PlayerRequest::Next) && n == o
    } else if key.code == KeyCode::Char('p') {
        sends(r, PlayerRequest::Prev) && n == o
    } else if key.code == KeyCode::Char('r') {
        sends(r, PlayerRequest::CycleRepeat) && n == o
    } else if key.code == KeyCode::Char('s') {
        sends(r, PlayerRequest::ToggleShuffle) && n == o
    } else if key.code == KeyCode::Char('t') {
        sends(r, PlayerRequest::SetSleepTimer(next_sleep(o.sleep_secs))) && n == o
    } else if key.code == KeyCode::Char('l') || key.code == KeyCode::Char('L') {
        r is Nothing && n == (PlayerView { source: PlayerSource::Library, ..o })
    } else if key.code == KeyCode::Char('d') || key.code == KeyCode::Char('D') {
        r is Nothing && n == (PlayerView { source: PlayerSource::Destination, ..o })
    } else if key.code == KeyCode::Char('+') || key.code == KeyCode::Char('=') {
        r is VolumeUp && n == o
    } else if key.code == KeyCode::Char('-') {
        r is VolumeDown && n == o
    } else if key.code == KeyCode::Left {
        sends(r, PlayerRequest::SeekRelative(-30i64)) && n == o
    } else if key.code == KeyCode::Right {
        sends(r, PlayerRequest::SeekRelative(30i64)) && n == o
    } else if key.code == KeyCode::Char('i') {
        r is Nothing && n == (PlayerView { right_pane: other_pane(o.right_pane), ..o })
    } else if key.code == KeyCode::Char('/') && o.focus == PlayerFocus::Library {
        r is Nothing && match o.library {
            Some(l) => n == (PlayerView { library: Some(LibraryState { search_active: true, ..l }), ..o }),
            None => n == o,
        }
    } else if key_down(key) {
        r is Nothing && if o.focus == PlayerFocus::Library {
            lib_moved(o, n, true)
        } else if sel + 1 < o.queue_tracks@.len() {
            n == (PlayerView { queue_selected: Some((sel + 1) as usize), ..o })
        } else {
            n == o
        }
    } else if key_up(key) {
        r is Nothing && if o.focus == PlayerFocus::Library {
            lib_moved(o, n, false)
        } else {
            n == (PlayerView {
                queue_selected: Some(
                    if sel > 0 {
                        (sel - 1) as usize
                    } else {
                        0usize
                    },
                ),
                ..o
            })
        }
    } else if key.code == KeyCode::Enter {
        if o.focus == PlayerFocus::Library {
            enter_spec(o, n, r)
        } else {
            n == o && match o.queue_selected {
                Some(i) => sends(r, PlayerRequest::JumpTo(i)),
                None => r is Nothing,
            }
        }
    } else {
        r is Nothing && n == o
    }
}

/// What `key` does in the player view: without an audio device only `q`
/// and Esc act (going back); with the library focused and searching, the
/// search keys; otherwise the view's keys. `r` and `s` also advance the
/// shown repeat mode and shuffle flag.
pub open spec fn player_key_spec(o: PlayerView, n: PlayerView, key: Key, r: PlayerKeyAction) -> bool {
    let o2 = status_synced(o, key);
    if !o.available {
        n == o2 && if is_back(key) {
            r is Back
        } else {
            r is Nothing
        }
    } else if o.focus == PlayerFocus::Library && (o.library matches Some(l) && l.search_active) {
        search_key_spec(o2, n, key, r)
    } else {
        view_key_spec(o2, n, key, r)
    }
}

impl PlayerView {
    /// Applies a key press to the player view; the returned action is the
    /// outside work left to do (Control-C is handled before this).
    pub fn handle_key(&mut self, key: Key) -> (r: PlayerKeyAction)
        requires
            old(self).wf(),
        ensures
            player_key_spec(*old(self), *final(self), key, r),
            final(self).wf(),
    {
        if key.code == KeyCode::Char('r') {
            self.repeat = self.repeat.next();
        } else if key.code == KeyCode::Char('s') {
            self.shuffle = !self.shuffle;
        }
        let back = key.code == KeyCode::Char('q') || key.code == KeyCode::Esc;
        if !self.available {
            return if back {
                PlayerKeyAction::Back
            } else {
                PlayerKeyAction::Nothing
            };
        }
        let searching = self.focus == PlayerFocus::Library && match &self.library {
            Some(l) => l.search_active,
            None => false,
        };
        if searching {
            return self.handle_search_key(key);
        }
        if back {
            return PlayerKeyAction::Back;
        }
        if key.code == KeyCode::Tab && self.library.is_some() {
            self.focus = self.focus.toggle();
            return PlayerKeyAction::Nothing;
        }
        if key.code == KeyCode::Char(' ') {
            return if self.paused {
                self.paused = false;
                PlayerKeyAction::Send(PlayerRequest::Resume)
            } else {
                self.paused = true;
                PlayerKeyAction::Send(PlayerRequest::Pause)
            };
        }
        if key.code == KeyCode::Char('n') {
            return PlayerKeyAction::Send(PlayerRequest::Next);
        }
        if key.code == KeyCode::Char('p') {
            return PlayerKeyAction::Send(PlayerRequest::Prev);
        }
        if key.code == KeyCode::Char('r') {
            return PlayerKeyAction::Send(PlayerRequest::CycleRepeat);
        }
        if key.code == KeyCode::Char('s') {
            return PlayerKeyAction::Send(PlayerRequest::ToggleShuffle);
        }
        if key.code == KeyCode::Char('t') {
            return PlayerKeyAction::Send(PlayerRequest::SetSleepTimer(next_sleep_timer(self.sleep_secs)));
        }
        if key.code == KeyCode::Char('l') || key.code == KeyCode::Char('L') {
            self.source = PlayerSource::Library;
            return PlayerKeyAction::Nothing;
        }
        if key.code == KeyCode::Char('d') || key.code == KeyCode::Char('D') {
            self.source = PlayerSource::Destination;
            return PlayerKeyAction::Nothing;
        }
        if key.code == KeyCode::Char('+') || key.code == KeyCode::Char('=') {
            return PlayerKeyAction::VolumeUp;
        }
        if key.code == KeyCode::Char('-') {
            return PlayerKeyAction::VolumeDown;
        }
        if key.code == KeyCode::Left {
            return PlayerKeyAction::Send(PlayerRequest::SeekRelative(-30));
        }
        if key.code == KeyCode::Right {
            return PlayerKeyAction::Send(PlayerRequest::SeekRelative(30));
        }
        if key.code == KeyCode::Char('i') {
            self.right_pane = match self.right_pane {
                RightPane::Queue => RightPane::Lyrics,
                RightPane::Lyrics => RightPane::Queue,
            };
            return PlayerKeyAction::Nothing;
        }
        if key.code == KeyCode::Char('/') && self.focus == PlayerFocus::Library {
            if let Some(mut lib) = self.library.take() {
                lib.search_active = true;
                self.library = Some(lib);
            }
            return PlayerKeyAction::Nothing;
        }
        let sel: usize = match self.queue_selected {
            Some(i) => i,
            None => 0,
        };
        if key.code == KeyCode::Char('j') || key.code == KeyCode::Down {
            if self.focus == PlayerFocus::Library {
                if let Some(mut lib) = self.library.take() {
                    lib.move_down();
                    self.library = Some(lib);
                }
            } else if self.queue_tracks.len() > 0 && sel < self.queue_tracks.len() - 1 {
                self.queue_selected = Some(sel + 1);
            }
            return PlayerKeyAction::Nothing;
        }
        if key.code == KeyCode::Char('k') || key.code == KeyCode::Up {
            if self.focus == PlayerFocus::Library {
                if let Some(mut lib) = self.library.take() {
                    lib.move_up();
                    self.library = Some(lib);
                }
            } else {
                self.queue_selected = Some(sel.saturating_sub(1));
            }
            return PlayerKeyAction::Nothing;
        }
        if key.code == KeyCode::Enter {
            if self.focus == PlayerFocus::Library {
                return match self.handle_library_enter() {
                    Some(ts) => PlayerKeyAction::Send(PlayerRequest::PlayQueue(ts)),
                    None => PlayerKeyAction::Nothing,
                };
            }
            return match self.queue_selected {
                Some(i) => PlayerKeyAction::Send(PlayerRequest::JumpTo(i)),
                None => PlayerKeyAction::Nothing,
            };
        }
        PlayerKeyAction::Nothing
    }

    /// A key while the library search is active (see `search_key_spec`).
    fn handle_search_key(&mut self, key: Key) -> (r: PlayerKeyAction)
        requires
            old(self).wf(),
            old(self).library is Some,
        ensures
            search_key_spec(*old(self), *final(self), key, r),
            final(self).wf(),
    {
        if key.code == KeyCode::Esc || key.code == KeyCode::Char('/') {
            let mut lib = self.library.take().unwrap();
            lib.search_active = false;
            lib.search = String::new();
            lib.rebuild_flat();
            self.library = Some(lib);
            PlayerKeyAction::Nothing
        } else if key.code == KeyCode::Tab {
            self.focus = self.focus.toggle();
            PlayerKeyAction::Nothing
        } else if key.code == KeyCode::Char('j') || key.code == KeyCode::Down {
            let mut lib = self.library.take().unwrap();
            lib.move_down();
            self.library = Some(lib);
            PlayerKeyAction::Nothing
        } else if key.code == KeyCode::Char('k') || key.code == KeyCode::Up {
            let mut lib = self.library.take().unwrap();
            lib.move_up();
            self.library = Some(lib);
            PlayerKeyAction::Nothing
        } else if key.code == KeyCode::Enter {
            match self.handle_library_enter() {
                Some(ts) => PlayerKeyAction::Send(PlayerRequest::PlayQueue(ts)),
                None => PlayerKeyAction::Nothing,
            }
        } else {
            PlayerKeyAction::EditSearch
        }
    }
}


impl PlayerView {
    /// Follows an event of the audio engine. `lyrics_found` tells, for a
    /// track that started, whether a `.lrc` file was found for it (without
    /// one, the right pane shows the queue).
    pub fn apply_event(&mut self, event: PlayerEvent, lyrics_found: bool)
        ensures
            match event {
                PlayerEvent::TrackStarted(t) => *final(self) == (PlayerView {
                    right_pane: if lyrics_found {
                        old(self).right_pane
                    } else {
                        RightPane::Queue
                    },
                    current: Some(t),
                    position_ms: 0,
                    paused: false,
                    flash: None,
                    queue_selected: Some(old(self).queue_cursor),
                    ..*old(self)
                }),
                PlayerEvent::Position(p) => *final(self) == (PlayerView { position_ms: p, ..*old(self) }),
                PlayerEvent::QueueUpdated { tracks, cursor } => *final(self) == (PlayerView {
                    queue_tracks: tracks,
                    queue_cursor: cursor,
                    queue_selected: Some(cursor),
                    ..*old(self)
                }),
                PlayerEvent::TrackMetadata { idx, track } => if idx < old(self).queue_tracks@.len() {
                    &&& final(self).queue_tracks@ == old(self).queue_tracks@.update(idx as int, track)
                    &&& *final(self) == (PlayerView { queue_tracks: final(self).queue_tracks, ..*old(self) })
                } else {
                    *final(self) == *old(self)
                },
                PlayerEvent::TrackEnded => *final(self) == *old(self),
                PlayerEvent::QueueEmpty => *final(self) == (PlayerView { current: None, position_ms: 0, ..*old(self) }),
                PlayerEvent::Stopped => *final(self) == (PlayerView {
                    current: None,
                    position_ms: 0,
                    paused: false,
                    ..*old(self)
                }),
                PlayerEvent::DecodeError { path, err } => {
                    &&& *final(self) == (PlayerView { flash: final(self).flash, ..*old(self) })
                    &&& final(self).flash matches Some(f) && f@ == err@ + "  ("@ + path@ + ")"@
                },
                PlayerEvent::SleepTimerSet(d) => *final(self) == (PlayerView { sleep_secs: d, ..*old(self) }),
                PlayerEvent::SleepTimerFired => {
                    &&& *final(self) == (PlayerView {
                        sleep_secs: None,
                        paused: true,
                        flash: final(self).flash,
                        ..*old(self)
                    })
                    &&& final(self).flash matches Some(f) && f@ == "sleep timer — playback paused"@
                },
            },
    {
        match event {
            PlayerEvent::TrackStarted(t) => {
                if !lyrics_found {
                    self.right_pane = RightPane::Queue;
                }
                self.current = Some(t);
                self.position_ms = 0;
                self.paused = false;
                self.flash = None;
                self.queue_selected = Some(self.queue_cursor);
            },
            PlayerEvent::Position(p) => {
                self.position_ms = p;
            },
            PlayerEvent::QueueUpdated { tracks, cursor } => {
                self.queue_tracks = tracks;
                self.queue_cursor = cursor;
                self.queue_selected = Some(cursor);
            },
            PlayerEvent::TrackMetadata { idx, track } => {
                if idx < self.queue_tracks.len() {
                    self.queue_tracks.set(idx, track);
                }
            },
            PlayerEvent::TrackEnded => {},
            PlayerEvent::QueueEmpty => {
                self.current = None;
                self.position_ms = 0;
            },
            PlayerEvent::Stopped => {
                self.current = None;
                self.position_ms = 0;
                self.paused = false;
            },
            PlayerEvent::DecodeError { path, err } => {
                let mut m = err;
                push_str(&mut m, "  (");
                push_str(&mut m, path.as_str());
                push_str(&mut m, ")");
                self.flash = Some(m);
            },
            PlayerEvent::SleepTimerSet(d) => {
                self.sleep_secs = d;
            },
            PlayerEvent::SleepTimerFired => {
                self.sleep_secs = None;
                self.paused = true;
                self.flash = Some("sleep timer — playback paused".to_owned());
            },
        }
    }
}


// ── Texts of the player view ─────────────────────────────────────────────────

/// The library pane's title: the search being typed, the scan's progress,
/// or the number of artists.
pub open spec fn library_title_spec(l: LibraryState, focused: bool) -> Seq<char> {
    let prefix = if focused {
        "▶ "@
    } else {
        "  "@
    };
    if l.search_active {
        " / "@ + l.search@ + "_ "@
    } else if l.scanning {
        if l.scan_total > 0 {
            " "@ + prefix + "library  ("@ + dec(l.scan_done as nat) + "/"@ + dec(l.scan_total as nat)
                + " scanning...) "@
        } else {
            " "@ + prefix + "library  (scanning...) "@
        }
    } else if l.index@.len() > 0 {
        " "@ + prefix + "library  ("@ + dec(l.index@.len()) + ") "@
    } else {
        " "@ + prefix + "library "@
    }
}

/// `s` padded with spaces on the right to `w` characters.
pub open spec fn pad_right(s: Seq<char>, w: nat) -> Seq<char> {
    if s.len() >= w {
        s
    } else {
        s + Seq::new((w - s.len()) as nat, |i: int| ' ')
    }
}

/// The text of row `node` of the library pane, `w` characters wide: an
/// artist with its expansion mark; an album indented, with its track count
/// on the right.
pub open spec fn library_row_spec(index: Seq<ArtistV>, expanded: Seq<bool>, node: LibraryNode, w: nat) -> Seq<char> {
    match node {
        LibraryNode::Artist(ai) => {
            let icon = if ai < expanded.len() && expanded[ai as int] {
                "▼ "@
            } else {
                "▶ "@
            };
            trunc_spec(icon + index[ai as int].0, w)
        },
        LibraryNode::Album { artist: ai, album: ali } => {
            let al = index[ai as int].1[ali as int];
            let count = "("@ + dec(al.1.len()) + ")"@;
            let name_w: nat = if w >= count.len() + 4 {
                (w - count.len() - 4) as nat
            } else {
                0
            };
            "  "@ + pad_right(trunc_spec(al.0, name_w), name_w) + "  "@ + count
        },
    }
}

impl LibraryState {
    /// The pane's title (see `library_title_spec`).
    pub fn title(&self, focused: bool) -> (r: String)
        ensures
            r@ == library_title_spec(*self, focused),
    {
        let prefix = if focused {
            "▶ "
        } else {
            "  "
        };
        let mut t = " ".to_owned();
        if self.search_active {
            t = " / ".to_owned();
            push_str(&mut t, self.search.as_str());
            push_str(&mut t, "_ ");
        } else if self.scanning {
            push_str(&mut t, prefix);
            if self.scan_total > 0 {
                push_str(&mut t, "library  (");
                push_str(&mut t, fmt_u64(self.scan_done as u64).as_str());
                push_str(&mut t, "/");
                push_str(&mut t, fmt_u64(self.scan_total as u64).as_str());
                push_str(&mut t, " scanning...) ");
            } else {
                push_str(&mut t, "library  (scanning...) ");
            }
        } else if !self.index.is_empty() {
            push_str(&mut t, prefix);
            push_str(&mut t, "library  (");
            push_str(&mut t, fmt_u64(self.index.artists.len() as u64).as_str());
            push_str(&mut t, ") ");
        } else {
            push_str(&mut t, prefix);
            push_str(&mut t, "library ");
        }
        assert(t@ =~= library_title_spec(*self, focused));
        t
    }

    /// What the pane shows without rows.
    pub fn empty_hint(&self) -> (r: &'static str)
        ensures
            r@ == if self.index@.len() == 0 {
                "  — empty library —"@
            } else {
                "  — no results —"@
            },
    {
        if self.index.is_empty() {
            "  — empty library —"
        } else {
            "  — no results —"
        }
    }

    /// The text of row `i`, `w` characters wide (see `library_row_spec`);
    /// `None` when there is no such row or it points nowhere.
    pub fn row_label(&self, i: usize, w: usize) -> (r: Option<String>)
        ensures
            match r {
                Some(t) => i < self.flat@.len() && t@ == library_row_spec(
                    self.index@,
                    self.expanded@,
                    self.flat@[i as int],
                    w as nat,
                ),
                None => i >= self.flat@.len() || match self.flat@[i as int] {
                    LibraryNode::Artist(ai) => ai >= self.index@.len(),
                    LibraryNode::Album { artist: ai, album: ali } => ai >= self.index@.len() || ali
                        >= self.index@[ai as int].1.len(),
                },
            },
    {
        if i >= self.flat.len() {
            return None;
        }
        match self.flat[i] {
            LibraryNode::Artist(ai) => {
                if ai >= self.index.artists.len() {
                    return None;
                }
                let exp = ai < self.expanded.len() && self.expanded[ai];
                let mut label = if exp {
                    "▼ ".to_owned()
                } else {
                    "▶ ".to_owned()
                };
                assert(self.index@[ai as int].0 == self.index.artists@[ai as int].name@);
                push_str(&mut label, self.index.artists[ai].name.as_str());
                Some(trunc(label.as_str(), w))
            },
            LibraryNode::Album { artist: ai, album: ali } => {
                if ai >= self.index.artists.len() {
                    return None;
                }
                let artist = &self.index.artists[ai];
                assert(self.index@[ai as int] == artist@);
                if ali >= artist.albums.len() {
                    return None;
                }
                let album = &artist.albums[ali];
                assert(artist@.1[ali as int] == album@);
                let mut count = "(".to_owned();
                push_str(&mut count, fmt_u64(album.tracks.len() as u64).as_str());
                push_str(&mut count, ")");
                let clen = chars_of(count.as_str()).len();
                let name_w: usize = if clen <= w && w - clen >= 4 {
                    w - clen - 4
                } else {
                    0
                };
                let name = trunc(album.name.as_str(), name_w);
                let mut label = "  ".to_owned();
                push_str(&mut label, name.as_str());
                let nlen = chars_of(name.as_str()).len();
                let mut k = nlen;
                let ghost base = label@;
                while k < name_w
                    invariant
                        nlen <= k <= name_w || (nlen >= name_w && k == nlen),
                        label@ == base + Seq::new((k - nlen) as nat, |j: int| ' '),
                    decreases name_w - k,
                {
                    push_char(&mut label, ' ');
                    assert(label@ =~= base + Seq::new((k + 1 - nlen) as nat, |j: int| ' '));
                    k += 1;
                }
                push_str(&mut label, "  ");
                push_str(&mut label, count.as_str());
                assert(label@ =~= library_row_spec(self.index@, self.expanded@, self.flat@[i as int], w as nat));
                Some(label)
            },
        }
    }
}


/// The artist and album line of the playing track.
pub open spec fn artist_album_spec(t: TrackInfo) -> Seq<char> {
    match (t.artist, t.album) {
        (Some(a), Some(al)) => "  "@ + a@ + "  ·  "@ + al@,
        (Some(a), None) => "  "@ + a@,
        (None, Some(al)) => "  "@ + al@,
        (None, None) => Seq::empty(),
    }
}

pub fn artist_album_text(t: &TrackInfo) -> (r: String)
    ensures
        r@ == artist_album_spec(*t),
{
    match (&t.artist, &t.album) {
        (Some(a), Some(al)) => {
            let mut r = "  ".to_owned();
            push_str(&mut r, a.as_str());
            push_str(&mut r, "  ·  ");
            push_str(&mut r, al.as_str());
            r
        },
        (Some(a), None) => {
            let mut r = "  ".to_owned();
            push_str(&mut r, a.as_str());
            r
        },
        (None, Some(al)) => {
            let mut r = "  ".to_owned();
            push_str(&mut r, al.as_str());
            r
        },
        (None, None) => String::new(),
    }
}

/// The label of the progress gauge: position and duration (`?:??` when
/// unknown), whole seconds.
pub fn progress_label(position_ms: u64, duration_ms: Option<u64>) -> (r: String)
    ensures
        r@ == "  "@ + dur_text((position_ms / 1000) as nat) + "  /  "@ + match duration_ms {
            Some(d) => dur_text((d / 1000) as nat),
            None => "?:??"@,
        },
{
    let mut r = "  ".to_owned();
    push_str(&mut r, fmt_dur(position_ms / 1000).as_str());
    push_str(&mut r, "  /  ");
    match duration_ms {
        Some(d) => push_str(&mut r, fmt_dur(d / 1000).as_str()),
        None => push_str(&mut r, "?:??"),
    }
    r
}

/// The sleep timer line: the time left as `m:ss`.
pub fn sleep_text(remaining_secs: u64) -> (r: String)
    ensures
        r@ == "  ⏾ sleep "@ + dec((remaining_secs / 60) as nat) + ":"@ + pad2((remaining_secs % 60) as nat),
{
    let mut r = "  ⏾ sleep ".to_owned();
    push_str(&mut r, fmt_u64(remaining_secs / 60).as_str());
    push_str(&mut r, ":");
    push_pad2(&mut r, remaining_secs % 60);
    r
}

impl PlayerView {
    /// Nothing is playing and the queue is empty.
    pub fn is_idle(&self) -> (r: bool)
        ensures
            r == (self.current is None && self.queue_tracks@.len() == 0),
    {
        self.current.is_none() && self.queue_tracks.len() == 0
    }

    /// What the idle player suggests.
    pub fn idle_hint(&self) -> (r: &'static str)
        ensures
            r@ == if self.library is Some {
                "  — idle —  press Enter on an album in the library to play"@
            } else {
                "  — idle —  press m from profiles to load library, or space on a diff entry"@
            },
    {
        if self.library.is_some() {
            "  — idle —  press Enter on an album in the library to play"
        } else {
            "  — idle —  press m from profiles to load library, or space on a diff entry"
        }
    }
}

} // verus!
