//! View selection, list filters, the wizard steps and the progress view.

use vstd::prelude::*;
use vstd::view::View as _;

use crate::diff::plan::{duplicate_warnings, transfer_spec, Entry, EntryKind, Plan, Row};
use crate::diff::DiffResult;
use crate::transfer::{ProgressEvent, Stats};
use crate::config::{Mode, SyncProfile, Verify};
use crate::cli::sync::sync_mode;
use crate::transfer::SyncMode;
use crate::order::{insert_sorted_unique, sorted_position, sort_by_lower, sort_lower_spec, strictly_sorted, strs};
use crate::scan::{IdentifiedDap, ScanResult};
use crate::paths::{file_name, join, parent, path_file_name, path_join, path_parent};
use crate::text::{has_prefix, push_str, starts_with, str_eq, string_of_range, chars_of};

verus! {

#[derive(Debug, Clone, Copy, PartialEq, Eq, Structural)]
pub enum View {
    Home,
    Profiles,
    Diff,
    Progress,
    Log,
    NewProfile,
    Player,
}

/// Which entry kinds to show in the diff list.
#[derive(Debug, Clone, Copy, PartialEq, Eq, Structural)]
pub enum EntryFilter {
    All,
    New,
    Modified,
    Orphan,
    Same,
}

/// Position of a filter in the cycle All, New, Modified, Orphan, Same.
pub open spec fn filter_pos(f: EntryFilter) -> int {
    match f {
        EntryFilter::All => 0,
        EntryFilter::New => 1,
        EntryFilter::Modified => 2,
        EntryFilter::Orphan => 3,
        EntryFilter::Same => 4,
    }
}

pub open spec fn filter_matches(f: EntryFilter, kind: EntryKind) -> bool {
    match f {
        EntryFilter::All => true,
        EntryFilter::New => kind == EntryKind::New,
        EntryFilter::Modified => kind == EntryKind::Modified,
        EntryFilter::Orphan => kind == EntryKind::Orphan,
        EntryFilter::Same => kind == EntryKind::Same,
    }
}

impl EntryFilter {
    pub fn label(self) -> (r: &'static str)
        ensures
            r@ == match self {
                EntryFilter::All => "ALL"@,
                EntryFilter::New => "NEW [+]"@,
                EntryFilter::Modified => "MODIFIED [~]"@,
                EntryFilter::Orphan => "ORPHAN [-]"@,
                EntryFilter::Same => "SAME [=]"@,
            },
    {
        match self {
            EntryFilter::All => "ALL",
            EntryFilter::New => "NEW [+]",
            EntryFilter::Modified => "MODIFIED [~]",
            EntryFilter::Orphan => "ORPHAN [-]",
            EntryFilter::Same => "SAME [=]",
        }
    }

    /// The next filter in the cycle.
    pub fn next(self) -> (r: Self)
        ensures
            filter_pos(r) == (filter_pos(self) + 1) % 5,
    {
        match self {
            EntryFilter::All => EntryFilter::New,
            EntryFilter::New => EntryFilter::Modified,
            EntryFilter::Modified => EntryFilter::Orphan,
            EntryFilter::Orphan => EntryFilter::Same,
            EntryFilter::Same => EntryFilter::All,
        }
    }

    /// Whether an entry of `kind` is shown: all of them, or those of the
    /// filter's kind.
    pub fn matches(self, kind: EntryKind) -> (r: bool)
        ensures
            r == filter_matches(self, kind),
    {
        match self {
            EntryFilter::All => true,
            EntryFilter::New => kind == EntryKind::New,
            EntryFilter::Modified => kind == EntryKind::Modified,
            EntryFilter::Orphan => kind == EntryKind::Orphan,
            EntryFilter::Same => kind == EntryKind::Same,
        }
    }
}

/// Every entry kind is shown by exactly two filters: `All` and its own.
pub proof fn lemma_filter_partition(kind: EntryKind)
    ensures
        filter_matches(EntryFilter::All, kind),
        filter_matches(EntryFilter::New, kind) as int + filter_matches(EntryFilter::Modified, kind)
            as int + filter_matches(EntryFilter::Orphan, kind) as int + filter_matches(
            EntryFilter::Same,
            kind,
        ) as int == 1,
{
}

#[derive(Debug, Clone, Copy, PartialEq, Eq, Structural)]
pub enum WizardStep {
    Name,
    Source,
    Destination,
    Mode,
    Confirm,
}

pub open spec fn step_number(s: WizardStep) -> int {
    match s {
        WizardStep::Name => 1,
        WizardStep::Source => 2,
        WizardStep::Destination => 3,
        WizardStep::Mode => 4,
        WizardStep::Confirm => 5,
    }
}

impl WizardStep {
    /// 1-based position of the step.
    pub fn number(self) -> (r: usize)
        ensures
            r == step_number(self),
    {
        match self {
            WizardStep::Name => 1,
            WizardStep::Source => 2,
            WizardStep::Destination => 3,
            WizardStep::Mode => 4,
            WizardStep::Confirm => 5,
        }
    }

    pub fn label(self) -> (r: &'static str)
        ensures
            r@ == match self {
                WizardStep::Name => "profile name"@,
                WizardStep::Source => "source path"@,
                WizardStep::Destination => "destination"@,
                WizardStep::Mode => "sync mode"@,
                WizardStep::Confirm => "confirm"@,
            },
    {
        match self {
            WizardStep::Name => "profile name",
            WizardStep::Source => "source path",
            WizardStep::Destination => "destination",
            WizardStep::Mode => "sync mode",
            WizardStep::Confirm => "confirm",
        }
    }

    /// The step before this one; `None` on the first.
    pub fn prev(self) -> (r: Option<Self>)
        ensures
            r == step_prev(self),
            match r {
                None => step_number(self) == 1,
                Some(p) => step_number(p) == step_number(self) - 1,
            },
    {
        match self {
            WizardStep::Name => None,
            WizardStep::Source => Some(WizardStep::Name),
            WizardStep::Destination => Some(WizardStep::Source),
            WizardStep::Mode => Some(WizardStep::Destination),
            WizardStep::Confirm => Some(WizardStep::Mode),
        }
    }

    /// The step after this one; `None` on the last.
    pub fn next(self) -> (r: Option<Self>)
        ensures
            r == step_next(self),
            match r {
                None => step_number(self) == 5,
                Some(n) => step_number(n) == step_number(self) + 1,
            },
    {
        match self {
            WizardStep::Name => Some(WizardStep::Source),
            WizardStep::Source => Some(WizardStep::Destination),
            WizardStep::Destination => Some(WizardStep::Mode),
            WizardStep::Mode => Some(WizardStep::Confirm),
            WizardStep::Confirm => None,
        }
    }
}

/// The step before `s`, by position.
pub open spec fn step_prev(s: WizardStep) -> Option<WizardStep> {
    match s {
        WizardStep::Name => None,
        WizardStep::Source => Some(WizardStep::Name),
        WizardStep::Destination => Some(WizardStep::Source),
        WizardStep::Mode => Some(WizardStep::Destination),
        WizardStep::Confirm => Some(WizardStep::Mode),
    }
}

/// The step after `s`, by position.
pub open spec fn step_next(s: WizardStep) -> Option<WizardStep> {
    match s {
        WizardStep::Name => Some(WizardStep::Source),
        WizardStep::Source => Some(WizardStep::Destination),
        WizardStep::Destination => Some(WizardStep::Mode),
        WizardStep::Mode => Some(WizardStep::Confirm),
        WizardStep::Confirm => None,
    }
}

/// Stepping forward then back returns to the same wizard step, and stepping
/// back then forward too; every step but the last has a next one.
pub proof fn lemma_wizard_next_prev(s: WizardStep)
    ensures
        step_next(s) matches Some(n) ==> step_prev(n) == Some(s),
        step_prev(s) matches Some(p) ==> step_next(p) == Some(s),
        step_next(s) is None <==> s == WizardStep::Confirm,
        step_prev(s) is None <==> s == WizardStep::Name,
{
}

#[derive(Debug, Clone, Copy, PartialEq, Eq, Structural)]
pub enum LogLevel {
    Info,
    Warn,
    Error,
    Other,
}

/// A single parsed log entry for display.
#[derive(Debug, Clone)]
pub struct LogEntry {
    pub time: String,
    pub level: LogLevel,
    pub event: String,
    pub detail: String,
}

impl LogEntry {
    pub fn level_str(&self) -> (r: &'static str)
        ensures
            r@ == match self.level {
                LogLevel::Info => "info"@,
                LogLevel::Warn => "warn"@,
                LogLevel::Error => "error"@,
                LogLevel::Other => "?"@,
            },
    {
        match self.level {
            LogLevel::Info => "info",
            LogLevel::Warn => "warn",
            LogLevel::Error => "error",
            LogLevel::Other => "?",
        }
    }
}

// ── Progress view state ─────────────────────────────────────────────────────

/// How many finished lines the progress view keeps.
pub const MAX_RECENT: usize = 200;

/// A finished file in the progress view's recent list.
#[derive(Debug, Clone)]
pub struct RecentLine {
    pub icon: String,
    pub path: String,
    pub ok: bool,
}

/// Live state of a sync shown by the progress view.
#[derive(Debug, Clone)]
pub struct ProgressState {
    pub profile_name: String,
    pub total_bytes: u64,
    pub done_bytes: u64,
    pub current_file: String,
    pub current_file_bytes: u64,
    pub current_file_done: u64,
    pub copied: usize,
    pub deleted: usize,
    pub failed: usize,
    pub recent: Vec<RecentLine>,
    pub finished: bool,
    pub finish_stats: Option<Stats>,
}

/// `recent` after appending `line`, dropping the oldest beyond the limit.
pub open spec fn push_recent_spec(recent: Seq<RecentLine>, line: RecentLine) -> Seq<RecentLine> {
    if recent.len() >= MAX_RECENT {
        recent.drop_first().push(line)
    } else {
        recent.push(line)
    }
}

impl ProgressState {
    pub fn new(profile_name: String, total_bytes: u64) -> (r: Self)
        ensures
            r.profile_name == profile_name,
            r.total_bytes == total_bytes,
            r.done_bytes == 0,
            r.current_file@.len() == 0,
            r.current_file_bytes == 0,
            r.current_file_done == 0,
            r.copied == 0,
            r.deleted == 0,
            r.failed == 0,
            r.recent@.len() == 0,
            !r.finished,
            r.finish_stats is None,
    {
        ProgressState {
            profile_name,
            total_bytes,
            done_bytes: 0,
            current_file: String::new(),
            current_file_bytes: 0,
            current_file_done: 0,
            copied: 0,
            deleted: 0,
            failed: 0,
            recent: Vec::new(),
            finished: false,
            finish_stats: None,
        }
    }

    fn push_recent(&mut self, line: RecentLine)
        requires
            old(self).recent@.len() <= MAX_RECENT,
        ensures
            final(self).recent@ == push_recent_spec(old(self).recent@, line),
            final(self).recent@.len() <= MAX_RECENT,
            final(self).profile_name == old(self).profile_name,
            final(self).total_bytes == old(self).total_bytes,
            final(self).done_bytes == old(self).done_bytes,
            final(self).current_file == old(self).current_file,
            final(self).current_file_bytes == old(self).current_file_bytes,
            final(self).current_file_done == old(self).current_file_done,
            final(self).copied == old(self).copied,
            final(self).deleted == old(self).deleted,
            final(self).failed == old(self).failed,
            final(self).finished == old(self).finished,
            final(self).finish_stats == old(self).finish_stats,
    {
        if self.recent.len() >= MAX_RECENT {
            self.recent.remove(0);
        }
        self.recent.push(line);
    }

    /// Applies one progress event: a file start resets the per-file counters,
    /// progress adds to both byte counters, a finished, failed or deleted
    /// file is counted and appended to the recent list (at most
    /// `MAX_RECENT`, oldest dropped), and the final statistics end the run.
    pub fn handle_event(&mut self, event: ProgressEvent)
        requires
            old(self).recent@.len() <= MAX_RECENT,
            event matches ProgressEvent::FileProgress { bytes } ==> old(self).current_file_done
                + bytes <= u64::MAX && old(self).done_bytes + bytes <= u64::MAX,
            event is FileDone ==> old(self).copied < usize::MAX,
            event is FileFail ==> old(self).failed < usize::MAX,
            event is DeleteDone ==> old(self).deleted < usize::MAX,
        ensures
            final(self).recent@.len() <= MAX_RECENT,
            final(self).profile_name == old(self).profile_name,
            final(self).total_bytes == old(self).total_bytes,
            match event {
                ProgressEvent::FileStart { path, bytes } => {
                    &&& final(self).current_file == path
                    &&& final(self).current_file_bytes == bytes
                    &&& final(self).current_file_done == 0
                    &&& final(self).done_bytes == old(self).done_bytes
                    &&& final(self).copied == old(self).copied
                    &&& final(self).failed == old(self).failed
                    &&& final(self).deleted == old(self).deleted
                    &&& final(self).recent@ == old(self).recent@
                    &&& final(self).finished == old(self).finished
                },
                ProgressEvent::FileProgress { bytes } => {
                    &&& final(self).current_file_done == old(self).current_file_done + bytes
                    &&& final(self).done_bytes == old(self).done_bytes + bytes
                    &&& final(self).current_file == old(self).current_file
                    &&& final(self).copied == old(self).copied
                    &&& final(self).failed == old(self).failed
                    &&& final(self).deleted == old(self).deleted
                    &&& final(self).recent@ == old(self).recent@
                    &&& final(self).finished == old(self).finished
                },
                ProgressEvent::FileDone { path, .. } => {
                    &&& final(self).copied == old(self).copied + 1
                    &&& final(self).current_file@.len() == 0
                    &&& final(self).recent@ == push_recent_spec(
                        old(self).recent@,
                        RecentLine { icon: final(self).recent@.last().icon, path, ok: true },
                    )
                    &&& final(self).recent@.last().icon@ == "[+]"@
                    &&& final(self).done_bytes == old(self).done_bytes
                    &&& final(self).failed == old(self).failed
                    &&& final(self).deleted == old(self).deleted
                    &&& final(self).finished == old(self).finished
                },
                ProgressEvent::FileFail { path, err } => {
                    &&& final(self).failed == old(self).failed + 1
                    &&& final(self).current_file@.len() == 0
                    &&& final(self).recent@ == push_recent_spec(
                        old(self).recent@,
                        RecentLine {
                            icon: final(self).recent@.last().icon,
                            path: final(self).recent@.last().path,
                            ok: false,
                        },
                    )
                    &&& final(self).recent@.last().icon@ == "[!]"@
                    &&& final(self).recent@.last().path@ == path@ + "  ("@ + err@ + ")"@
                    &&& final(self).done_bytes == old(self).done_bytes
                    &&& final(self).copied == old(self).copied
                    &&& final(self).deleted == old(self).deleted
                    &&& final(self).finished == old(self).finished
                },
                ProgressEvent::DeleteDone { path } => {
                    &&& final(self).deleted == old(self).deleted + 1
                    &&& final(self).recent@ == push_recent_spec(
                        old(self).recent@,
                        RecentLine { icon: final(self).recent@.last().icon, path, ok: true },
                    )
                    &&& final(self).recent@.last().icon@ == "[-]"@
                    &&& final(self).current_file == old(self).current_file
                    &&& final(self).done_bytes == old(self).done_bytes
                    &&& final(self).copied == old(self).copied
                    &&& final(self).failed == old(self).failed
                    &&& final(self).finished == old(self).finished
                },
                ProgressEvent::Finish { stats } => {
                    &&& final(self).finished
                    &&& final(self).finish_stats == Some(stats)
                    &&& final(self).current_file@.len() == 0
                    &&& final(self).done_bytes == old(self).done_bytes
                    &&& final(self).copied == old(self).copied
                    &&& final(self).failed == old(self).failed
                    &&& final(self).deleted == old(self).deleted
                    &&& final(self).recent@ == old(self).recent@
                },
            },
    {
        match event {
            ProgressEvent::FileStart { path, bytes } => {
                self.current_file = path;
                self.current_file_bytes = bytes;
                self.current_file_done = 0;
            },
            ProgressEvent::FileProgress { bytes } => {
                self.current_file_done = self.current_file_done + bytes;
                self.done_bytes = self.done_bytes + bytes;
            },
            ProgressEvent::FileDone { path, bytes: _ } => {
                self.copied = self.copied + 1;
                self.current_file = String::new();
                self.push_recent(RecentLine { icon: "[+]".to_owned(), path, ok: true });
            },
            ProgressEvent::FileFail { path, err } => {
                self.failed = self.failed + 1;
                self.current_file = String::new();
                let mut line = path;
                push_str(&mut line, "  (");
                push_str(&mut line, err.as_str());
                push_str(&mut line, ")");
                self.push_recent(RecentLine { icon: "[!]".to_owned(), path: line, ok: false });
            },
            ProgressEvent::DeleteDone { path } => {
                self.deleted = self.deleted + 1;
                self.push_recent(RecentLine { icon: "[-]".to_owned(), path, ok: true });
            },
            ProgressEvent::Finish { stats } => {
                self.finished = true;
                self.finish_stats = Some(stats);
                self.current_file = String::new();
            },
        }
    }
}


// ── File browser ─────────────────────────────────────────────────────────────

/// What activating or leaving an entry of the file browser did.
#[derive(Debug, Clone, Copy, PartialEq, Eq, Structural)]
pub enum BrowseStep {
    /// Nothing changed.
    Stayed,
    /// The user chose the current directory.
    Confirmed,
    /// The browser moved to another location; its listing is to be read and
    /// handed to `refresh`.
    Moved,
}

/// A directory browser: the subdirectories of `current`, or the list of
/// drives when `at_drives_root`.
pub struct FileBrowserState {
    /// Current directory; empty on the drives list.
    pub current: String,
    /// Subdirectory names (sorted case-insensitively), or drive roots.
    pub entries: Vec<String>,
    /// 0 is "select this directory" outside the drives list; entry `k` is at
    /// `k + 1` there and at `k` on the drives list.
    pub cursor: usize,
    pub at_drives_root: bool,
    /// Entry to highlight once the listing of the new location arrives.
    pub reselect: Option<String>,
}

/// Number of selectable rows: the entries, plus the "select" row outside the
/// drives list.
pub open spec fn browser_total(at_drives_root: bool, n: nat) -> nat {
    if at_drives_root {
        n
    } else {
        n + 1
    }
}

/// First index of `x` in `s` from `i` on; -1 if none.
pub open spec fn index_from(s: Seq<Seq<char>>, x: Seq<char>, i: int) -> int
    decreases s.len() - i,
{
    if i < 0 || i >= s.len() {
        -1
    } else if s[i] == x {
        i
    } else {
        index_from(s, x, i + 1)
    }
}

/// The row that shows `name` among `entries` (0 if it is not there).
pub open spec fn row_of(entries: Seq<Seq<char>>, name: Seq<char>, at_drives_root: bool) -> int {
    let i = index_from(entries, name, 0);
    if i < 0 {
        0
    } else if at_drives_root {
        i
    } else {
        i + 1
    }
}

proof fn lemma_index_from_bounds(s: Seq<Seq<char>>, x: Seq<char>, i: int)
    requires
        0 <= i,
    ensures
        index_from(s, x, i) == -1 || (i <= index_from(s, x, i) < s.len() && s[index_from(s, x, i)] == x),
    decreases s.len() - i,
{
    if i < s.len() && s[i] != x {
        lemma_index_from_bounds(s, x, i + 1);
    }
}

/// Index of the first `x` in `v`, if any.
fn index_of(v: &Vec<String>, x: &str) -> (r: Option<usize>)
    ensures
        match r {
            Some(i) => index_from(strs(v@), x@, 0) == i,
            None => index_from(strs(v@), x@, 0) == -1,
        },
{
    let ghost s = strs(v@);
    let mut i: usize = 0;
    while i < v.len()
        invariant
            0 <= i <= v@.len(),
            s == strs(v@),
            index_from(s, x@, 0) == index_from(s, x@, i as int),
        decreases v@.len() - i,
    {
        assert(s[i as int] == v@[i as int]@);
        if str_eq(v[i].as_str(), x) {
            return Some(i);
        }
        i += 1;
    }
    None
}

/// `n` is `o` with the cursor one row down, unless it was on the last row.
pub open spec fn browser_down(o: FileBrowserState, n: FileBrowserState) -> bool {
    &&& n.current == o.current
    &&& n.entries == o.entries
    &&& n.at_drives_root == o.at_drives_root
    &&& n.reselect == o.reselect
    &&& n.cursor == if o.cursor + 1 < browser_total(o.at_drives_root, o.entries@.len()) {
        o.cursor + 1
    } else {
        o.cursor as int
    }
}

/// `n` is `o` with the cursor one row up, stopping at the first row.
pub open spec fn browser_up(o: FileBrowserState, n: FileBrowserState) -> bool {
    &&& n.current == o.current
    &&& n.entries == o.entries
    &&& n.at_drives_root == o.at_drives_root
    &&& n.reselect == o.reselect
    &&& n.cursor == if o.cursor > 0 {
        o.cursor - 1
    } else {
        0
    }
}

/// `o` opened `location` (a drive or a subdirectory): the cursor is back on
/// the first row, the old entries stay until the new listing arrives.
pub open spec fn browser_opened(o: FileBrowserState, n: FileBrowserState, location: Seq<char>) -> bool {
    &&& n.current@ == location
    &&& n.cursor == 0
    &&& !n.at_drives_root
    &&& n.entries == o.entries
    &&& n.reselect == o.reselect
}

/// Activating the highlighted row of `o` gave `n` and `r`: on the drives
/// list, the drive is opened; on the "select" row, the directory is
/// confirmed; on an entry, that subdirectory is opened.
pub open spec fn browser_enter(o: FileBrowserState, n: FileBrowserState, r: BrowseStep) -> bool {
    if o.at_drives_root {
        if o.cursor < o.entries@.len() {
            r == BrowseStep::Moved && browser_opened(o, n, o.entries@[o.cursor as int]@)
        } else {
            r == BrowseStep::Stayed && n == o
        }
    } else if o.cursor == 0 {
        r == BrowseStep::Confirmed && n == o
    } else if o.cursor - 1 < o.entries@.len() {
        r == BrowseStep::Moved && browser_opened(o, n, path_join(o.current@, o.entries@[o.cursor - 1]@))
    } else {
        r == BrowseStep::Stayed && n == o
    }
}

/// Going up from `o` gave `n` and `r`: from the filesystem root to the
/// drives list, else to the parent directory, with the directory left to
/// be highlighted once the new listing arrives.
pub open spec fn browser_go_up(o: FileBrowserState, n: FileBrowserState, r: BrowseStep) -> bool {
    if o.at_drives_root {
        r == BrowseStep::Stayed && n == o
    } else if o.current@ == "/"@ {
        &&& r == BrowseStep::Moved
        &&& n.at_drives_root
        &&& n.current@ == Seq::<char>::empty()
        &&& n.reselect matches Some(p) && p@ == "/"@
        &&& n.entries == o.entries
        &&& n.cursor == o.cursor
    } else {
        match path_parent(o.current@) {
            Some(par) => {
                &&& r == BrowseStep::Moved
                &&& !n.at_drives_root
                &&& n.current@ == par
                &&& n.reselect matches Some(p) && p@ == match path_file_name(o.current@) {
                    Some(name) => name,
                    None => Seq::<char>::empty(),
                }
                &&& n.entries == o.entries
                &&& n.cursor == o.cursor
            },
            None => r == BrowseStep::Stayed && n == o,
        }
    }
}

/// Moving keeps every row the cursor can be on in range.
pub proof fn lemma_browser_moves_keep_cursor(o: FileBrowserState, n: FileBrowserState)
    requires
        o.wf(),
        browser_down(o, n) || browser_up(o, n),
    ensures
        n.wf(),
{
}

impl FileBrowserState {
    /// Every row the cursor can be on exists.
    pub open spec fn wf(&self) -> bool {
        self.cursor == 0 || self.cursor < browser_total(self.at_drives_root, self.entries@.len())
    }

    /// A browser at `start`, showing `listing`, the names of its
    /// subdirectories.
    pub fn new(start: String, listing: Vec<String>) -> (r: Self)
        ensures
            r.current == start,
            !r.at_drives_root,
            strs(r.entries@) == sort_lower_spec(strs(listing@)),
            r.cursor == 0,
            r.reselect is None,
            r.wf(),
    {
        let mut s = FileBrowserState {
            current: start,
            entries: Vec::new(),
            cursor: 0,
            at_drives_root: false,
            reselect: None,
        };
        s.refresh(listing);
        s
    }

    /// A browser on the list of `drives`.
    pub fn drives_root(drives: Vec<String>) -> (r: Self)
        ensures
            r.current@ == Seq::<char>::empty(),
            r.at_drives_root,
            r.entries@ == drives@,
            r.cursor == 0,
            r.reselect is None,
            r.wf(),
    {
        FileBrowserState { current: String::new(), entries: drives, cursor: 0, at_drives_root: true, reselect: None }
    }

    /// Takes the listing of the current location: the drives on the drives
    /// list (as given), else the subdirectory names, sorted
    /// case-insensitively. A pending `reselect` moves the cursor to that
    /// entry's row (0 if it is gone); otherwise the cursor stays.
    pub fn refresh(&mut self, listing: Vec<String>)
        ensures
            final(self).current == old(self).current,
            final(self).at_drives_root == old(self).at_drives_root,
            old(self).at_drives_root ==> final(self).entries@ == listing@,
            !old(self).at_drives_root ==> strs(final(self).entries@) == sort_lower_spec(strs(listing@)),
            final(self).reselect is None,
            old(self).reselect is None ==> final(self).cursor == old(self).cursor,
            old(self).reselect matches Some(p) ==> final(self).cursor == row_of(
                strs(final(self).entries@),
                p@,
                old(self).at_drives_root,
            ),
            old(self).reselect is Some ==> final(self).wf(),
            old(self).cursor == 0 ==> final(self).wf(),
    {
        if self.at_drives_root {
            self.entries = listing;
        } else {
            self.entries = sort_by_lower(listing);
        }
        let n = self.entries.len();
        let pending = self.reselect.take();
        if let Some(p) = pending {
            let ghost es = strs(self.entries@);
            proof {
                lemma_index_from_bounds(es, p@, 0);
            }
            self.cursor = match index_of(&self.entries, p.as_str()) {
                None => 0,
                Some(i) => {
                    assert(i < es.len());
                    assert(es.len() == n);
                    if self.at_drives_root {
                        i
                    } else {
                        i + 1
                    }
                },
            };
        }
    }

    /// Number of selectable rows.
    pub fn total_items(&self) -> (r: usize)
        requires
            self.entries@.len() < usize::MAX,
        ensures
            r == browser_total(self.at_drives_root, self.entries@.len()),
    {
        if self.at_drives_root {
            self.entries.len()
        } else {
            self.entries.len() + 1
        }
    }

    /// Moves the cursor one row down, unless it is on the last row.
    pub fn move_down(&mut self)
        ensures
            browser_down(*old(self), *final(self)),
    {
        let n = self.entries.len();
        let fits = if self.at_drives_root {
            self.cursor < n && self.cursor + 1 < n
        } else {
            self.cursor < n
        };
        if fits {
            self.cursor += 1;
        }
    }

    /// Moves the cursor one row up, stopping at the first row.
    pub fn move_up(&mut self)
        ensures
            browser_up(*old(self), *final(self)),
    {
        if self.cursor > 0 {
            self.cursor -= 1;
        }
    }

    /// Activates the highlighted row: on the drives list, opens the drive;
    /// on the "select" row, confirms the current directory; on an entry,
    /// opens that subdirectory. Opening resets the cursor to the first row.
    pub fn enter_selected(&mut self) -> (r: BrowseStep)
        ensures
            browser_enter(*old(self), *final(self), r),
    {
        if self.at_drives_root {
            if self.cursor < self.entries.len() {
                self.current = self.entries[self.cursor].clone();
                self.at_drives_root = false;
                self.cursor = 0;
                return BrowseStep::Moved;
            }
            return BrowseStep::Stayed;
        }
        if self.cursor == 0 {
            return BrowseStep::Confirmed;
        }
        let idx = self.cursor - 1;
        if idx < self.entries.len() {
            self.current = join(self.current.as_str(), self.entries[idx].as_str());
            self.cursor = 0;
            return BrowseStep::Moved;
        }
        BrowseStep::Stayed
    }

    /// Goes up one level: from the filesystem root to the drives list, else
    /// to the parent directory; the directory left is highlighted once the
    /// new listing arrives.
    pub fn go_up(&mut self) -> (r: BrowseStep)
        ensures
            browser_go_up(*old(self), *final(self), r),
    {
        if self.at_drives_root {
            return BrowseStep::Stayed;
        }
        proof {
            reveal_strlit("/");
        }
        if str_eq(self.current.as_str(), "/") {
            let prev = self.current.clone();
            self.at_drives_root = true;
            self.current = String::new();
            self.reselect = Some(prev);
            return BrowseStep::Moved;
        }
        let prev = match file_name(self.current.as_str()) {
            Some(n) => n,
            None => String::new(),
        };
        match parent(self.current.as_str()) {
            Some(p) => {
                self.current = p;
                self.reselect = Some(prev);
                BrowseStep::Moved
            },
            None => BrowseStep::Stayed,
        }
    }

    /// The location shown in the title: "drives" or the current directory.
    pub fn location_label(&self) -> (r: &str)
        ensures
            r@ == if self.at_drives_root {
                "drives"@
            } else {
                self.current@
            },
    {
        if self.at_drives_root {
            "drives"
        } else {
            self.current.as_str()
        }
    }
}


// ── New-profile wizard ───────────────────────────────────────────────────────

/// `b` shows `start`, listed as `listing`, with the "select" row highlighted.
pub open spec fn browser_at(b: FileBrowserState, start: Seq<char>, listing: Seq<Seq<char>>) -> bool {
    &&& !b.at_drives_root
    &&& b.current@ == start
    &&& strs(b.entries@) == sort_lower_spec(listing)
    &&& b.cursor == 0
    &&& b.reselect is None
}

/// `b` shows the list of `drives`, the first highlighted.
pub open spec fn browser_on_drives(b: FileBrowserState, drives: Seq<Seq<char>>) -> bool {
    &&& b.at_drives_root
    &&& b.current@ == Seq::<char>::empty()
    &&& strs(b.entries@) == drives
    &&& b.cursor == 0
    &&& b.reselect is None
}

/// The state of the new-profile wizard.
pub struct NewProfileState {
    pub step: WizardStep,
    /// The profile name as typed.
    pub name: String,
    pub source_browser: FileBrowserState,
    /// Index into the identified DAPs; one past the last is "browse".
    pub dest_choice: usize,
    /// The browser used when the destination is browsed for.
    pub dest_browser: Option<FileBrowserState>,
    pub mode_choice: usize,
    pub error: Option<String>,
    /// Name of the profile this one is cloned from.
    pub cloned_from: Option<String>,
}

/// Where the destination browser of a new profile starts: the first
/// identified DAP's mount, else the first other removable mount.
pub open spec fn dest_start_spec(scan: ScanResult) -> Option<Seq<char>> {
    if scan.identified@.len() > 0 {
        Some(scan.identified@[0].mount.mount_point@)
    } else if scan.unidentified@.len() > 0 {
        Some(scan.unidentified@[0].mount_point@)
    } else {
        None
    }
}

/// The directory the destination browser of a new profile starts in; the
/// caller lists it for `NewProfileState::new`.
pub fn wizard_dest_start(scan: &ScanResult) -> (r: Option<String>)
    ensures
        match dest_start_spec(*scan) {
            Some(d) => r matches Some(x) && x@ == d,
            None => r is None,
        },
{
    if scan.identified.len() > 0 {
        Some(scan.identified[0].mount.mount_point.clone())
    } else if scan.unidentified.len() > 0 {
        Some(scan.unidentified[0].mount_point.clone())
    } else {
        None
    }
}

/// The ids of the identified DAPs.
pub open spec fn dap_ids(ids: Seq<IdentifiedDap>) -> Seq<Seq<char>> {
    ids.map_values(|d: IdentifiedDap| d.dap_id@)
}

/// `dest` with an `auto:` prefix, the DAP id after it.
pub open spec fn auto_dap(dest: Seq<char>) -> Option<Seq<char>> {
    if has_prefix(dest, "auto:"@) {
        Some(dest.skip(5))
    } else {
        None
    }
}

/// The directory the destination browser of a clone of `profile` starts
/// in: for an `auto:` destination, the first identified DAP's mount; else
/// the destination itself.
pub open spec fn clone_dest_start_spec(profile: SyncProfile, scan: ScanResult) -> Option<Seq<char>> {
    match auto_dap(profile.profile.destination@) {
        Some(_) => if scan.identified@.len() > 0 {
            Some(scan.identified@[0].mount.mount_point@)
        } else {
            None
        },
        None => Some(profile.profile.destination@),
    }
}

/// Splits off the DAP id of an `auto:` destination.
fn auto_dap_of(dest: &str) -> (r: Option<String>)
    ensures
        match auto_dap(dest@) {
            Some(d) => r matches Some(x) && x@ == d,
            None => r is None,
        },
{
    proof {
        reveal_strlit("auto:");
    }
    if starts_with(dest, "auto:") {
        let cs = chars_of(dest);
        let r = string_of_range(&cs, 5, cs.len());
        assert(r@ =~= dest@.skip(5));
        Some(r)
    } else {
        None
    }
}

/// The directory the destination browser of a clone of `profile` starts
/// in; the caller lists it for `NewProfileState::from_clone`.
pub fn clone_dest_start(profile: &SyncProfile, scan: &ScanResult) -> (r: Option<String>)
    ensures
        match clone_dest_start_spec(*profile, *scan) {
            Some(d) => r matches Some(x) && x@ == d,
            None => r is None,
        },
{
    match auto_dap_of(profile.profile.destination.as_str()) {
        Some(_) => if scan.identified.len() > 0 {
            Some(scan.identified[0].mount.mount_point.clone())
        } else {
            None
        },
        None => Some(profile.profile.destination.clone()),
    }
}

/// Index of the identified DAP with id `dap` (the first), if any.
fn dap_index(ids: &Vec<IdentifiedDap>, dap: &str) -> (r: Option<usize>)
    ensures
        match r {
            Some(i) => index_from(dap_ids(ids@), dap@, 0) == i,
            None => index_from(dap_ids(ids@), dap@, 0) == -1,
        },
{
    let ghost s = dap_ids(ids@);
    let mut i: usize = 0;
    while i < ids.len()
        invariant
            0 <= i <= ids@.len(),
            s == dap_ids(ids@),
            index_from(s, dap@, 0) == index_from(s, dap@, i as int),
        decreases ids@.len() - i,
    {
        assert(s[i as int] == ids@[i as int].dap_id@);
        if str_eq(ids[i].dap_id.as_str(), dap) {
            return Some(i);
        }
        i += 1;
    }
    None
}

/// Copies of `v`, in order.
pub fn duplicate_strings(v: &Vec<String>) -> (r: Vec<String>)
    ensures
        r@ == v@,
{
    let mut out: Vec<String> = Vec::new();
    let mut i: usize = 0;
    while i < v.len()
        invariant
            0 <= i <= v@.len(),
            out@ == v@.take(i as int),
        decreases v@.len() - i,
    {
        out.push(v[i].clone());
        assert(out@ =~= v@.take(i as int + 1));
        i += 1;
    }
    assert(v@.take(i as int) =~= v@);
    out
}

/// The destination of the wizard: `auto:<id>` for an identified DAP, the
/// browsed directory for "browse", empty when there is none.
pub open spec fn wizard_destination(w: NewProfileState, scan: ScanResult) -> Seq<char> {
    if w.dest_choice == scan.identified@.len() {
        match w.dest_browser {
            Some(b) => b.current@,
            None => Seq::empty(),
        }
    } else if w.dest_choice < scan.identified@.len() {
        "auto:"@ + scan.identified@[w.dest_choice as int].dap_id@
    } else {
        Seq::empty()
    }
}

/// The mode name of the wizard's mode choice.
pub open spec fn wizard_mode(choice: usize) -> Seq<char> {
    if choice == 0 {
        "additive"@
    } else {
        "mirror"@
    }
}

impl NewProfileState {
    /// A fresh wizard: the source browser on `drives`, the destination
    /// browser at `wizard_dest_start(scan)` (listed as `dest_listing`) or
    /// else on `drives`.
    pub fn new(scan: &ScanResult, drives: Vec<String>, dest_listing: Vec<String>) -> (r: Self)
        ensures
            r.step == WizardStep::Name,
            r.name@ == Seq::<char>::empty(),
            browser_on_drives(r.source_browser, strs(drives@)),
            r.dest_browser matches Some(b) && match dest_start_spec(*scan) {
                Some(d) => browser_at(b, d, strs(dest_listing@)),
                None => browser_on_drives(b, strs(drives@)),
            },
            r.dest_choice == 0,
            r.mode_choice == 0,
            r.error is None,
            r.cloned_from is None,
    {
        let dest_browser = match wizard_dest_start(scan) {
            Some(d) => FileBrowserState::new(d, dest_listing),
            None => FileBrowserState::drives_root(duplicate_strings(&drives)),
        };
        let source_browser = FileBrowserState::drives_root(drives);
        NewProfileState {
            step: WizardStep::Name,
            name: String::new(),
            source_browser,
            dest_choice: 0,
            dest_browser: Some(dest_browser),
            mode_choice: 0,
            error: None,
            cloned_from: None,
        }
    }

    /// A wizard filled in from `profile`, for cloning it: the name gets a
    /// `-copy` suffix; the source browser starts at the profile's source
    /// when it exists (listed as `source_listing`), else on `drives`; an
    /// `auto:` destination selects its DAP when identified (else "browse"),
    /// with the browser at the first identified DAP's mount; another
    /// destination selects "browse", at that directory when it exists
    /// (listed as `dest_listing`). A mirror profile selects mirror mode.
    pub fn from_clone(
        profile: &SyncProfile,
        scan: &ScanResult,
        drives: Vec<String>,
        source_exists: bool,
        source_listing: Vec<String>,
        dest_exists: bool,
        dest_listing: Vec<String>,
    ) -> (r: Self)
        ensures
            r.step == WizardStep::Name,
            r.name@ == profile.profile.name@ + "-copy"@,
            r.cloned_from matches Some(c) && c@ == profile.profile.name@,
            source_exists ==> browser_at(r.source_browser, profile.profile.source@, strs(source_listing@)),
            !source_exists ==> browser_on_drives(r.source_browser, strs(drives@)),
            r.dest_browser matches Some(b) && match auto_dap(profile.profile.destination@) {
                Some(dap) => {
                    &&& r.dest_choice == if index_from(dap_ids(scan.identified@), dap, 0) >= 0 {
                        index_from(dap_ids(scan.identified@), dap, 0)
                    } else {
                        scan.identified@.len() as int
                    }
                    &&& if scan.identified@.len() > 0 {
                        browser_at(b, scan.identified@[0].mount.mount_point@, strs(dest_listing@))
                    } else {
                        browser_on_drives(b, strs(drives@))
                    }
                },
                None => {
                    &&& r.dest_choice == scan.identified@.len()
                    &&& if dest_exists {
                        browser_at(b, profile.profile.destination@, strs(dest_listing@))
                    } else {
                        browser_on_drives(b, strs(drives@))
                    }
                },
            },
            r.mode_choice == if profile.profile.mode == Mode::Mirror {
                1usize
            } else {
                0usize
            },
            r.error is None,
    {
        let original_name = profile.profile.name.clone();
        let source_browser = if source_exists {
            FileBrowserState::new(profile.profile.source.clone(), source_listing)
        } else {
            FileBrowserState::drives_root(duplicate_strings(&drives))
        };
        let manual_idx = scan.identified.len();
        let (dest_choice, dest_browser) = match auto_dap_of(profile.profile.destination.as_str()) {
            Some(dap) => {
                let idx = match dap_index(&scan.identified, dap.as_str()) {
                    Some(i) => i,
                    None => manual_idx,
                };
                proof {
                    lemma_index_from_bounds(dap_ids(scan.identified@), dap@, 0);
                }
                let browser = if scan.identified.len() > 0 {
                    FileBrowserState::new(scan.identified[0].mount.mount_point.clone(), dest_listing)
                } else {
                    FileBrowserState::drives_root(drives)
                };
                (idx, browser)
            },
            None => {
                let browser = if dest_exists {
                    FileBrowserState::new(profile.profile.destination.clone(), dest_listing)
                } else {
                    FileBrowserState::drives_root(drives)
                };
                (manual_idx, browser)
            },
        };
        let mode_choice: usize = match profile.profile.mode {
            Mode::Mirror => 1,
            _ => 0,
        };
        let mut name = original_name.clone();
        push_str(&mut name, "-copy");
        proof {
            reveal_strlit("-copy");
        }
        NewProfileState {
            step: WizardStep::Name,
            name,
            source_browser,
            dest_choice,
            dest_browser: Some(dest_browser),
            mode_choice,
            error: None,
            cloned_from: Some(original_name),
        }
    }

    /// The chosen source directory.
    pub fn source(&self) -> (r: String)
        ensures
            r@ == self.source_browser.current@,
    {
        self.source_browser.current.clone()
    }

    /// The chosen destination (see `wizard_destination`).
    pub fn destination(&self, scan: &ScanResult) -> (r: String)
        ensures
            r@ == wizard_destination(*self, *scan),
    {
        let manual_idx = scan.identified.len();
        if self.dest_choice == manual_idx {
            match &self.dest_browser {
                Some(b) => b.current.clone(),
                None => String::new(),
            }
        } else if self.dest_choice < manual_idx {
            let mut r = "auto:".to_owned();
            push_str(&mut r, scan.identified[self.dest_choice].dap_id.as_str());
            proof {
                reveal_strlit("auto:");
            }
            r
        } else {
            String::new()
        }
    }

    /// The DAP profile of new profiles.
    pub fn selected_dap(&self) -> (r: &'static str)
        ensures
            r@ == "generic"@,
    {
        "generic"
    }

    /// The sync mode of the current mode choice.
    pub fn selected_mode(&self) -> (r: &'static str)
        ensures
            r@ == wizard_mode(self.mode_choice),
    {
        if self.mode_choice == 0 {
            "additive"
        } else {
            "mirror"
        }
    }
}


// ── Application state ───────────────────────────────────────────────────────

/// State of the diff computation.
pub enum DiffState {
    Idle,
    Loading,
    Ready {
        result: DiffResult,
        source: String,
        destination: String,
        profile_name: String,
        dap_id: String,
        mode: Mode,
    },
    Error(String),
}

/// How many redraws a flash message stays.
pub const FLASH_TICKS: u8 = 12;

/// Entries of the home menu: sync & profiles, player, log.
pub const HOME_ENTRIES: usize = 3;

/// The interface's state (what the terminal shows and remembers between
/// keys; channels and the player live with the application).
pub struct App {
    pub view: View,
    pub profiles: Vec<(String, SyncProfile)>,
    pub scan: ScanResult,
    pub profile_idx: usize,
    pub should_quit: bool,
    pub flash: Option<String>,
    pub flash_ticks: u8,
    pub confirm_sync: bool,
    /// A first `D` asked to delete the selected profile.
    pub delete_confirm: bool,
    pub home_cursor: usize,
    pub diff_state: DiffState,
    pub diff_entry_idx: usize,
    pub diff_entry_filter: EntryFilter,
    /// Album folders chosen in a selective profile, ascending.
    pub selective_paths: Vec<String>,
    /// The next ready diff selects every album folder.
    pub selective_init_pending: bool,
    pub progress_state: Option<ProgressState>,
    pub wizard: Option<NewProfileState>,
    pub log_lines: Vec<LogEntry>,
    pub log_scroll: usize,
    pub log_run_id: String,
}

/// `n` is `o` with the flash message `msg` shown.
pub open spec fn flashed(o: App, n: App, msg: Seq<char>) -> bool {
    &&& n == (App { flash: n.flash, flash_ticks: FLASH_TICKS, ..o })
    &&& n.flash matches Some(f) && f@ == msg
}

impl App {
    /// The interface over `profiles` (file stem, profile) and `scan`, on
    /// the profiles view.
    pub fn new(profiles: Vec<(String, SyncProfile)>, scan: ScanResult) -> (r: Self)
        ensures
            r.view == View::Profiles,
            r.profiles@ == profiles@,
            r.scan == scan,
            r.profile_idx == 0 && r.home_cursor == 0,
            !r.should_quit && !r.confirm_sync && !r.delete_confirm,
            r.flash is None && r.flash_ticks == 0,
            r.diff_state is Idle && r.diff_entry_idx == 0 && r.diff_entry_filter == EntryFilter::All,
            r.selective_paths@.len() == 0 && !r.selective_init_pending,
            r.wf(),
            r.progress_state is None && r.wizard is None,
            r.log_lines@.len() == 0 && r.log_scroll == 0 && r.log_run_id@.len() == 0,
    {
        App {
            view: View::Profiles,
            profiles,
            scan,
            profile_idx: 0,
            should_quit: false,
            flash: None,
            flash_ticks: 0,
            confirm_sync: false,
            delete_confirm: false,
            home_cursor: 0,
            diff_state: DiffState::Idle,
            diff_entry_idx: 0,
            diff_entry_filter: EntryFilter::All,
            selective_paths: Vec::new(),
            selective_init_pending: false,
            progress_state: None,
            wizard: None,
            log_lines: Vec::new(),
            log_scroll: 0,
            log_run_id: String::new(),
        }
    }

    /// The highlighted profile.
    pub fn selected_profile(&self) -> (r: Option<&SyncProfile>)
        ensures
            self.profile_idx < self.profiles@.len() ==> r == Some(&self.profiles@[self.profile_idx as int].1),
            self.profile_idx >= self.profiles@.len() ==> r is None,
    {
        if self.profile_idx < self.profiles.len() {
            Some(&self.profiles[self.profile_idx].1)
        } else {
            None
        }
    }

    pub fn move_up(&mut self)
        ensures
            *final(self) == (App {
                profile_idx: if old(self).profile_idx > 0 {
                    (old(self).profile_idx - 1) as usize
                } else {
                    0
                },
                ..*old(self)
            }),
    {
        if self.profile_idx > 0 {
            self.profile_idx -= 1;
        }
    }

    pub fn move_down(&mut self)
        ensures
            *final(self) == (App {
                profile_idx: if old(self).profile_idx + 1 < old(self).profiles@.len() {
                    (old(self).profile_idx + 1) as usize
                } else {
                    old(self).profile_idx
                },
                ..*old(self)
            }),
    {
        if self.profiles.len() > 0 && self.profile_idx < self.profiles.len() - 1 {
            self.profile_idx += 1;
        }
    }

    pub fn home_move_up(&mut self)
        ensures
            *final(self) == (App {
                home_cursor: if old(self).home_cursor > 0 {
                    (old(self).home_cursor - 1) as usize
                } else {
                    0
                },
                ..*old(self)
            }),
    {
        if self.home_cursor > 0 {
            self.home_cursor -= 1;
        }
    }

    pub fn home_move_down(&mut self)
        ensures
            *final(self) == (App {
                home_cursor: if old(self).home_cursor + 1 < HOME_ENTRIES {
                    (old(self).home_cursor + 1) as usize
                } else {
                    old(self).home_cursor
                },
                ..*old(self)
            }),
    {
        if self.home_cursor < HOME_ENTRIES - 1 {
            self.home_cursor += 1;
        }
    }

    /// Starts a diff of the highlighted profile: the diff view, loading,
    /// with the filter and cursor reset.
    pub fn enter_diff(&mut self)
        ensures
            *final(self) == (App {
                diff_state: final(self).diff_state,
                diff_entry_idx: 0,
                diff_entry_filter: EntryFilter::All,
                view: View::Diff,
                ..*old(self)
            }),
            final(self).diff_state is Loading,
    {
        self.diff_state = DiffState::Loading;
        self.diff_entry_idx = 0;
        self.diff_entry_filter = EntryFilter::All;
        self.view = View::Diff;
    }

    pub fn move_diff_up(&mut self)
        ensures
            *final(self) == (App {
                diff_entry_idx: if old(self).diff_entry_idx > 0 {
                    (old(self).diff_entry_idx - 1) as usize
                } else {
                    0
                },
                ..*old(self)
            }),
    {
        self.diff_entry_idx = self.diff_entry_idx.saturating_sub(1);
    }

    pub fn move_diff_down(&mut self)
        ensures
            *final(self) == (App {
                diff_entry_idx: if old(self).diff_entry_idx < usize::MAX {
                    (old(self).diff_entry_idx + 1) as usize
                } else {
                    usize::MAX
                },
                ..*old(self)
            }),
    {
        self.diff_entry_idx = self.diff_entry_idx.saturating_add(1);
    }

    /// Shows the next entry filter, from the first entry.
    pub fn cycle_diff_filter(&mut self)
        ensures
            *final(self) == (App {
                diff_entry_filter: final(self).diff_entry_filter,
                diff_entry_idx: 0,
                ..*old(self)
            }),
            filter_pos(final(self).diff_entry_filter) == (filter_pos(old(self).diff_entry_filter) + 1) % 5,
    {
        self.diff_entry_filter = self.diff_entry_filter.next();
        self.diff_entry_idx = 0;
    }

    /// Shows `msg` for the next `FLASH_TICKS` redraws.
    pub fn set_flash(&mut self, msg: String)
        ensures
            flashed(*old(self), *final(self), msg@),
    {
        self.flash = Some(msg);
        self.flash_ticks = FLASH_TICKS;
    }

    /// Counts one redraw of the flash message, dropping it after the last.
    pub fn tick_flash(&mut self)
        ensures
            old(self).flash is None ==> *final(self) == *old(self),
            old(self).flash is Some ==> {
                let t = if old(self).flash_ticks > 0 {
                    (old(self).flash_ticks - 1) as u8
                } else {
                    0u8
                };
                &&& final(self).flash_ticks == t
                &&& final(self).flash == if t == 0 {
                    None
                } else {
                    old(self).flash
                }
                &&& *final(self) == (App { flash: final(self).flash, flash_ticks: t, ..*old(self) })
            },
    {
        if self.flash.is_some() {
            self.flash_ticks = self.flash_ticks.saturating_sub(1);
            if self.flash_ticks == 0 {
                self.flash = None;
            }
        }
    }

    /// Opens the wizard for a new profile (see `NewProfileState::new`).
    pub fn enter_new_profile(&mut self, drives: Vec<String>, dest_listing: Vec<String>)
        ensures
            *final(self) == (App { wizard: final(self).wizard, view: View::NewProfile, ..*old(self) }),
            final(self).wizard matches Some(w) && w.step == WizardStep::Name && w.cloned_from is None
                && w.dest_browser is Some,
    {
        let w = NewProfileState::new(&self.scan, drives, dest_listing);
        self.wizard = Some(w);
        self.view = View::NewProfile;
    }

    /// Opens the wizard on a clone of the highlighted profile (see
    /// `NewProfileState::from_clone`); nothing happens without one.
    pub fn enter_clone_profile(
        &mut self,
        drives: Vec<String>,
        source_exists: bool,
        source_listing: Vec<String>,
        dest_exists: bool,
        dest_listing: Vec<String>,
    )
        ensures
            old(self).profile_idx >= old(self).profiles@.len() ==> *final(self) == *old(self),
            old(self).profile_idx < old(self).profiles@.len() ==> {
                &&& *final(self) == (App { wizard: final(self).wizard, view: View::NewProfile, ..*old(self) })
                &&& final(self).wizard matches Some(w) && w.cloned_from matches Some(c) && c@
                    == old(self).profiles@[old(self).profile_idx as int].1.profile.name@ && w.dest_browser is Some
            },
    {
        if self.profile_idx < self.profiles.len() {
            let w = NewProfileState::from_clone(
                &self.profiles[self.profile_idx].1,
                &self.scan,
                drives,
                source_exists,
                source_listing,
                dest_exists,
                dest_listing,
            );
            self.wizard = Some(w);
            self.view = View::NewProfile;
        }
    }
}


// ── Diff view ────────────────────────────────────────────────────────────────

/// The diff entries shown under filter `f`, in plan order.
pub open spec fn shown(rows: Seq<Row>, f: EntryFilter) -> Seq<Row>
    decreases rows.len(),
{
    if rows.len() == 0 {
        Seq::empty()
    } else {
        let t = shown(rows.drop_last(), f);
        if filter_matches(f, rows.last().0) {
            t.push(rows.last())
        } else {
            t
        }
    }
}

/// The entries shown for a prefix of the plan start the entries shown for
/// the whole of it.
proof fn lemma_shown_prefix(rows: Seq<Row>, f: EntryFilter, m: int, n: int)
    requires
        0 <= m <= n <= rows.len(),
    ensures
        shown(rows.take(m), f).len() <= shown(rows.take(n), f).len(),
        forall|j: int|
            0 <= j < shown(rows.take(m), f).len() ==> #[trigger] shown(rows.take(n), f)[j] == shown(
                rows.take(m),
                f,
            )[j],
    decreases n - m,
{
    if n > m {
        lemma_shown_prefix(rows, f, m, n - 1);
        assert(rows.take(n).drop_last() =~= rows.take(n - 1));
    }
}

/// The album folder of a plan path: its parent, or empty at the top level.
pub open spec fn album_of(path: Seq<char>) -> Seq<char> {
    match path_parent(path) {
        Some(p) => p,
        None => Seq::empty(),
    }
}

/// Index in `plan` of the `idx`-th entry shown under `f`.
pub fn shown_index(plan: &Plan, f: EntryFilter, idx: usize) -> (r: Option<usize>)
    ensures
        match r {
            Some(k) => k < plan@.len() && idx < shown(plan@, f).len() && shown(plan@, f)[idx as int] == plan@[k as int],
            None => idx >= shown(plan@, f).len(),
        },
{
    let ghost rows = plan@;
    let mut c: usize = 0;
    let mut i: usize = 0;
    assert(rows.take(0) =~= Seq::<Row>::empty());
    while i < plan.entries.len()
        invariant
            0 <= i <= rows.len(),
            rows == plan@,
            rows.len() == plan.entries@.len(),
            c == shown(rows.take(i as int), f).len(),
            c <= idx,
        decreases rows.len() - i,
    {
        assert(rows.take(i as int + 1).drop_last() =~= rows.take(i as int));
        assert(rows[i as int] == plan.entries@[i as int]@);
        if f.matches(plan.entries[i].kind) {
            if c == idx {
                proof {
                    lemma_shown_prefix(rows, f, i as int + 1, rows.len() as int);
                    assert(rows.take(rows.len() as int) =~= rows);
                }
                return Some(i);
            }
            c += 1;
        }
        i += 1;
    }
    assert(rows.take(i as int) =~= rows);
    None
}

/// The album folders of the entries of `rows` (top-level files have none).
pub open spec fn albums_in(rows: Seq<Row>) -> Set<Seq<char>> {
    Set::new(|p: Seq<char>| p.len() > 0 && exists|k: int| 0 <= k < rows.len() && album_of(#[trigger] rows[k].1) == p)
}

/// The album folders of the entries of `plan`, ascending.
pub fn plan_albums(plan: &Plan) -> (r: Vec<String>)
    ensures
        strictly_sorted(strs(r@)),
        strs(r@).to_set() == albums_in(plan@),
{
    let ghost rows = plan@;
    let mut out: Vec<String> = Vec::new();
    let mut i: usize = 0;
    assert(strs(out@).to_set() =~= albums_in(rows.take(0)));
    while i < plan.entries.len()
        invariant
            0 <= i <= rows.len(),
            rows == plan@,
            rows.len() == plan.entries@.len(),
            strictly_sorted(strs(out@)),
            strs(out@).to_set() == albums_in(rows.take(i as int)),
        decreases rows.len() - i,
    {
        assert(rows[i as int] == plan.entries@[i as int]@);
        let ghost before = strs(out@).to_set();
        let par = match parent(plan.entries[i].path.as_str()) {
            Some(p) => p,
            None => String::new(),
        };
        assert(par@ == album_of(rows[i as int].1));
        if !par.as_str().is_empty() {
            insert_sorted_unique(&mut out, par);
        }
        assert(strs(out@).to_set() =~= albums_in(rows.take(i as int + 1))) by {
            let t0 = rows.take(i as int);
            let t1 = rows.take(i as int + 1);
            assert forall|p: Seq<char>| albums_in(t1).contains(p) implies strs(out@).to_set().contains(p) by {
                let k = choose|k: int| 0 <= k < t1.len() && album_of(#[trigger] t1[k].1) == p;
                if k < i {
                    assert(t0[k] == t1[k]);
                    assert(albums_in(t0).contains(p));
                }
            }
            assert forall|p: Seq<char>| strs(out@).to_set().contains(p) implies albums_in(t1).contains(p) by {
                if before.contains(p) {
                    let k = choose|k: int| 0 <= k < t0.len() && album_of(#[trigger] t0[k].1) == p;
                    assert(t1[k] == t0[k]);
                } else {
                    assert(t1[i as int] == rows[i as int]);
                }
            }
        }
        i += 1;
    }
    assert(rows.take(i as int) =~= rows);
    out
}

impl App {
    /// The selected album folders stay ascending, and an open wizard has
    /// its destination browser.
    pub open spec fn wf(&self) -> bool {
        &&& strictly_sorted(strs(self.selective_paths@))
        &&& self.wizard matches Some(w) ==> w.dest_browser is Some
    }

    /// A diff came back: it is ready to show; a pending first selection
    /// takes every album folder of the plan.
    pub fn diff_ready(
        &mut self,
        result: DiffResult,
        source: String,
        destination: String,
        profile_name: String,
        dap_id: String,
        mode: Mode,
    )
        requires
            old(self).wf(),
        ensures
            final(self).wf(),
            final(self).diff_state matches DiffState::Ready { result: res, source: s, destination: d, profile_name: p, dap_id: id, mode: m }
                && res == result && s == source && d == destination && p == profile_name && id == dap_id && m == mode,
            old(self).selective_init_pending ==> strs(final(self).selective_paths@).to_set() == albums_in(result.plan@),
            !old(self).selective_init_pending ==> final(self).selective_paths == old(self).selective_paths,
            *final(self) == (App {
                diff_state: final(self).diff_state,
                selective_paths: final(self).selective_paths,
                selective_init_pending: false,
                ..*old(self)
            }),
    {
        if self.selective_init_pending {
            self.selective_paths = plan_albums(&result.plan);
            self.selective_init_pending = false;
        }
        self.diff_state = DiffState::Ready { result, source, destination, profile_name, dap_id, mode };
    }

    /// The diff failed with `msg`.
    pub fn diff_failed(&mut self, msg: String)
        ensures
            final(self).diff_state matches DiffState::Error(e) && e == msg,
            *final(self) == (App { diff_state: final(self).diff_state, ..*old(self) }),
    {
        self.diff_state = DiffState::Error(msg);
    }
}


// ── Starting a sync ──────────────────────────────────────────────────────────

/// The entries of `rows` whose album folder is in `sel`.
pub open spec fn kept(rows: Seq<Row>, sel: Set<Seq<char>>) -> Seq<Row>
    decreases rows.len(),
{
    if rows.len() == 0 {
        Seq::empty()
    } else {
        let t = kept(rows.drop_last(), sel);
        if sel.contains(album_of(rows.last().1)) {
            t.push(rows.last())
        } else {
            t
        }
    }
}

/// A sync to run for the ready diff.
pub struct SyncJob {
    pub plan: Plan,
    pub source: String,
    pub destination: String,
    pub profile_name: String,
    pub mode: SyncMode,
    pub verify: Verify,
    /// Bytes to write (saturating at `u64::MAX`).
    pub total_bytes: u64,
    /// For a selective profile: its file stem and the album folders to
    /// save as its selection, ascending.
    pub selection: Option<(String, Vec<String>)>,
}

/// The entries of `plan` whose album folder is one of `sel` (ascending).
fn keep_selected(plan: &Plan, sel: &Vec<String>) -> (r: Vec<Entry>)
    requires
        strictly_sorted(strs(sel@)),
    ensures
        r@.map_values(|e: Entry| e@) == kept(plan@, strs(sel@).to_set()),
{
    let ghost rows = plan@;
    let ghost set = strs(sel@).to_set();
    let mut out: Vec<Entry> = Vec::new();
    let mut i: usize = 0;
    assert(rows.take(0) =~= Seq::<Row>::empty());
    assert(out@.map_values(|e: Entry| e@) =~= Seq::<Row>::empty());
    while i < plan.entries.len()
        invariant
            0 <= i <= rows.len(),
            rows == plan@,
            rows.len() == plan.entries@.len(),
            set == strs(sel@).to_set(),
            strictly_sorted(strs(sel@)),
            out@.map_values(|e: Entry| e@) == kept(rows.take(i as int), set),
        decreases rows.len() - i,
    {
        assert(rows.take(i as int + 1).drop_last() =~= rows.take(i as int));
        assert(rows[i as int] == plan.entries@[i as int]@);
        let album = match parent(plan.entries[i].path.as_str()) {
            Some(p) => p,
            None => String::new(),
        };
        let (p, found) = sorted_position(sel, album.as_str());
        proof {
            if found {
                assert(strs(sel@)[p as int] == album@);
            }
        }
        if found {
            let ghost o = out@.map_values(|e: Entry| e@);
            out.push(plan.entries[i].clone_entry());
            assert(out@.map_values(|e: Entry| e@) =~= o.push(rows[i as int]));
        }
        i += 1;
    }
    assert(rows.take(i as int) =~= rows);
    out
}

impl App {
    /// The sync of the ready diff with the highlighted profile, if both
    /// exist. A selective profile syncs only the entries of the selected
    /// album folders and saves its selection.
    pub fn sync_job(&self) -> (r: Option<SyncJob>)
        requires
            self.wf(),
        ensures
            match self.diff_state {
                DiffState::Ready { result, source, destination, profile_name, mode, .. } => if self.profile_idx
                    < self.profiles@.len() {
                    r matches Some(job) && {
                        let rows = if mode == Mode::Selective {
                            kept(result.plan@, strs(self.selective_paths@).to_set())
                        } else {
                            result.plan@
                        };
                        &&& job.plan@ == rows
                        &&& job.plan.warnings@ == result.plan.warnings@
                        &&& job.source == source
                        &&& job.destination == destination
                        &&& job.profile_name == profile_name
                        &&& job.mode == (if mode == Mode::Mirror {
                            SyncMode::Mirror
                        } else {
                            SyncMode::Additive
                        })
                        &&& job.verify == self.profiles@[self.profile_idx as int].1.transfer.verify
                        &&& job.total_bytes == (if transfer_spec(rows) <= u64::MAX {
                            transfer_spec(rows) as u64
                        } else {
                            u64::MAX
                        })
                        &&& mode == Mode::Selective ==> (job.selection matches Some(sel) && sel.0
                            == self.profiles@[self.profile_idx as int].0 && sel.1@ == self.selective_paths@)
                        &&& mode != Mode::Selective ==> job.selection is None
                    }
                } else {
                    r is None
                },
                _ => r is None,
            },
    {
        match &self.diff_state {
            DiffState::Ready { result, source, destination, profile_name, mode, .. } => {
                if self.profile_idx >= self.profiles.len() {
                    return None;
                }
                let selective = *mode == Mode::Selective;
                let entries = if selective {
                    keep_selected(&result.plan, &self.selective_paths)
                } else {
                    let mut v: Vec<Entry> = Vec::new();
                    let mut i: usize = 0;
                    while i < result.plan.entries.len()
                        invariant
                            0 <= i <= result.plan.entries@.len(),
                            v@.map_values(|e: Entry| e@) == result.plan@.take(i as int),
                        decreases result.plan.entries@.len() - i,
                    {
                        assert(result.plan@[i as int] == result.plan.entries@[i as int]@);
                        let ghost o = v@.map_values(|e: Entry| e@);
                        v.push(result.plan.entries[i].clone_entry());
                        assert(v@.map_values(|e: Entry| e@) =~= o.push(result.plan@[i as int]));
                        assert(o.push(result.plan@[i as int]) =~= result.plan@.take(i as int + 1));
                        i += 1;
                    }
                    assert(result.plan@.take(i as int) =~= result.plan@);
                    v
                };
                let plan = Plan { entries, warnings: duplicate_warnings(&result.plan.warnings) };
                let total_bytes = match plan.transfer_bytes_checked() {
                    Some(n) => n,
                    None => u64::MAX,
                };
                let profile = &self.profiles[self.profile_idx];
                let selection = if selective {
                    Some((profile.0.clone(), duplicate_strings(&self.selective_paths)))
                } else {
                    None
                };
                Some(SyncJob {
                    plan,
                    source: source.clone(),
                    destination: destination.clone(),
                    profile_name: profile_name.clone(),
                    mode: sync_mode(*mode),
                    verify: profile.1.transfer.verify,
                    total_bytes,
                    selection,
                })
            },
            _ => None,
        }
    }

    /// A sync of `total_bytes` for `profile_name` started: the progress
    /// view follows it.
    pub fn sync_started(&mut self, profile_name: String, total_bytes: u64)
        ensures
            *final(self) == (App { progress_state: final(self).progress_state, view: View::Progress, ..*old(self) }),
            final(self).progress_state matches Some(p) && p.profile_name == profile_name && p.total_bytes
                == total_bytes && p.done_bytes == 0 && !p.finished,
    {
        self.progress_state = Some(ProgressState::new(profile_name, total_bytes));
        self.view = View::Progress;
    }

    /// Reports the deletion of profile `name`: `err` is why it failed.
    pub fn profile_deleted(&mut self, name: &str, err: Option<String>)
        ensures
            match err {
                None => flashed(*old(self), *final(self), "deleted '"@ + name@ + "'"@),
                Some(e) => flashed(*old(self), *final(self), "delete failed: "@ + e@),
            },
    {
        match err {
            None => {
                let mut m = "deleted '".to_owned();
                push_str(&mut m, name);
                push_str(&mut m, "'");
                self.set_flash(m);
            },
            Some(e) => {
                let mut m = "delete failed: ".to_owned();
                push_str(&mut m, e.as_str());
                self.set_flash(m);
            },
        }
    }
}

} // verus!
