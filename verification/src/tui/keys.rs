//! What the keys do: the new-profile wizard and the main views, as state
//! changes plus the outside work each key asks for.

use vstd::prelude::*;

use crate::config::Mode;
use crate::diff::plan::{count_kind, EntryKind, Row};
use crate::order::{insert_sorted_unique, remove_sorted, strictly_sorted, strs};
use crate::paths::{ext_ok, join, parent, path_join, path_with_extension, with_extension};
use crate::text::{dec, fmt_u64, push_str, trim, trim_str};
use crate::tui::app::{
    album_of, filter_pos, EntryFilter, browser_down, browser_enter, browser_go_up, browser_up, flashed, shown, shown_index, step_prev, App,
    BrowseStep, DiffState, NewProfileState, View as Screen, WizardStep, HOME_ENTRIES,
};
use crate::tui::views::new_profile::{sanitize_name, sanitize_spec};

verus! {

/// A key, as the terminal reports it.
#[derive(Debug, Clone, Copy, PartialEq, Eq, Structural)]
pub enum KeyCode {
    Char(char),
    Enter,
    Esc,
    Up,
    Down,
    Left,
    Right,
    Tab,
    Other,
}

/// A key press: the key and whether Control was held.
#[derive(Debug, Clone, Copy, PartialEq, Eq, Structural)]
pub struct Key {
    pub code: KeyCode,
    pub ctrl: bool,
}

pub open spec fn ctrl_c(k: Key) -> bool {
    k.code == KeyCode::Char('c') && k.ctrl
}

pub open spec fn key_down(k: Key) -> bool {
    k.code == KeyCode::Char('j') || k.code == KeyCode::Down
}

pub open spec fn key_up(k: Key) -> bool {
    k.code == KeyCode::Char('k') || k.code == KeyCode::Up
}

pub open spec fn key_left(k: Key) -> bool {
    k.code == KeyCode::Char('h') || k.code == KeyCode::Left
}

pub open spec fn key_open(k: Key) -> bool {
    k.code == KeyCode::Enter || k.code == KeyCode::Char('l') || k.code == KeyCode::Right
}

pub fn is_ctrl_c(k: Key) -> (r: bool)
    ensures
        r == ctrl_c(k),
{
    k.ctrl && k.code == KeyCode::Char('c')
}

pub fn is_down(k: Key) -> (r: bool)
    ensures
        r == key_down(k),
{
    k.code == KeyCode::Char('j') || k.code == KeyCode::Down
}

pub fn is_up(k: Key) -> (r: bool)
    ensures
        r == key_up(k),
{
    k.code == KeyCode::Char('k') || k.code == KeyCode::Up
}

fn is_left(k: Key) -> (r: bool)
    ensures
        r == key_left(k),
{
    k.code == KeyCode::Char('h') || k.code == KeyCode::Left
}

fn is_open(k: Key) -> (r: bool)
    ensures
        r == key_open(k),
{
    k.code == KeyCode::Enter || k.code == KeyCode::Char('l') || k.code == KeyCode::Right
}

// ── New-profile wizard ───────────────────────────────────────────────────────

/// The outside work a key in the wizard asks for.
#[derive(Debug, Clone)]
pub enum WizardAction {
    /// Nothing more.
    Done,
    /// Quit the application.
    Quit,
    /// Leave the wizard for the profiles view.
    Close,
    /// Hand the key to the name input.
    EditName,
    /// Check whether the profile file with this stem exists and report it
    /// to `name_checked`.
    CheckName(String),
    /// List the source browser's new location and hand it to its `refresh`.
    ListSource,
    /// List the destination browser's new location and hand it to its
    /// `refresh`.
    ListDestination,
    /// Write the profile of `draft_profile`, then reload the profiles.
    Write,
}

/// `n` is `o` with only the step and the error message changed.
pub open spec fn only_step_error(o: NewProfileState, n: NewProfileState) -> bool {
    n == NewProfileState { step: n.step, error: n.error, ..o }
}

/// What a browser key does: down and up move the cursor; left goes up a
/// level; Enter, `l` and right activate the row, and confirming the
/// directory clears the error and moves on to `next`.
pub open spec fn browser_key(
    key: Key,
    ob: crate::tui::app::FileBrowserState,
    nb: crate::tui::app::FileBrowserState,
    o: NewProfileState,
    n: NewProfileState,
    next: WizardStep,
    moved: WizardAction,
    r: WizardAction,
) -> bool {
    if key_down(key) {
        browser_down(ob, nb) && r is Done
    } else if key_up(key) {
        browser_up(ob, nb) && r is Done
    } else if key_left(key) {
        exists|s: BrowseStep| #[trigger] browser_go_up(ob, nb, s) && (s == BrowseStep::Moved ==> r == moved) && (s
            != BrowseStep::Moved ==> r is Done)
    } else if key_open(key) {
        exists|s: BrowseStep|
            #[trigger] browser_enter(ob, nb, s) && if s == BrowseStep::Confirmed {
                n.step == next && n.error is None && r is Done
            } else {
                n.step == o.step && n.error == o.error && (s == BrowseStep::Moved ==> r == moved) && (s
                    != BrowseStep::Moved ==> r is Done)
            }
    } else {
        nb == ob && r is Done
    }
}

/// What `key` does to the wizard `o`, giving `n` and the action `r`, with
/// `identified` DAPs listed (the last row of the destination list, at that
/// index, is "browse").
pub open spec fn wizard_key_spec(o: NewProfileState, n: NewProfileState, key: Key, identified: usize, r: WizardAction) -> bool {
    if ctrl_c(key) {
        r is Quit && n == o
    } else if key.code == KeyCode::Esc {
        if o.step == WizardStep::Destination && o.dest_choice == identified && o.dest_browser is Some {
            r is Done && n == NewProfileState { dest_choice: 0, ..o }
        } else {
            match step_prev(o.step) {
                Some(p) => r is Done && n == NewProfileState { step: p, ..o },
                None => r is Close && n == o,
            }
        }
    } else {
        match o.step {
            WizardStep::Name => if key.code == KeyCode::Enter {
                if trim(o.name@).len() == 0 {
                    &&& r is Done
                    &&& only_step_error(o, n)
                    &&& n.step == o.step
                    &&& n.error matches Some(e) && e@ == "name cannot be empty"@
                } else {
                    r matches WizardAction::CheckName(f) && f@ == sanitize_spec(trim(o.name@)) && n == o
                }
            } else {
                r is EditName && n == o
            },
            WizardStep::Source => {
                &&& n == NewProfileState {
                    source_browser: n.source_browser,
                    step: n.step,
                    error: n.error,
                    ..o
                }
                &&& browser_key(
                    key,
                    o.source_browser,
                    n.source_browser,
                    o,
                    n,
                    WizardStep::Destination,
                    WizardAction::ListSource,
                    r,
                )
                &&& !key_open(key) ==> n.step == o.step && n.error == o.error
            },
            WizardStep::Destination => if o.dest_choice == identified {
                &&& n == NewProfileState {
                    dest_browser: n.dest_browser,
                    step: n.step,
                    error: n.error,
                    ..o
                }
                &&& o.dest_browser matches Some(ob) && n.dest_browser matches Some(nb) && browser_key(
                    key,
                    ob,
                    nb,
                    o,
                    n,
                    WizardStep::Mode,
                    WizardAction::ListDestination,
                    r,
                )
                &&& !key_open(key) ==> n.step == o.step && n.error == o.error
            } else if key_down(key) {
                r is Done && n == NewProfileState {
                    dest_choice: if o.dest_choice < identified {
                        (o.dest_choice + 1) as usize
                    } else {
                        identified
                    },
                    ..o
                }
            } else if key_up(key) {
                r is Done && n == NewProfileState {
                    dest_choice: if o.dest_choice > 0 {
                        (o.dest_choice - 1) as usize
                    } else {
                        0
                    },
                    ..o
                }
            } else if key.code == KeyCode::Enter && o.dest_choice < identified {
                r is Done && only_step_error(o, n) && n.step == WizardStep::Mode && n.error is None
            } else {
                r is Done && n == o
            },
            WizardStep::Mode => if key_down(key) {
                r is Done && n == NewProfileState {
                    mode_choice: if o.mode_choice < 2 {
                        (o.mode_choice + 1) as usize
                    } else {
                        2
                    },
                    ..o
                }
            } else if key_up(key) {
                r is Done && n == NewProfileState {
                    mode_choice: if o.mode_choice > 0 {
                        (o.mode_choice - 1) as usize
                    } else {
                        0
                    },
                    ..o
                }
            } else if key.code == KeyCode::Enter {
                r is Done && n == NewProfileState { step: WizardStep::Confirm, ..o }
            } else {
                r is Done && n == o
            },
            WizardStep::Confirm => if key.code == KeyCode::Enter {
                r is Write && n == o
            } else if key.code == KeyCode::Char('q') {
                r is Close && n == o
            } else {
                r is Done && n == o
            },
        }
    }
}

/// Applies a key press to the wizard; `identified` is the number of
/// identified DAPs. The returned action is the outside work left to do.
pub fn handle_wizard_key(wiz: &mut NewProfileState, key: Key, identified: usize) -> (r: WizardAction)
    requires
        old(wiz).dest_browser is Some,
    ensures
        wizard_key_spec(*old(wiz), *final(wiz), key, identified, r),
        final(wiz).dest_browser is Some,
{
    if is_ctrl_c(key) {
        return WizardAction::Quit;
    }
    if key.code == KeyCode::Esc {
        if wiz.step == WizardStep::Destination && wiz.dest_choice == identified && wiz.dest_browser.is_some() {
            wiz.dest_choice = 0;
            return WizardAction::Done;
        }
        return match wiz.step.prev() {
            Some(p) => {
                wiz.step = p;
                WizardAction::Done
            },
            None => WizardAction::Close,
        };
    }
    match wiz.step {
        WizardStep::Name => {
            if key.code == KeyCode::Enter {
                let name = trim_str(wiz.name.as_str());
                if name.as_str().is_empty() {
                    wiz.error = Some("name cannot be empty".to_owned());
                    WizardAction::Done
                } else {
                    WizardAction::CheckName(sanitize_name(name.as_str()))
                }
            } else {
                WizardAction::EditName
            }
        },
        WizardStep::Source => {
            if is_down(key) {
                wiz.source_browser.move_down();
                WizardAction::Done
            } else if is_up(key) {
                wiz.source_browser.move_up();
                WizardAction::Done
            } else if is_left(key) {
                let s = wiz.source_browser.go_up();
                if s == BrowseStep::Moved {
                    WizardAction::ListSource
                } else {
                    WizardAction::Done
                }
            } else if is_open(key) {
                let s = wiz.source_browser.enter_selected();
                if s == BrowseStep::Confirmed {
                    wiz.error = None;
                    wiz.step = WizardStep::Destination;
                    WizardAction::Done
                } else if s == BrowseStep::Moved {
                    WizardAction::ListSource
                } else {
                    WizardAction::Done
                }
            } else {
                WizardAction::Done
            }
        },
        WizardStep::Destination => {
            if wiz.dest_choice == identified {
                let mut b = wiz.dest_browser.take().unwrap();
                let r = if is_down(key) {
                    b.move_down();
                    WizardAction::Done
                } else if is_up(key) {
                    b.move_up();
                    WizardAction::Done
                } else if is_left(key) {
                    let s = b.go_up();
                    if s == BrowseStep::Moved {
                        WizardAction::ListDestination
                    } else {
                        WizardAction::Done
                    }
                } else if is_open(key) {
                    let s = b.enter_selected();
                    if s == BrowseStep::Confirmed {
                        wiz.error = None;
                        wiz.step = WizardStep::Mode;
                        WizardAction::Done
                    } else if s == BrowseStep::Moved {
                        WizardAction::ListDestination
                    } else {
                        WizardAction::Done
                    }
                } else {
                    WizardAction::Done
                };
                wiz.dest_browser = Some(b);
                r
            } else if is_down(key) {
                if wiz.dest_choice < identified {
                    wiz.dest_choice = wiz.dest_choice + 1;
                } else {
                    wiz.dest_choice = identified;
                }
                WizardAction::Done
            } else if is_up(key) {
                if wiz.dest_choice > 0 {
                    wiz.dest_choice = wiz.dest_choice - 1;
                }
                WizardAction::Done
            } else if key.code == KeyCode::Enter && wiz.dest_choice < identified {
                wiz.error = None;
                wiz.step = WizardStep::Mode;
                WizardAction::Done
            } else {
                WizardAction::Done
            }
        },
        WizardStep::Mode => {
            if is_down(key) {
                if wiz.mode_choice < 2 {
                    wiz.mode_choice = wiz.mode_choice + 1;
                } else {
                    wiz.mode_choice = 2;
                }
            } else if is_up(key) {
                if wiz.mode_choice > 0 {
                    wiz.mode_choice = wiz.mode_choice - 1;
                }
            } else if key.code == KeyCode::Enter {
                wiz.step = WizardStep::Confirm;
            }
            WizardAction::Done
        },
        WizardStep::Confirm => {
            if key.code == KeyCode::Enter {
                WizardAction::Write
            } else if key.code == KeyCode::Char('q') {
                WizardAction::Close
            } else {
                WizardAction::Done
            }
        },
    }
}

/// Finishes the name step once it is known whether the profile file with
/// stem `stem` exists: an error if it does, else on to the source step.
pub fn name_checked(wiz: &mut NewProfileState, stem: &str, exists: bool)
    ensures
        only_step_error(*old(wiz), *final(wiz)),
        exists ==> final(wiz).step == old(wiz).step,
        exists ==> (final(wiz).error matches Some(e) && e@ == "'"@ + stem@
            + ".toml' already exists — choose a different name"@),
        !exists ==> final(wiz).step == WizardStep::Source && final(wiz).error is None,
{
    if exists {
        let mut e = "'".to_owned();
        push_str(&mut e, stem);
        push_str(&mut e, ".toml' already exists — choose a different name");
        wiz.error = Some(e);
    } else {
        wiz.error = None;
        wiz.step = WizardStep::Source;
    }
}


// ── Main views ───────────────────────────────────────────────────────────────

/// The outside work a key in the main views asks for.
#[derive(Debug, Clone, Copy, PartialEq, Eq, Structural)]
pub enum KeyAction {
    /// Nothing more.
    Done,
    /// Read the latest run log and show it (`App::show_log`).
    LoadLog,
    /// Scan the removable drives again and replace the scan.
    RefreshScan,
    /// Open the player.
    EnterPlayer,
    /// List the wizard's starting directories and call
    /// `App::enter_new_profile`.
    NewProfile,
    /// List the clone's starting directories and call
    /// `App::enter_clone_profile`.
    CloneProfile,
    /// Delete the highlighted profile (`App::profile_deleted` reports it).
    DeleteProfile,
    /// Run the ready diff's sync (`App::sync_job`).
    StartSync,
    /// Queue the highlighted diff entry in the player (`enqueue_diff_entry`).
    EnqueueEntry,
}

/// Enter on the home menu: sync & profiles, player, log.
pub open spec fn home_spec(o: App, n: App, r: KeyAction) -> bool {
    if o.home_cursor == 0 {
        r == KeyAction::Done && n == (App { view: Screen::Profiles, ..o })
    } else if o.home_cursor == 1 {
        r == KeyAction::EnterPlayer && n == o
    } else if o.home_cursor == 2 {
        r == KeyAction::LoadLog && n == o
    } else {
        r == KeyAction::Done && n == o
    }
}

/// Opens the highlighted entry of the home menu.
pub fn navigate_home(app: &mut App) -> (r: KeyAction)
    ensures
        home_spec(*old(app), *final(app), r),
{
    if app.home_cursor == 0 {
        app.view = Screen::Profiles;
        KeyAction::Done
    } else if app.home_cursor == 1 {
        KeyAction::EnterPlayer
    } else if app.home_cursor == 2 {
        KeyAction::LoadLog
    } else {
        KeyAction::Done
    }
}

/// `y` on the diff view: with no ready diff, a hint; a mirror sync that
/// deletes orphans asks for a second `y`; otherwise the sync starts.
pub open spec fn sync_confirm_spec(o: App, n: App, r: KeyAction) -> bool {
    match o.diff_state {
        DiffState::Ready { result, mode, .. } => {
            let orphans = count_kind(result.plan@, EntryKind::Orphan);
            if mode == Mode::Mirror && orphans > 0 && !o.confirm_sync {
                r == KeyAction::Done && flashed(
                    App { confirm_sync: true, ..o },
                    n,
                    "Mirror mode will DELETE "@ + dec(orphans) + " orphan(s).  Press y again to confirm."@,
                )
            } else {
                r == KeyAction::StartSync && n == (App { confirm_sync: false, ..o })
            }
        },
        _ => r == KeyAction::Done && flashed(o, n, "no diff ready — press enter on a profile first"@),
    }
}

pub fn handle_sync_confirm(app: &mut App) -> (r: KeyAction)
    ensures
        sync_confirm_spec(*old(app), *final(app), r),
{
    let orphans = match &app.diff_state {
        DiffState::Ready { result, mode, .. } => {
            let is_mirror = *mode == Mode::Mirror;
            let n = result.plan.count(EntryKind::Orphan);
            if is_mirror && n > 0 && !app.confirm_sync {
                Some(n)
            } else {
                None
            }
        },
        _ => {
            app.set_flash("no diff ready — press enter on a profile first".to_owned());
            return KeyAction::Done;
        },
    };
    match orphans {
        Some(n) => {
            app.confirm_sync = true;
            let mut msg = "Mirror mode will DELETE ".to_owned();
            push_str(&mut msg, fmt_u64(n as u64).as_str());
            push_str(&mut msg, " orphan(s).  Press y again to confirm.");
            app.set_flash(msg);
            KeyAction::Done
        },
        None => {
            app.confirm_sync = false;
            KeyAction::StartSync
        },
    }
}

/// `x` on the diff view of a selective profile: selects or deselects the
/// album folder of the highlighted entry.
pub open spec fn toggle_spec(o: App, n: App) -> bool {
    match o.diff_state {
        DiffState::Ready { result, mode, .. } => if mode != Mode::Selective {
            flashed(o, n, "x = toggle selection (only in selective mode profiles)"@)
        } else if o.diff_entry_idx >= shown(result.plan@, o.diff_entry_filter).len() {
            n == o
        } else {
            let album = album_of(shown(result.plan@, o.diff_entry_filter)[o.diff_entry_idx as int].1);
            if album.len() == 0 {
                flashed(o, n, "cannot select root-level files individually"@)
            } else {
                &&& n == (App { selective_paths: n.selective_paths, ..o })
                &&& strictly_sorted(strs(n.selective_paths@))
                &&& strs(n.selective_paths@).to_set() == if strs(o.selective_paths@).to_set().contains(album) {
                    strs(o.selective_paths@).to_set().remove(album)
                } else {
                    strs(o.selective_paths@).to_set().insert(album)
                }
            }
        },
        _ => n == o,
    }
}

pub fn toggle_selective(app: &mut App)
    requires
        old(app).wf(),
    ensures
        toggle_spec(*old(app), *final(app)),
        final(app).wf(),
{
    let album = match &app.diff_state {
        DiffState::Ready { result, mode, .. } => {
            if *mode != Mode::Selective {
                None
            } else {
                match shown_index(&result.plan, app.diff_entry_filter, app.diff_entry_idx) {
                    None => return,
                    Some(k) => {
                        assert(result.plan@[k as int] == result.plan.entries@[k as int]@);
                        match parent(result.plan.entries[k].path.as_str()) {
                            Some(p) => Some(p),
                            None => Some(String::new()),
                        }
                    },
                }
            }
        },
        _ => return,
    };
    match album {
        None => app.set_flash("x = toggle selection (only in selective mode profiles)".to_owned()),
        Some(a) => {
            if a.as_str().is_empty() {
                app.set_flash("cannot select root-level files individually".to_owned());
            } else {
                let (p, found) = crate::order::sorted_position(&app.selective_paths, a.as_str());
                proof {
                    if found {
                        assert(strs(app.selective_paths@)[p as int] == a@);
                        assert(strs(app.selective_paths@).to_set().contains(a@));
                    }
                }
                if found {
                    remove_sorted(&mut app.selective_paths, a.as_str());
                } else {
                    insert_sorted_unique(&mut app.selective_paths, a);
                }
            }
        },
    }
}


/// `o` with the pending delete confirmation dropped, unless `key` is `D` on
/// the profiles view.
pub open spec fn reset_delete(o: App, key: Key) -> App {
    App {
        delete_confirm: if key.code == KeyCode::Char('D') && o.view == Screen::Profiles {
            o.delete_confirm
        } else {
            false
        },
        ..o
    }
}

/// The sync shown by the progress view has finished.
pub open spec fn progress_done(o: App) -> bool {
    o.progress_state matches Some(p) && p.finished
}

/// The last line of the log view.
pub open spec fn log_bottom(o: App) -> usize {
    if o.log_lines@.len() > 0 {
        (o.log_lines@.len() - 1) as usize
    } else {
        0
    }
}

/// What `key` does on the home menu (the state `b` after the common steps).
pub open spec fn home_key_spec(b: App, n: App, key: Key, r: KeyAction) -> bool {
    if key_down(key) {
        r == KeyAction::Done && n == (App {
            home_cursor: if b.home_cursor + 1 < HOME_ENTRIES {
                (b.home_cursor + 1) as usize
            } else {
                b.home_cursor
            },
            ..b
        })
    } else if key_up(key) {
        r == KeyAction::Done && n == (App {
            home_cursor: if b.home_cursor > 0 {
                (b.home_cursor - 1) as usize
            } else {
                0
            },
            ..b
        })
    } else if key.code == KeyCode::Enter {
        home_spec(b, n, r)
    } else if key.code == KeyCode::Char('s') {
        r == KeyAction::Done && n == (App { view: Screen::Profiles, ..b })
    } else if key.code == KeyCode::Char('m') {
        r == KeyAction::EnterPlayer && n == b
    } else if key.code == KeyCode::Char('l') {
        r == KeyAction::LoadLog && n == b
    } else if key.code == KeyCode::Char('r') {
        r == KeyAction::RefreshScan && n == b
    } else {
        r == KeyAction::Done && n == b
    }
}

/// What `key` does on the profiles view.
pub open spec fn profiles_key_spec(o: App, b: App, n: App, key: Key, r: KeyAction) -> bool {
    let count = b.profiles@.len();
    if key_down(key) {
        r == KeyAction::Done && n == (App {
            profile_idx: if b.profile_idx + 1 < count {
                (b.profile_idx + 1) as usize
            } else {
                b.profile_idx
            },
            ..b
        })
    } else if key_up(key) {
        r == KeyAction::Done && n == (App {
            profile_idx: if b.profile_idx > 0 {
                (b.profile_idx - 1) as usize
            } else {
                0
            },
            ..b
        })
    } else if key.code == KeyCode::Enter && count > 0 {
        &&& r == KeyAction::Done
        &&& n == (App {
            diff_state: n.diff_state,
            diff_entry_idx: 0,
            diff_entry_filter: EntryFilter::All,
            view: Screen::Diff,
            ..b
        })
        &&& n.diff_state is Loading
    } else if key.code == KeyCode::Char('r') {
        r == KeyAction::RefreshScan && n == b
    } else if key.code == KeyCode::Char('n') {
        r == KeyAction::NewProfile && n == b
    } else if key.code == KeyCode::Char('l') {
        r == KeyAction::LoadLog && n == b
    } else if key.code == KeyCode::Char('c') {
        if count == 0 {
            r == KeyAction::Done && flashed(b, n, "no profiles to clone"@)
        } else {
            r == KeyAction::CloneProfile && n == b
        }
    } else if key.code == KeyCode::Char('m') {
        r == KeyAction::EnterPlayer && n == b
    } else if key.code == KeyCode::Char('D') {
        if count == 0 {
            r == KeyAction::Done && flashed(b, n, "no profiles to delete"@)
        } else if o.delete_confirm {
            r == KeyAction::DeleteProfile && n == (App { delete_confirm: false, ..b })
        } else {
            let name = if b.profile_idx < count {
                b.profiles@[b.profile_idx as int].0@
            } else {
                "?"@
            };
            r == KeyAction::Done && flashed(
                App { delete_confirm: true, ..b },
                n,
                "press D again to delete '"@ + name + "'"@,
            )
        }
    } else {
        r == KeyAction::Done && n == b
    }
}

/// What `key` does on the log view.
pub open spec fn log_key_spec(b: App, n: App, key: Key, r: KeyAction) -> bool {
    if key_down(key) {
        r == KeyAction::Done && n == (App {
            log_scroll: if b.log_scroll < log_bottom(b) {
                (b.log_scroll + 1) as usize
            } else {
                log_bottom(b)
            },
            ..b
        })
    } else if key_up(key) {
        r == KeyAction::Done && n == (App {
            log_scroll: if b.log_scroll > 0 {
                (b.log_scroll - 1) as usize
            } else {
                0
            },
            ..b
        })
    } else if key.code == KeyCode::Char('g') {
        r == KeyAction::Done && n == (App { log_scroll: 0, ..b })
    } else if key.code == KeyCode::Char('G') {
        r == KeyAction::Done && n == (App { log_scroll: log_bottom(b), ..b })
    } else if key.code == KeyCode::Char('r') {
        r == KeyAction::LoadLog && n == b
    } else {
        r == KeyAction::Done && n == b
    }
}

/// What `key` does on the diff view.
pub open spec fn diff_key_spec(b: App, n: App, key: Key, r: KeyAction) -> bool {
    if key_down(key) {
        r == KeyAction::Done && n == (App {
            diff_entry_idx: if b.diff_entry_idx < usize::MAX {
                (b.diff_entry_idx + 1) as usize
            } else {
                usize::MAX
            },
            ..b
        })
    } else if key_up(key) {
        r == KeyAction::Done && n == (App {
            diff_entry_idx: if b.diff_entry_idx > 0 {
                (b.diff_entry_idx - 1) as usize
            } else {
                0
            },
            ..b
        })
    } else if key.code == KeyCode::Tab {
        &&& r == KeyAction::Done
        &&& n == (App { diff_entry_filter: n.diff_entry_filter, diff_entry_idx: 0, ..b })
        &&& filter_pos(n.diff_entry_filter) == (filter_pos(b.diff_entry_filter) + 1) % 5
    } else if key.code == KeyCode::Char('r') {
        &&& r == KeyAction::Done
        &&& n == (App {
            diff_state: n.diff_state,
            diff_entry_idx: 0,
            diff_entry_filter: EntryFilter::All,
            view: Screen::Diff,
            ..b
        })
        &&& n.diff_state is Loading
    } else if key.code == KeyCode::Char('y') {
        sync_confirm_spec(b, n, r)
    } else if key.code == KeyCode::Char('x') {
        r == KeyAction::Done && toggle_spec(b, n)
    } else if key.code == KeyCode::Char(' ') {
        r == KeyAction::EnqueueEntry && n == b
    } else {
        r == KeyAction::Done && n == b
    }
}

/// What `key` does in the main views (all but the wizard and the player):
/// Control-C quits; `q` and Esc go back; then each view's own keys.
pub open spec fn key_spec(o: App, n: App, key: Key, r: KeyAction) -> bool {
    let b = reset_delete(o, key);
    if ctrl_c(key) {
        r == KeyAction::Done && n == (App { should_quit: true, ..b })
    } else if key.code == KeyCode::Char('q') {
        r == KeyAction::Done && n == match o.view {
            Screen::Home => App { should_quit: true, ..b },
            Screen::Profiles => App { view: Screen::Home, ..b },
            Screen::Progress => if progress_done(o) {
                App { view: Screen::Home, ..b }
            } else {
                b
            },
            _ => App { view: Screen::Profiles, confirm_sync: false, ..b },
        }
    } else if key.code == KeyCode::Char('l') && o.view == Screen::Progress {
        n == b && r == if progress_done(o) {
            KeyAction::LoadLog
        } else {
            KeyAction::Done
        }
    } else if key.code == KeyCode::Esc && o.view != Screen::Progress {
        r == KeyAction::Done && n == if o.view == Screen::Home || o.view == Screen::Profiles {
            b
        } else {
            App { view: Screen::Profiles, confirm_sync: false, ..b }
        }
    } else if o.view == Screen::Home {
        home_key_spec(b, n, key, r)
    } else if o.view == Screen::Profiles {
        profiles_key_spec(o, b, n, key, r)
    } else if o.view == Screen::Log {
        log_key_spec(b, n, key, r)
    } else if o.view == Screen::Diff {
        diff_key_spec(b, n, key, r)
    } else {
        r == KeyAction::Done && n == b
    }
}

/// Applies a key press in the main views; the returned action is the
/// outside work left to do.
pub fn handle_key(app: &mut App, key: Key) -> (r: KeyAction)
    requires
        old(app).wf(),
    ensures
        key_spec(*old(app), *final(app), key, r),
        final(app).wf(),
{
    let was_confirm = app.delete_confirm;
    if !(key.code == KeyCode::Char('D') && app.view == Screen::Profiles) {
        app.delete_confirm = false;
    }
    if is_ctrl_c(key) {
        app.should_quit = true;
        return KeyAction::Done;
    }
    let done = match &app.progress_state {
        Some(p) => p.finished,
        None => false,
    };
    if key.code == KeyCode::Char('q') {
        match app.view {
            Screen::Home => app.should_quit = true,
            Screen::Profiles => app.view = Screen::Home,
            Screen::Progress => {
                if done {
                    app.view = Screen::Home;
                }
            },
            _ => {
                app.view = Screen::Profiles;
                app.confirm_sync = false;
            },
        }
        return KeyAction::Done;
    }
    if key.code == KeyCode::Char('l') && app.view == Screen::Progress {
        return if done {
            KeyAction::LoadLog
        } else {
            KeyAction::Done
        };
    }
    if key.code == KeyCode::Esc && app.view != Screen::Progress {
        if !(app.view == Screen::Home || app.view == Screen::Profiles) {
            app.view = Screen::Profiles;
            app.confirm_sync = false;
        }
        return KeyAction::Done;
    }
    match app.view {
        Screen::Home => {
            if is_down(key) {
                app.home_move_down();
                KeyAction::Done
            } else if is_up(key) {
                app.home_move_up();
                KeyAction::Done
            } else if key.code == KeyCode::Enter {
                navigate_home(app)
            } else if key.code == KeyCode::Char('s') {
                app.view = Screen::Profiles;
                KeyAction::Done
            } else if key.code == KeyCode::Char('m') {
                KeyAction::EnterPlayer
            } else if key.code == KeyCode::Char('l') {
                KeyAction::LoadLog
            } else if key.code == KeyCode::Char('r') {
                KeyAction::RefreshScan
            } else {
                KeyAction::Done
            }
        },
        Screen::Profiles => {
            if is_down(key) {
                app.move_down();
                KeyAction::Done
            } else if is_up(key) {
                app.move_up();
                KeyAction::Done
            } else if key.code == KeyCode::Enter && app.profiles.len() > 0 {
                app.enter_diff();
                KeyAction::Done
            } else if key.code == KeyCode::Char('r') {
                KeyAction::RefreshScan
            } else if key.code == KeyCode::Char('n') {
                KeyAction::NewProfile
            } else if key.code == KeyCode::Char('l') {
                KeyAction::LoadLog
            } else if key.code == KeyCode::Char('c') {
                if app.profiles.len() == 0 {
                    app.set_flash("no profiles to clone".to_owned());
                    KeyAction::Done
                } else {
                    KeyAction::CloneProfile
                }
            } else if key.code == KeyCode::Char('m') {
                KeyAction::EnterPlayer
            } else if key.code == KeyCode::Char('D') {
                if app.profiles.len() == 0 {
                    app.set_flash("no profiles to delete".to_owned());
                    KeyAction::Done
                } else if was_confirm {
                    app.delete_confirm = false;
                    KeyAction::DeleteProfile
                } else {
                    let mut msg = "press D again to delete '".to_owned();
                    if app.profile_idx < app.profiles.len() {
                        push_str(&mut msg, app.profiles[app.profile_idx].0.as_str());
                    } else {
                        push_str(&mut msg, "?");
                    }
                    push_str(&mut msg, "'");
                    app.set_flash(msg);
                    app.delete_confirm = true;
                    KeyAction::Done
                }
            } else {
                KeyAction::Done
            }
        },
        Screen::Log => {
            let bottom = if app.log_lines.len() > 0 {
                app.log_lines.len() - 1
            } else {
                0
            };
            if is_down(key) {
                app.log_scroll = if app.log_scroll < bottom {
                    app.log_scroll + 1
                } else {
                    bottom
                };
                KeyAction::Done
            } else if is_up(key) {
                app.log_scroll = app.log_scroll.saturating_sub(1);
                KeyAction::Done
            } else if key.code == KeyCode::Char('g') {
                app.log_scroll = 0;
                KeyAction::Done
            } else if key.code == KeyCode::Char('G') {
                app.log_scroll = bottom;
                KeyAction::Done
            } else if key.code == KeyCode::Char('r') {
                KeyAction::LoadLog
            } else {
                KeyAction::Done
            }
        },
        Screen::Diff => {
            if is_down(key) {
                app.move_diff_down();
                KeyAction::Done
            } else if is_up(key) {
                app.move_diff_up();
                KeyAction::Done
            } else if key.code == KeyCode::Tab {
                app.cycle_diff_filter();
                KeyAction::Done
            } else if key.code == KeyCode::Char('r') {
                app.enter_diff();
                KeyAction::Done
            } else if key.code == KeyCode::Char('y') {
                handle_sync_confirm(app)
            } else if key.code == KeyCode::Char('x') {
                toggle_selective(app);
                KeyAction::Done
            } else if key.code == KeyCode::Char(' ') {
                KeyAction::EnqueueEntry
            } else {
                KeyAction::Done
            }
        },
        _ => KeyAction::Done,
    }
}


/// The source file of the highlighted diff entry, for the player: the
/// source root joined with the entry's path (with the original extension
/// for a transcoded entry). An orphan only exists on the destination and
/// gets a hint instead.
pub open spec fn enqueue_spec(o: App, n: App, r: Option<String>) -> bool {
    match o.diff_state {
        DiffState::Ready { result, source, .. } => if o.diff_entry_idx >= shown(result.plan@, o.diff_entry_filter).len() {
            r is None && n == o
        } else {
            let row = shown(result.plan@, o.diff_entry_filter)[o.diff_entry_idx as int];
            if row.0 == EntryKind::Orphan {
                r is None && flashed(o, n, "orphans exist only on destination — use L/D in player to toggle"@)
            } else {
                &&& n == o
                &&& r matches Some(p) && p@ == path_join(
                    source@,
                    match row.3 {
                        Some(ext) => path_with_extension(row.1, ext),
                        None => row.1,
                    },
                )
            }
        },
        _ => r is None && n == o,
    }
}

/// Every transcoded entry of `rows` names an extension `with_extension`
/// accepts.
pub open spec fn plan_exts_ok(rows: Seq<Row>) -> bool {
    forall|i: int| 0 <= i < rows.len() ==> ((#[trigger] rows[i]).3 matches Some(f) ==> ext_ok(f))
}

pub fn enqueue_diff_entry(app: &mut App) -> (r: Option<String>)
    requires
        old(app).diff_state matches DiffState::Ready { result, .. } ==> plan_exts_ok(result.plan@),
    ensures
        enqueue_spec(*old(app), *final(app), r),
{
    let target = match &app.diff_state {
        DiffState::Ready { result, source, .. } => {
            match shown_index(&result.plan, app.diff_entry_filter, app.diff_entry_idx) {
                None => return None,
                Some(k) => {
                    let e = &result.plan.entries[k];
                    assert(result.plan@[k as int] == e@);
                    if e.kind == EntryKind::Orphan {
                        None
                    } else {
                        let rel = match &e.transcode_from {
                            Some(ext) => with_extension(e.path.as_str(), ext.as_str()),
                            None => e.path.clone(),
                        };
                        Some(join(source.as_str(), rel.as_str()))
                    }
                },
            }
        },
        _ => return None,
    };
    if target.is_none() {
        app.set_flash("orphans exist only on destination — use L/D in player to toggle".to_owned());
    }
    target
}

impl App {
    /// The entry's source file `path` does not exist.
    pub fn source_missing(&mut self, path: &str)
        ensures
            flashed(*old(self), *final(self), "not found on source: "@ + path@),
    {
        let mut m = "not found on source: ".to_owned();
        push_str(&mut m, path);
        self.set_flash(m);
    }

    /// The entry was queued in the player, which opens.
    pub fn entry_queued(&mut self)
        ensures
            flashed(App { view: Screen::Player, ..*old(self) }, *final(self), "track queued — opening player"@),
    {
        self.set_flash("track queued — opening player".to_owned());
        self.view = Screen::Player;
    }
}


/// Control-C quits from every main view and from the wizard.
pub proof fn lemma_ctrl_c_quits(o: App, n: App, r: KeyAction, wo: NewProfileState, wn: NewProfileState, wr: WizardAction, identified: usize)
    requires
        key_spec(o, n, Key { code: KeyCode::Char('c'), ctrl: true }, r),
        wizard_key_spec(wo, wn, Key { code: KeyCode::Char('c'), ctrl: true }, identified, wr),
    ensures
        n.should_quit,
        wr is Quit,
{
}

/// Any key but `D` on the profiles view drops a pending delete request, so
/// a profile is deleted only by two `D` presses in a row.
pub proof fn lemma_delete_needs_two_presses(o: App, n: App, key: Key, r: KeyAction)
    requires
        key_spec(o, n, key, r),
        r == KeyAction::DeleteProfile,
    ensures
        key.code == KeyCode::Char('D'),
        o.view == Screen::Profiles,
        o.delete_confirm,
        !n.delete_confirm,
{
}

} // verus!
