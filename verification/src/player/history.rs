//! Play history: what an entry records and which one is worth resuming.
//! Positions are kept in milliseconds; appending to and reading the history
//! file is the application's work.

use vstd::prelude::*;

use crate::diff::plan::clone_opt;
use crate::player::queue::TrackInfo;

verus! {

/// One line of the play history.
#[derive(Debug, Clone)]
pub struct HistoryEntry {
    /// RFC 3339 timestamp of the entry.
    pub ts: String,
    pub path: String,
    pub title: String,
    pub artist: Option<String>,
    pub album: Option<String>,
    /// Playback position when the entry was written, in milliseconds.
    pub position_ms: u64,
    pub duration_ms: Option<u64>,
}

impl HistoryEntry {
    /// The entry for `track`, played up to `position_ms`, written at `ts`.
    pub fn from_track(track: &TrackInfo, position_ms: u64, ts: String) -> (r: Self)
        ensures
            r.ts == ts,
            r.path == track.path,
            r.title == track.title,
            r.artist == track.artist,
            r.album == track.album,
            r.position_ms == position_ms,
            r.duration_ms == track.duration_ms,
    {
        HistoryEntry {
            ts,
            path: track.path.clone(),
            title: track.title.clone(),
            artist: clone_opt(&track.artist),
            album: clone_opt(&track.album),
            position_ms,
            duration_ms: track.duration_ms,
        }
    }

    /// The track was left mid-play and is worth resuming: more than five
    /// seconds in, and more than ten seconds before its end when the length
    /// is known.
    pub fn is_resume_candidate(&self) -> (r: bool)
        ensures
            r == (self.position_ms > 5000 && match self.duration_ms {
                Some(d) => self.position_ms + 10000 < d,
                None => true,
            }),
    {
        self.position_ms > 5000 && match self.duration_ms {
            Some(d) => d >= 10000 && self.position_ms < d - 10000,
            None => true,
        }
    }
}

/// The entry to offer for resuming: the last of `entries` (the history in
/// file order), if it is a resume candidate.
pub fn resume_choice(entries: &Vec<HistoryEntry>) -> (r: Option<usize>)
    ensures
        match r {
            Some(i) => entries@.len() > 0 && i == entries@.len() - 1 && entries@[i as int].position_ms > 5000
                && match entries@[i as int].duration_ms {
                Some(d) => entries@[i as int].position_ms + 10000 < d,
                None => true,
            },
            None => entries@.len() == 0 || !(entries@.last().position_ms > 5000 && match entries@.last().duration_ms {
                Some(d) => entries@.last().position_ms + 10000 < d,
                None => true,
            }),
        },
{
    if entries.len() == 0 {
        return None;
    }
    let i = entries.len() - 1;
    if entries[i].is_resume_candidate() {
        Some(i)
    } else {
        None
    }
}

/// Index from which the last `n` of `len` history entries start.
pub fn last_n_start(len: usize, n: usize) -> (r: usize)
    ensures
        r == if len > n {
            len - n
        } else {
            0
        },
{
    if len > n {
        len - n
    } else {
        0
    }
}

} // verus!
