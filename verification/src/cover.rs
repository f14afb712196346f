//! Cover art: the decisions of fetching `folder.jpg` for albums without one
//! and of embedding it into the audio files' tags.
//!
//! Looked-up artwork URLs are cached per (artist, album) for thirty days; an
//! empty URL records that nothing was found.

use vstd::prelude::*;

use crate::audit::cover_names;
use crate::paths::{components, path_components};
use crate::text::{
    lowercase, push_char, push_replaced, push_str, replace_all, replace_char, replace_str, str_eq, to_lowercase,
};

verus! {

pub struct FetchOptions {
    pub path: String,
}

/// Counters of a fetch run.
#[derive(Debug, Clone, Copy, PartialEq, Eq, Structural)]
pub struct FetchStats {
    pub albums_scanned: usize,
    pub already_have: usize,
    pub fetched: usize,
    pub not_found: usize,
    pub errors: usize,
}

pub struct EmbedOptions {
    pub path: String,
    /// Replace front covers already embedded.
    pub overwrite: bool,
}

/// Counters of an embed run.
#[derive(Debug, Clone, Copy, PartialEq, Eq, Structural)]
pub struct EmbedStats {
    pub albums_scanned: usize,
    pub files_embedded: usize,
    pub files_skipped_has_art: usize,
    pub files_skipped_no_folder: usize,
    pub files_skipped_format: usize,
    pub errors: usize,
}

/// How long a cached lookup stays valid: thirty days, in seconds.
pub const CACHE_TTL_SECS: u64 = 2592000u64;

/// One cached lookup: the artwork URL (empty when nothing was found) and
/// when it was stored, in seconds since the UNIX epoch.
#[derive(Debug, Clone)]
pub struct CacheEntry {
    pub url: String,
    pub ts: u64,
}

/// Extensions (lowercase) of the audio files that make a folder an album.
pub open spec fn cover_audio_exts() -> Seq<Seq<char>> {
    seq![
        "flac"@, "mp3"@, "aac"@, "ogg"@, "opus"@, "wav"@, "alac"@, "m4a"@, "dsf"@, "dff"@, "wv"@,
        "wma"@, "aiff"@, "aif"@, "ape"@,
    ]
}

/// Extensions (lowercase) whose tags can take an embedded picture.
pub open spec fn embed_exts() -> Seq<Seq<char>> {
    seq!["flac"@, "mp3"@, "m4a"@, "alac"@, "ogg"@, "opus"@]
}

fn member(list: &Vec<&str>, x: &str) -> (r: bool)
    ensures
        r == list@.map_values(|s: &str| s@).contains(x@),
{
    let ghost l = list@.map_values(|s: &str| s@);
    let mut i: usize = 0;
    while i < list.len()
        invariant
            0 <= i <= list@.len(),
            l == list@.map_values(|s: &str| s@),
            forall|k: int| 0 <= k < i ==> l[k] != x@,
        decreases list@.len() - i,
    {
        assert(l[i as int] == list@[i as int]@);
        if str_eq(list[i], x) {
            assert(l.contains(x@));
            return true;
        }
        i += 1;
    }
    false
}

/// Whether a lowercase extension is one of an album's audio files.
pub fn is_cover_audio_ext(ext: &str) -> (r: bool)
    ensures
        r == cover_audio_exts().contains(ext@),
{
    let list = vec![
        "flac", "mp3", "aac", "ogg", "opus", "wav", "alac", "m4a", "dsf", "dff", "wv", "wma", "aiff",
        "aif", "ape",
    ];
    assert(list@.map_values(|s: &str| s@) =~= cover_audio_exts());
    member(&list, ext)
}

/// Whether a lowercase extension can take an embedded picture.
pub fn is_embed_ext(ext: &str) -> (r: bool)
    ensures
        r == embed_exts().contains(ext@),
{
    let list = vec!["flac", "mp3", "m4a", "alac", "ogg", "opus"];
    assert(list@.map_values(|s: &str| s@) =~= embed_exts());
    member(&list, ext)
}

/// The cache key of an album: artist and album lowercased, NUL-separated.
pub open spec fn cache_key_spec(artist: Seq<char>, album: Seq<char>) -> Seq<char> {
    lowercase(artist) + seq!['\0'] + lowercase(album)
}

pub fn cache_key(artist: &str, album: &str) -> (r: String)
    ensures
        r@ == cache_key_spec(artist@, album@),
{
    let mut k = to_lowercase(artist);
    push_char(&mut k, '\0');
    let b = to_lowercase(album);
    push_str(&mut k, b.as_str());
    k
}

/// A cached lookup stored at `ts` is still valid at `now`.
pub open spec fn fresh(now: u64, ts: u64) -> bool {
    (if now >= ts {
        now - ts
    } else {
        0
    }) < CACHE_TTL_SECS
}

pub fn cache_fresh(now: u64, ts: u64) -> (r: bool)
    ensures
        r == fresh(now, ts),
{
    now.saturating_sub(ts) < CACHE_TTL_SECS
}

/// The URL recorded for artwork that the Cover Art Archive returned
/// directly: the cache key with its NUL as `--`, under a fixed prefix.
pub open spec fn caa_url_spec(key: Seq<char>) -> Seq<char> {
    "https://coverartarchive.org/release/cached/"@ + replace_char(key, '\0', "--"@)
}

pub fn caa_cache_url(key: &str) -> (r: String)
    ensures
        r@ == caa_url_spec(key@),
{
    let mut u = "https://coverartarchive.org/release/cached/".to_owned();
    push_replaced(&mut u, key, '\0', "--");
    u
}

/// What to do for one album folder of a fetch run.
#[derive(Debug, Clone)]
pub enum AlbumPlan {
    /// A cover file is already there.
    AlreadyHave,
    /// Neither artist nor album is known: nothing to search for.
    NoTags,
    /// A still valid cache entry says there is no artwork.
    CachedNotFound,
    /// A still valid cache entry gives the artwork URL.
    CachedUrl { url: String },
    /// Search online; store the result under `key`.
    Search { key: String },
}

/// Decides what a fetch run does for one album folder: nothing when it has
/// a cover or no tags; else the cached URL while the entry is fresh; else a
/// search.
pub fn plan_album(has_cover: bool, artist: &str, album: &str, cached: Option<&CacheEntry>, now: u64) -> (r: AlbumPlan)
    ensures
        has_cover ==> r is AlreadyHave,
        !has_cover && artist@.len() == 0 && album@.len() == 0 ==> r is NoTags,
        !has_cover && !(artist@.len() == 0 && album@.len() == 0) ==> match cached {
            Some(e) => if fresh(now, e.ts) {
                if e.url@.len() == 0 {
                    r is CachedNotFound
                } else {
                    r matches AlbumPlan::CachedUrl { url } && url@ == e.url@
                }
            } else {
                r matches AlbumPlan::Search { key } && key@ == cache_key_spec(artist@, album@)
            },
            None => r matches AlbumPlan::Search { key } && key@ == cache_key_spec(artist@, album@),
        },
{
    if has_cover {
        return AlbumPlan::AlreadyHave;
    }
    if artist.is_empty() && album.is_empty() {
        return AlbumPlan::NoTags;
    }
    if let Some(e) = cached {
        if cache_fresh(now, e.ts) {
            if e.url.as_str().is_empty() {
                return AlbumPlan::CachedNotFound;
            }
            return AlbumPlan::CachedUrl { url: e.url.clone() };
        }
    }
    AlbumPlan::Search { key: cache_key(artist, album) }
}

/// What became of one album of a fetch run.
#[derive(Debug, Clone, Copy, PartialEq, Eq, Structural)]
pub enum FetchOutcome {
    AlreadyHave,
    Fetched,
    NotFound,
    Error,
}

/// The counters of a fetch run as (albums scanned, already have, fetched,
/// not found, errors).
pub type FetchStatsV = (nat, nat, nat, nat, nat);

pub open spec fn fetch_view(s: FetchStats) -> FetchStatsV {
    (s.albums_scanned as nat, s.already_have as nat, s.fetched as nat, s.not_found as nat, s.errors as nat)
}

/// The counters once one album's outcome `o` is counted.
pub open spec fn after_fetch(v: FetchStatsV, o: FetchOutcome) -> FetchStatsV {
    match o {
        FetchOutcome::AlreadyHave => (v.0, v.1 + 1, v.2, v.3, v.4),
        FetchOutcome::Fetched => (v.0, v.1, v.2 + 1, v.3, v.4),
        FetchOutcome::NotFound => (v.0, v.1, v.2, v.3 + 1, v.4),
        FetchOutcome::Error => (v.0, v.1, v.2, v.3, v.4 + 1),
    }
}

/// The counters after counting the outcomes `outs` in order.
pub open spec fn run_fetches(v: FetchStatsV, outs: Seq<FetchOutcome>) -> FetchStatsV
    decreases outs.len(),
{
    if outs.len() == 0 {
        v
    } else {
        after_fetch(run_fetches(v, outs.drop_last()), outs.last())
    }
}

/// A fetch run accounts for every album once: starting from `n` albums
/// scanned and nothing counted, counting one outcome for each of the `n`
/// albums gives already-have + fetched + not-found + errors = albums scanned.
pub proof fn lemma_fetch_totals(n: nat, outs: Seq<FetchOutcome>)
    requires
        outs.len() == n,
    ensures
        ({
            let v = run_fetches((n, 0, 0, 0, 0), outs);
            v.0 == n && v.1 + v.2 + v.3 + v.4 == v.0
        }),
{
    lemma_fetch_totals_from(n, outs);
}

proof fn lemma_fetch_totals_from(n: nat, outs: Seq<FetchOutcome>)
    ensures
        ({
            let v = run_fetches((n, 0, 0, 0, 0), outs);
            v.0 == n && v.1 + v.2 + v.3 + v.4 == outs.len()
        }),
    decreases outs.len(),
{
    if outs.len() > 0 {
        lemma_fetch_totals_from(n, outs.drop_last());
    }
}

/// Counts one album's outcome.
pub fn record_fetch(stats: &mut FetchStats, outcome: FetchOutcome)
    requires
        old(stats).already_have < usize::MAX,
        old(stats).fetched < usize::MAX,
        old(stats).not_found < usize::MAX,
        old(stats).errors < usize::MAX,
    ensures
        fetch_view(*final(stats)) == after_fetch(fetch_view(*old(stats)), outcome),
        final(stats).albums_scanned == old(stats).albums_scanned,
        final(stats).already_have == old(stats).already_have + if outcome == FetchOutcome::AlreadyHave { 1int } else { 0int },
        final(stats).fetched == old(stats).fetched + if outcome == FetchOutcome::Fetched { 1int } else { 0int },
        final(stats).not_found == old(stats).not_found + if outcome == FetchOutcome::NotFound { 1int } else { 0int },
        final(stats).errors == old(stats).errors + if outcome == FetchOutcome::Error { 1int } else { 0int },
{
    match outcome {
        FetchOutcome::AlreadyHave => stats.already_have = stats.already_have + 1,
        FetchOutcome::Fetched => stats.fetched = stats.fetched + 1,
        FetchOutcome::NotFound => stats.not_found = stats.not_found + 1,
        FetchOutcome::Error => stats.errors = stats.errors + 1,
    }
}

/// What an embed run does with one file of an album that has a cover.
#[derive(Debug, Clone, Copy, PartialEq, Eq, Structural)]
pub enum EmbedAction {
    /// Not an audio file: ignored.
    Ignore,
    /// Audio in a format whose tags cannot take a picture, or without a
    /// writable tag.
    SkipFormat,
    /// Already has a front cover and overwriting is off.
    SkipHasArt,
    /// Embed the cover, first removing existing front covers when asked.
    Embed { remove_existing: bool },
}

/// Decides what happens to one file (lowercase extension `ext`); the tag
/// facts matter only for formats that can take a picture.
pub fn embed_action(ext: &str, has_tag: bool, has_front_cover: bool, overwrite: bool) -> (r: EmbedAction)
    ensures
        !embed_exts().contains(ext@) ==> r == (if cover_audio_exts().contains(ext@) {
            EmbedAction::SkipFormat
        } else {
            EmbedAction::Ignore
        }),
        embed_exts().contains(ext@) ==> r == (if !has_tag {
            EmbedAction::SkipFormat
        } else if has_front_cover && !overwrite {
            EmbedAction::SkipHasArt
        } else {
            EmbedAction::Embed { remove_existing: overwrite }
        }),
{
    if !is_embed_ext(ext) {
        if is_cover_audio_ext(ext) {
            EmbedAction::SkipFormat
        } else {
            EmbedAction::Ignore
        }
    } else if !has_tag {
        EmbedAction::SkipFormat
    } else if has_front_cover && !overwrite {
        EmbedAction::SkipHasArt
    } else {
        EmbedAction::Embed { remove_existing: overwrite }
    }
}

/// The cover file names an album folder is searched for, in order of
/// preference (see `cover_names`).
pub fn cover_file_names() -> (r: Vec<&'static str>)
    ensures
        r@.map_values(|s: &str| s@) == cover_names(),
{
    let r = vec!["folder.jpg", "folder.jpeg", "cover.jpg", "cover.jpeg", "front.jpg", "front.jpeg", "album.jpg", "album.jpeg"];
    assert(r@.map_values(|s: &str| s@) =~= cover_names());
    r
}

/// Index of the first `true` of `present` from `k` on, or `-1`.
pub open spec fn first_present(present: Seq<bool>, k: int) -> int
    decreases present.len() - k,
{
    if k < 0 || k >= present.len() {
        -1
    } else if present[k] {
        k
    } else {
        first_present(present, k + 1)
    }
}

/// The cover an album's files get: `present[i]` tells whether the folder
/// holds `cover_file_names()[i]`; the first present one is used, and an
/// album without any is left untouched (`None`).
pub fn album_cover(present: &Vec<bool>) -> (r: Option<usize>)
    ensures
        match r {
            Some(i) => i == first_present(present@, 0) && i < present@.len(),
            None => first_present(present@, 0) == -1,
        },
{
    let mut i: usize = 0;
    while i < present.len()
        invariant
            0 <= i <= present@.len(),
            first_present(present@, 0) == first_present(present@, i as int),
        decreases present@.len() - i,
    {
        if present[i] {
            return Some(i);
        }
        i += 1;
    }
    None
}

/// What became of one step of an embed run.
#[derive(Debug, Clone, Copy, PartialEq, Eq, Structural)]
pub enum EmbedOutcome {
    /// The album folder holds no cover file: its `files` embeddable files
    /// are skipped and the album is not touched.
    NoFolderCover { files: usize },
    /// A file or the album's cover could not be read, converted or written.
    Error,
    /// The file got the cover.
    Embedded,
    /// The file was left as it is (`embed_action` said so).
    Skipped(EmbedAction),
}

/// The outcome of a file once `embed_action` decided `action` and, for an
/// embedding, the tag was written (`written`) or not.
pub fn file_outcome(action: EmbedAction, written: bool) -> (r: EmbedOutcome)
    ensures
        r == match action {
            EmbedAction::Embed { .. } => if written {
                EmbedOutcome::Embedded
            } else {
                EmbedOutcome::Error
            },
            _ => EmbedOutcome::Skipped(action),
        },
{
    match action {
        EmbedAction::Embed { .. } => if written {
            EmbedOutcome::Embedded
        } else {
            EmbedOutcome::Error
        },
        _ => EmbedOutcome::Skipped(action),
    }
}

/// The counters of an embed run as (albums scanned, embedded, skipped with
/// art, skipped without a folder cover, skipped for the format, errors).
pub type EmbedStatsV = (nat, nat, nat, nat, nat, nat);

pub open spec fn embed_view(s: EmbedStats) -> EmbedStatsV {
    (
        s.albums_scanned as nat,
        s.files_embedded as nat,
        s.files_skipped_has_art as nat,
        s.files_skipped_no_folder as nat,
        s.files_skipped_format as nat,
        s.errors as nat,
    )
}

/// The counters once outcome `o` is counted: an ignored (non-audio) file
/// counts nowhere.
pub open spec fn after_embed(v: EmbedStatsV, o: EmbedOutcome) -> EmbedStatsV {
    match o {
        EmbedOutcome::NoFolderCover { files } => (v.0, v.1, v.2, v.3 + files as nat, v.4, v.5),
        EmbedOutcome::Error => (v.0, v.1, v.2, v.3, v.4, v.5 + 1),
        EmbedOutcome::Embedded => (v.0, v.1 + 1, v.2, v.3, v.4, v.5),
        EmbedOutcome::Skipped(EmbedAction::SkipHasArt) => (v.0, v.1, v.2 + 1, v.3, v.4, v.5),
        EmbedOutcome::Skipped(EmbedAction::SkipFormat) => (v.0, v.1, v.2, v.3, v.4 + 1, v.5),
        EmbedOutcome::Skipped(_) => v,
    }
}

/// Counts one outcome of an embed run.
pub fn record_embed(stats: &mut EmbedStats, outcome: EmbedOutcome)
    requires
        old(stats).files_embedded < usize::MAX,
        old(stats).files_skipped_has_art < usize::MAX,
        old(stats).files_skipped_format < usize::MAX,
        old(stats).errors < usize::MAX,
        outcome matches EmbedOutcome::NoFolderCover { files } ==> old(stats).files_skipped_no_folder + files
            <= usize::MAX,
    ensures
        embed_view(*final(stats)) == after_embed(embed_view(*old(stats)), outcome),
{
    match outcome {
        EmbedOutcome::NoFolderCover { files } => stats.files_skipped_no_folder = stats.files_skipped_no_folder + files,
        EmbedOutcome::Error => stats.errors = stats.errors + 1,
        EmbedOutcome::Embedded => stats.files_embedded = stats.files_embedded + 1,
        EmbedOutcome::Skipped(EmbedAction::SkipHasArt) => stats.files_skipped_has_art = stats.files_skipped_has_art
            + 1,
        EmbedOutcome::Skipped(EmbedAction::SkipFormat) => stats.files_skipped_format = stats.files_skipped_format
            + 1,
        EmbedOutcome::Skipped(_) => {},
    }
}

/// Number of occurrences of `x` in `s`.
pub open spec fn occurrences(s: Seq<Seq<char>>, x: Seq<char>) -> nat {
    s.filter(|y: Seq<char>| y == x).len()
}

/// A value of `vals` that occurs at least as often as any other; empty for
/// no values. Which of several equally frequent values is not fixed.
pub open spec fn is_most_common(vals: Seq<Seq<char>>, r: Seq<char>) -> bool {
    if vals.len() == 0 {
        r.len() == 0
    } else {
        vals.contains(r) && forall|k: int| 0 <= k < vals.len() ==> occurrences(vals, #[trigger] vals[k]) <= occurrences(vals, r)
    }
}

fn count_of(vals: &Vec<String>, x: &str) -> (r: usize)
    ensures
        r == occurrences(vals@.map_values(|s: String| s@), x@),
{
    let ghost v = vals@.map_values(|s: String| s@);
    let mut n: usize = 0;
    let mut i: usize = 0;
    assert(v.take(0).filter(|y: Seq<char>| y == x@) =~= Seq::<Seq<char>>::empty()) by {
        reveal(Seq::filter);
    }
    while i < vals.len()
        invariant
            0 <= i <= vals@.len(),
            v == vals@.map_values(|s: String| s@),
            n == v.take(i as int).filter(|y: Seq<char>| y == x@).len(),
            n <= i,
        decreases vals@.len() - i,
    {
        assert(v.take(i as int + 1) =~= v.take(i as int).push(v[i as int]));
        proof {
            v.take(i as int).lemma_filter_push(v[i as int], |y: Seq<char>| y == x@);
        }
        assert(v[i as int] == vals@[i as int]@);
        if str_eq(vals[i].as_str(), x) {
            n += 1;
        }
        i += 1;
    }
    assert(v.take(i as int) =~= v);
    n
}

/// A most common value of `vals` (the first of equally frequent ones).
pub fn most_common(vals: &Vec<String>) -> (r: String)
    ensures
        is_most_common(vals@.map_values(|s: String| s@), r@),
{
    let ghost v = vals@.map_values(|s: String| s@);
    if vals.len() == 0 {
        return String::new();
    }
    let mut best: usize = 0;
    let mut best_n = count_of(vals, vals[0].as_str());
    assert(v[0] == vals@[0]@);
    let mut i: usize = 1;
    while i < vals.len()
        invariant
            1 <= i <= vals@.len(),
            best < vals@.len(),
            v == vals@.map_values(|s: String| s@),
            best_n == occurrences(v, v[best as int]),
            forall|k: int| 0 <= k < i ==> occurrences(v, #[trigger] v[k]) <= best_n,
        decreases vals@.len() - i,
    {
        assert(v[i as int] == vals@[i as int]@);
        let n = count_of(vals, vals[i].as_str());
        if n > best_n {
            best = i;
            best_n = n;
        }
        i += 1;
    }
    assert(v[best as int] == vals@[best as int]@);
    assert(v.contains(v[best as int]));
    vals[best].clone()
}

/// The artist and album of an album folder from its audio files' tags, as
/// (album artist, artist, album) per file: per file the album artist tag,
/// else the artist tag; empty values do not count; the most common artist
/// and the most common album win.
pub fn artist_album_of(files: &Vec<(Option<String>, Option<String>, Option<String>)>) -> (r: (String, String))
    ensures
        is_most_common(artist_vals(files@), r.0@),
        is_most_common(album_vals(files@), r.1@),
{
    let mut arts: Vec<String> = Vec::new();
    let mut albs: Vec<String> = Vec::new();
    let mut i: usize = 0;
    while i < files.len()
        invariant
            0 <= i <= files@.len(),
            arts@.map_values(|s: String| s@) == artist_vals(files@.take(i as int)),
            albs@.map_values(|s: String| s@) == album_vals(files@.take(i as int)),
        decreases files@.len() - i,
    {
        assert(files@.take(i as int + 1).drop_last() =~= files@.take(i as int));
        let (aa, a, al) = &files[i];
        let artist_val = if aa.is_some() {
            aa
        } else {
            a
        };
        let ghost pa = arts@.map_values(|s: String| s@);
        if let Some(s) = artist_val {
            if !s.as_str().is_empty() {
                arts.push(s.clone());
                assert(arts@.map_values(|s: String| s@) =~= pa.push(s@));
            }
        }
        let ghost pb = albs@.map_values(|s: String| s@);
        if let Some(s) = al {
            if !s.as_str().is_empty() {
                albs.push(s.clone());
                assert(albs@.map_values(|s: String| s@) =~= pb.push(s@));
            }
        }
        i += 1;
    }
    assert(files@.take(i as int) =~= files@);
    let artist = most_common(&arts);
    let album = most_common(&albs);
    (artist, album)
}

/// The non-empty artist values of the files, in order.
pub open spec fn artist_vals(files: Seq<(Option<String>, Option<String>, Option<String>)>) -> Seq<Seq<char>>
    decreases files.len(),
{
    if files.len() == 0 {
        Seq::empty()
    } else {
        let f = files.last();
        let v = if f.0 is Some {
            f.0
        } else {
            f.1
        };
        artist_vals(files.drop_last()) + match v {
            Some(s) => if s@.len() > 0 {
                seq![s@]
            } else {
                Seq::empty()
            },
            None => Seq::empty(),
        }
    }
}

/// The non-empty album values of the files, in order.
pub open spec fn album_vals(files: Seq<(Option<String>, Option<String>, Option<String>)>) -> Seq<Seq<char>>
    decreases files.len(),
{
    if files.len() == 0 {
        Seq::empty()
    } else {
        album_vals(files.drop_last()) + match files.last().2 {
            Some(s) => if s@.len() > 0 {
                seq![s@]
            } else {
                Seq::empty()
            },
            None => Seq::empty(),
        }
    }
}

/// The label of an album folder in progress lines: its last two components
/// joined by `/`, or the whole path when it has fewer.
pub open spec fn dir_label_spec(dir: Seq<char>) -> Seq<char> {
    let c = path_components(dir);
    if c.len() >= 2 {
        c[c.len() - 2] + "/"@ + c[c.len() - 1]
    } else {
        dir
    }
}

pub fn dir_label(dir: &str) -> (r: String)
    ensures
        r@ == dir_label_spec(dir@),
{
    let c = components(dir);
    let n = c.len();
    if n >= 2 {
        assert(c@.map_values(|s: String| s@)[n - 2] == c@[n - 2]@);
        assert(c@.map_values(|s: String| s@)[n - 1] == c@[n - 1]@);
        let mut s = c[n - 2].clone();
        push_str(&mut s, "/");
        push_str(&mut s, c[n - 1].as_str());
        s
    } else {
        dir.to_owned()
    }
}

/// Whether an image can be decoded (`image::load_from_memory` succeeds).
pub uninterp spec fn image_decodes(bytes: Seq<u8>) -> bool;

/// The JPEG bytes that `image` writes for the decoded `bytes`
/// (`DynamicImage::write_to` with `ImageFormat::Jpeg`); `None` when that
/// encoding fails.
pub uninterp spec fn jpeg_reencode(bytes: Seq<u8>) -> Option<Seq<u8>>;

/// Decodes an image of any supported format (`image::load_from_memory`) and
/// encodes it as JPEG (`DynamicImage::write_to` with `ImageFormat::Jpeg`):
/// `None` when it does not decode, `Some(None)` when the encoding fails.
/// The contract claims only that decoding succeeds exactly when
/// `image_decodes` holds and that the encoding is image's, named by
/// `jpeg_reencode`.
#[verifier::external_body]
fn reencode_jpeg(bytes: &[u8]) -> (r: Option<Option<Vec<u8>>>)
    ensures
        r is Some == image_decodes(bytes@),
        r matches Some(e) ==> match jpeg_reencode(bytes@) {
            Some(v) => e matches Some(w) && w@ == v,
            None => e is None,
        },
{
    match image::load_from_memory(bytes) {
        Err(_) => None,
        Ok(img) => {
            let mut out = std::io::Cursor::new(Vec::new());
            match img.write_to(&mut out, image::ImageFormat::Jpeg) {
                Ok(()) => Some(Some(out.into_inner())),
                Err(_) => Some(None),
            }
        },
    }
}

/// JPEG bytes of a cover image: JPEG input (starting `FF D8`) as it is, to
/// avoid generation loss; other formats decoded and re-encoded
/// (`jpeg_reencode`).
pub fn to_jpeg(bytes: &[u8]) -> (r: Result<Vec<u8>, String>)
    ensures
        bytes@.len() >= 2 && bytes@[0] == 0xFFu8 && bytes@[1] == 0xD8u8 ==> (r matches Ok(v) && v@ == bytes@),
        !(bytes@.len() >= 2 && bytes@[0] == 0xFFu8 && bytes@[1] == 0xD8u8) && !image_decodes(bytes@) ==> (r matches Err(
            m,
        ) && m@ == "unsupported image format"@),
        !(bytes@.len() >= 2 && bytes@[0] == 0xFFu8 && bytes@[1] == 0xD8u8) && image_decodes(bytes@) ==> match jpeg_reencode(
            bytes@,
        ) {
            Some(v) => r matches Ok(w) && w@ == v,
            None => r matches Err(m) && m@ == "JPEG encoding failed"@,
        },
{
    if bytes.len() >= 2 && bytes[0] == 0xFF && bytes[1] == 0xD8 {
        let mut v: Vec<u8> = Vec::new();
        let mut i: usize = 0;
        while i < bytes.len()
            invariant
                0 <= i <= bytes@.len(),
                v@ == bytes@.take(i as int),
            decreases bytes@.len() - i,
        {
            v.push(bytes[i]);
            assert(v@ =~= bytes@.take(i as int + 1));
            i += 1;
        }
        assert(bytes@.take(i as int) =~= bytes@);
        return Ok(v);
    }
    match reencode_jpeg(bytes) {
        None => Err("unsupported image format".to_owned()),
        Some(Some(v)) => Ok(v),
        Some(None) => Err("JPEG encoding failed".to_owned()),
    }
}

/// The MusicBrainz release search for an album: artist and release
/// quoted, with `"` in them escaped as `\"`.
pub open spec fn mb_query_spec(artist: Seq<char>, album: Seq<char>) -> Seq<char> {
    "artist:\""@ + replace_char(artist, '"', "\\\""@) + "\" AND release:\""@ + replace_char(album, '"', "\\\""@)
        + "\""@
}

pub fn mb_query(artist: &str, album: &str) -> (r: String)
    ensures
        r@ == mb_query_spec(artist@, album@),
{
    let mut q = "artist:\"".to_owned();
    push_replaced(&mut q, artist, '"', "\\\"");
    push_str(&mut q, "\" AND release:\"");
    push_replaced(&mut q, album, '"', "\\\"");
    push_str(&mut q, "\"");
    q
}

/// The iTunes search term for an album: artist, a space, album.
pub fn itunes_term(artist: &str, album: &str) -> (r: String)
    ensures
        r@ == artist@ + " "@ + album@,
{
    let mut t = artist.to_owned();
    push_str(&mut t, " ");
    push_str(&mut t, album);
    t
}

/// The artwork URL of the first iTunes result that has one, upgraded from
/// the 100×100 thumbnail to 1000×1000.
pub open spec fn first_artwork_spec(urls: Seq<Option<String>>) -> Option<Seq<char>>
    decreases urls.len(),
{
    if urls.len() == 0 {
        None
    } else {
        match urls[0] {
            Some(u) => Some(replace_str(u@, "100x100bb"@, "1000x1000bb"@)),
            None => first_artwork_spec(urls.drop_first()),
        }
    }
}

pub fn first_artwork(urls: &Vec<Option<String>>) -> (r: Option<String>)
    ensures
        match first_artwork_spec(urls@) {
            Some(u) => r matches Some(x) && x@ == u,
            None => r is None,
        },
{
    let mut i: usize = 0;
    assert(urls@.skip(0) =~= urls@);
    while i < urls.len()
        invariant
            0 <= i <= urls@.len(),
            first_artwork_spec(urls@) == first_artwork_spec(urls@.skip(i as int)),
        decreases urls@.len() - i,
    {
        assert(urls@.skip(i as int)[0] == urls@[i as int]);
        assert(urls@.skip(i as int).drop_first() =~= urls@.skip(i as int + 1));
        if let Some(u) = &urls[i] {
            proof {
                reveal_strlit("100x100bb");
            }
            return Some(replace_all(u.as_str(), "100x100bb", "1000x1000bb"));
        }
        i += 1;
    }
    assert(urls@.skip(i as int) =~= Seq::<Option<String>>::empty());
    None
}

} // verus!
