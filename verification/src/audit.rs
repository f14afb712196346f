//! Library audit: per-album tag and artwork problems, and the report.

use vstd::prelude::*;

use crate::order::{lemma_lex_asym, lemma_lex_irrefl, lemma_lex_total, lemma_lex_trans, lemma_sorted_set_of, lex_lt, sorted_set_of, sorted_unique, str_lt};
use crate::paths::{path_strip_prefix, strip_prefix};
use crate::text::{dec, fmt_u64, join, join_spec, push_replaced, push_str, replace_char, str_eq, to_lowercase, to_uppercase, lowercase, uppercase};

verus! {

/// High comes first in the order, so albums sort most-severe-first.
#[derive(Debug, Clone, Copy, PartialEq, Eq, PartialOrd, Ord, Structural)]
pub enum Severity {
    High,
    Medium,
    Low,
}

/// Position of a severity in the order: High 0, Medium 1, Low 2.
pub open spec fn rank(s: Severity) -> int {
    match s {
        Severity::High => 0,
        Severity::Medium => 1,
        Severity::Low => 2,
    }
}

pub fn severity_rank(s: Severity) -> (r: u8)
    ensures
        r == rank(s),
{
    match s {
        Severity::High => 0,
        Severity::Medium => 1,
        Severity::Low => 2,
    }
}

impl Severity {
    /// The label printed in front of an issue.
    pub fn label(self) -> (r: &'static str)
        ensures
            r@ == match self {
                Severity::High => "HIGH"@,
                Severity::Medium => "MED "@,
                Severity::Low => "LOW "@,
            },
    {
        match self {
            Severity::High => "HIGH",
            Severity::Medium => "MED ",
            Severity::Low => "LOW ",
        }
    }
}

#[derive(Debug, Clone)]
pub enum Issue {
    MissingTag {
        field: String,
        /// Number of tracks in the album that lack this field.
        affected: usize,
    },
    NoCover,
    FormatMix { formats: Vec<String> },
    TrackGap { missing: Vec<u32> },
}

/// The severity of an issue: missing title, artist or album tags and missing
/// artwork are high, a missing track number, a format mix and track gaps are
/// medium, any other missing tag is low.
pub open spec fn severity_of(i: Issue) -> Severity {
    match i {
        Issue::NoCover => Severity::High,
        Issue::MissingTag { field, .. } => if field@ == "title"@ || field@ == "artist"@ || field@
            == "album"@ {
            Severity::High
        } else if field@ == "track_num"@ {
            Severity::Medium
        } else {
            Severity::Low
        },
        Issue::FormatMix { .. } => Severity::Medium,
        Issue::TrackGap { .. } => Severity::Medium,
    }
}

/// Decimal forms of `nums`.
pub open spec fn decs(nums: Seq<u32>) -> Seq<Seq<char>> {
    nums.map_values(|n: u32| dec(n as nat))
}

/// The one-line description of an issue.
pub open spec fn description_of(i: Issue) -> Seq<char> {
    match i {
        Issue::NoCover => "no cover art"@,
        Issue::MissingTag { field, affected } => dec(affected as nat) + " track(s) missing "@
            + field@ + " tag"@,
        Issue::FormatMix { formats } => "format mix: "@ + join_spec(
            formats@.map_values(|f: String| f@),
            " + "@,
        ),
        Issue::TrackGap { missing } => {
            let nums = decs(missing@);
            if nums.len() <= 4 {
                "track gaps: "@ + join_spec(nums, ", "@)
            } else {
                "track gaps: "@ + join_spec(nums.take(3), ", "@) + " (and "@ + dec(
                    (nums.len() - 3) as nat,
                ) + " more)"@
            }
        },
    }
}

impl Issue {
    pub fn severity(&self) -> (r: Severity)
        ensures
            r == severity_of(*self),
    {
        match self {
            Issue::NoCover => Severity::High,
            Issue::MissingTag { field, .. } => {
                if str_eq(field.as_str(), "title") || str_eq(field.as_str(), "artist") || str_eq(
                    field.as_str(),
                    "album",
                ) {
                    Severity::High
                } else if str_eq(field.as_str(), "track_num") {
                    Severity::Medium
                } else {
                    Severity::Low
                }
            },
            Issue::FormatMix { .. } => Severity::Medium,
            Issue::TrackGap { .. } => Severity::Medium,
        }
    }

    /// A human-readable description; track gaps beyond four are summarised
    /// as the first three and a count of the rest.
    pub fn description(&self) -> (r: String)
        ensures
            r@ == description_of(*self),
    {
        match self {
            Issue::NoCover => "no cover art".to_owned(),
            Issue::MissingTag { field, affected } => {
                let mut s = fmt_u64(*affected as u64);
                push_str(&mut s, " track(s) missing ");
                push_str(&mut s, field.as_str());
                push_str(&mut s, " tag");
                s
            },
            Issue::FormatMix { formats } => {
                let mut s = "format mix: ".to_owned();
                let j = join(formats.as_slice(), " + ");
                push_str(&mut s, j.as_str());
                s
            },
            Issue::TrackGap { missing } => {
                let mut nums: Vec<String> = Vec::new();
                let mut i: usize = 0;
                while i < missing.len()
                    invariant
                        0 <= i <= missing@.len(),
                        nums@.map_values(|s: String| s@) == decs(missing@.take(i as int)),
                    decreases missing@.len() - i,
                {
                    let ghost prev = nums@.map_values(|s: String| s@);
                    let d = fmt_u64(missing[i] as u64);
                    assert(d@ == dec(missing@[i as int] as nat));
                    nums.push(d);
                    assert(nums@.map_values(|s: String| s@) =~= prev.push(d@));
                    assert(decs(missing@.take(i as int + 1)) =~= decs(missing@.take(i as int)).push(
                        dec(missing@[i as int] as nat),
                    ));
                    i += 1;
                }
                assert(missing@.take(i as int) =~= missing@);
                let ghost ns = decs(missing@);
                let mut s = "track gaps: ".to_owned();
                if nums.len() <= 4 {
                    let j = join(nums.as_slice(), ", ");
                    push_str(&mut s, j.as_str());
                } else {
                    let mut first: Vec<String> = Vec::new();
                    first.push(nums[0].clone());
                    first.push(nums[1].clone());
                    first.push(nums[2].clone());
                    assert(first@.map_values(|s: String| s@) =~= ns.take(3));
                    let j = join(first.as_slice(), ", ");
                    push_str(&mut s, j.as_str());
                    push_str(&mut s, " (and ");
                    let more = fmt_u64((nums.len() - 3) as u64);
                    push_str(&mut s, more.as_str());
                    push_str(&mut s, " more)");
                }
                s
            },
        }
    }
}

#[derive(Debug, Clone)]
pub struct AlbumIssue {
    pub severity: Severity,
    pub issue: Issue,
}

#[derive(Debug, Clone)]
pub struct AlbumReport {
    /// Path of the album folder.
    pub path: String,
    /// Human-readable "Artist / Album" label derived from tags or folder name.
    pub display: String,
    pub track_count: usize,
    pub issues: Vec<AlbumIssue>,
}

/// The most severe of the severities of `s` (least in the order).
pub open spec fn min_severity(s: Seq<AlbumIssue>) -> Option<Severity>
    decreases s.len(),
{
    if s.len() == 0 {
        None
    } else {
        match min_severity(s.drop_last()) {
            None => Some(s.last().severity),
            Some(m) => if rank(s.last().severity) < rank(m) {
                Some(s.last().severity)
            } else {
                Some(m)
            },
        }
    }
}

impl AlbumReport {
    /// The most severe issue's severity; `None` without issues.
    pub fn max_severity(&self) -> (r: Option<Severity>)
        ensures
            r == min_severity(self.issues@),
            r is None <==> self.issues@.len() == 0,
    {
        let mut best: Option<Severity> = None;
        let mut i: usize = 0;
        while i < self.issues.len()
            invariant
                0 <= i <= self.issues@.len(),
                best == min_severity(self.issues@.take(i as int)),
                best is None <==> i == 0,
            decreases self.issues@.len() - i,
        {
            assert(self.issues@.take(i as int + 1).drop_last() =~= self.issues@.take(i as int));
            let s = self.issues[i].severity;
            best = match best {
                None => Some(s),
                Some(m) => if severity_rank(s) < severity_rank(m) {
                    Some(s)
                } else {
                    Some(m)
                },
            };
            i += 1;
        }
        assert(self.issues@.take(i as int) =~= self.issues@);
        best
    }
}

#[derive(Debug, Clone)]
pub struct AuditReport {
    pub library: String,
    pub albums_scanned: usize,
    pub tracks_scanned: usize,
    pub albums_with_issues: usize,
    pub issues_total: usize,
    pub high: usize,
    pub medium: usize,
    pub low: usize,
    /// Only albums that have at least one issue; sorted high → low severity.
    pub albums: Vec<AlbumReport>,
}

// ── Audio files ──────────────────────────────────────────────────────────────

/// Extensions (lowercase) counted as audio.
pub open spec fn audio_exts() -> Seq<Seq<char>> {
    seq![
        "flac"@,
        "mp3"@,
        "m4a"@,
        "aac"@,
        "ogg"@,
        "opus"@,
        "wav"@,
        "aiff"@,
        "aif"@,
        "dsf"@,
        "dff"@,
        "wv"@,
        "ape"@,
    ]
}

/// Whether a file extension (any case) is an audio extension.
pub fn is_audio_ext(ext: &str) -> (r: bool)
    ensures
        r == audio_exts().contains(lowercase(ext@)),
{
    let lower = to_lowercase(ext);
    let l = lower.as_str();
    let r = str_eq(l, "flac") || str_eq(l, "mp3") || str_eq(l, "m4a") || str_eq(l, "aac")
        || str_eq(l, "ogg") || str_eq(l, "opus") || str_eq(l, "wav") || str_eq(l, "aiff")
        || str_eq(l, "aif") || str_eq(l, "dsf") || str_eq(l, "dff") || str_eq(l, "wv") || str_eq(
        l,
        "ape",
    );
    proof {
        let e = audio_exts();
        if r {
            let k = choose|k: int|
                0 <= k < 13 && e[k] == lowercase(ext@);
            assert(e.contains(lowercase(ext@)));
        }
        if e.contains(lowercase(ext@)) {
            let k = choose|k: int| 0 <= k < e.len() && e[k] == lowercase(ext@);
            assert(e[k] == l@);
        }
    }
    r
}

/// File names (lowercase) of folder cover images.
pub open spec fn cover_names() -> Seq<Seq<char>> {
    seq![
        "folder.jpg"@,
        "folder.jpeg"@,
        "cover.jpg"@,
        "cover.jpeg"@,
        "front.jpg"@,
        "front.jpeg"@,
        "album.jpg"@,
        "album.jpeg"@,
    ]
}

/// Whether a file name (any case) is that of a folder cover image.
pub fn is_cover_name(name: &str) -> (r: bool)
    ensures
        r == cover_names().contains(lowercase(name@)),
{
    let lower = to_lowercase(name);
    let l = lower.as_str();
    let r = str_eq(l, "folder.jpg") || str_eq(l, "folder.jpeg") || str_eq(l, "cover.jpg") || str_eq(
        l,
        "cover.jpeg",
    ) || str_eq(l, "front.jpg") || str_eq(l, "front.jpeg") || str_eq(l, "album.jpg") || str_eq(
        l,
        "album.jpeg",
    );
    proof {
        let e = cover_names();
        if r {
            let k = choose|k: int| 0 <= k < 8 && e[k] == lowercase(name@);
            assert(e.contains(lowercase(name@)));
        }
        if e.contains(lowercase(name@)) {
            let k = choose|k: int| 0 <= k < e.len() && e[k] == lowercase(name@);
            assert(e[k] == l@);
        }
    }
    r
}

/// The label of an album: `Artist / Album` from the tags of its first audio
/// file when both are present and non-empty, else the folder's path below
/// the library root with `/` separators.
pub open spec fn album_display_spec(
    artist: Option<Seq<char>>,
    album: Option<Seq<char>>,
    dir: Seq<char>,
    library: Seq<char>,
) -> Seq<char> {
    match (artist, album) {
        (Some(ar), Some(al)) if ar.len() > 0 && al.len() > 0 => ar + " / "@ + al,
        _ => replace_char(
            match path_strip_prefix(dir, library) {
                Some(rel) => rel,
                None => dir,
            },
            '\\',
            "/"@,
        ),
    }
}

pub fn album_display(artist: Option<&str>, album: Option<&str>, dir: &str, library: &str) -> (r: String)
    ensures
        r@ == album_display_spec(
            match artist {
                Some(a) => Some(a@),
                None => None,
            },
            match album {
                Some(a) => Some(a@),
                None => None,
            },
            dir@,
            library@,
        ),
{
    if let (Some(ar), Some(al)) = (artist, album) {
        if !ar.is_empty() && !al.is_empty() {
            let mut s = ar.to_owned();
            push_str(&mut s, " / ");
            push_str(&mut s, al);
            return s;
        }
    }
    let rel = match strip_prefix(dir, library) {
        Some(r) => r,
        None => dir.to_owned(),
    };
    let mut out = String::new();
    push_replaced(&mut out, rel.as_str(), '\\', "/");
    assert(out@ =~= replace_char(rel@, '\\', "/"@));
    out
}

} // verus!

verus! {

// ── Analysis of one album ────────────────────────────────────────────────────

/// What the audit reads from one track's tags.
#[derive(Debug, Clone)]
pub struct TrackMeta {
    /// File extension, lowercased.
    pub ext: String,
    pub title_ok: bool,
    pub artist_ok: bool,
    pub album_ok: bool,
    pub track_num: Option<u32>,
    pub year_ok: bool,
    pub has_embedded_cover: bool,
}

/// An issue as (variant, field, affected, formats, missing) with variants
/// 0 missing tag, 1 no cover, 2 format mix, 3 track gap.
pub type IssueV = (u8, Seq<char>, nat, Seq<Seq<char>>, Seq<u32>);

impl View for Issue {
    type V = IssueV;

    open spec fn view(&self) -> IssueV {
        match *self {
            Issue::MissingTag { field, affected } => (0, field@, affected as nat, Seq::empty(), Seq::empty()),
            Issue::NoCover => (1, Seq::empty(), 0, Seq::empty(), Seq::empty()),
            Issue::FormatMix { formats } => (2, Seq::empty(), 0, formats@.map_values(|f: String| f@), Seq::empty()),
            Issue::TrackGap { missing } => (3, Seq::empty(), 0, Seq::empty(), missing@),
        }
    }
}

impl View for AlbumIssue {
    type V = (Severity, IssueV);

    open spec fn view(&self) -> (Severity, IssueV) {
        (self.severity, self.issue@)
    }
}

pub open spec fn missing_tag_v(field: Seq<char>, n: nat) -> IssueV {
    (0, field, n, Seq::empty(), Seq::empty())
}

pub open spec fn no_cover_v() -> IssueV {
    (1, Seq::empty(), 0, Seq::empty(), Seq::empty())
}

pub open spec fn format_mix_v(f: Seq<Seq<char>>) -> IssueV {
    (2, Seq::empty(), 0, f, Seq::empty())
}

pub open spec fn track_gap_v(m: Seq<u32>) -> IssueV {
    (3, Seq::empty(), 0, Seq::empty(), m)
}

/// Whether track `m` lacks tag field `f` (0 title, 1 artist, 2 album,
/// 3 track number, 4 year).
pub open spec fn lacks(m: TrackMeta, f: int) -> bool {
    if f == 0 {
        !m.title_ok
    } else if f == 1 {
        !m.artist_ok
    } else if f == 2 {
        !m.album_ok
    } else if f == 3 {
        m.track_num is None
    } else {
        !m.year_ok
    }
}

pub open spec fn field_name(f: int) -> Seq<char> {
    if f == 0 {
        "title"@
    } else if f == 1 {
        "artist"@
    } else if f == 2 {
        "album"@
    } else if f == 3 {
        "track_num"@
    } else {
        "year"@
    }
}

pub open spec fn field_severity(f: int) -> Severity {
    if f <= 2 {
        Severity::High
    } else if f == 3 {
        Severity::Medium
    } else {
        Severity::Low
    }
}

pub open spec fn count_lacking(t: Seq<TrackMeta>, f: int) -> nat
    decreases t.len(),
{
    if t.len() == 0 {
        0
    } else {
        count_lacking(t.drop_last(), f) + if lacks(t.last(), f) {
            1nat
        } else {
            0nat
        }
    }
}

/// The missing-tag issue for field `f`, when some track lacks it.
pub open spec fn tag_issue(t: Seq<TrackMeta>, f: int) -> Seq<(Severity, IssueV)> {
    if count_lacking(t, f) > 0 {
        seq![(field_severity(f), missing_tag_v(field_name(f), count_lacking(t, f)))]
    } else {
        Seq::empty()
    }
}

pub open spec fn any_embedded(t: Seq<TrackMeta>) -> bool {
    exists|k: int| 0 <= k < t.len() && #[trigger] t[k].has_embedded_cover
}

pub open spec fn upper_exts(t: Seq<TrackMeta>) -> Seq<Seq<char>> {
    t.map_values(|m: TrackMeta| uppercase(m.ext@))
}

pub open spec fn all_numbered(t: Seq<TrackMeta>) -> bool {
    t.len() > 0 && forall|k: int| 0 <= k < t.len() ==> (#[trigger] t[k]).track_num is Some
}

/// Largest track number (0 when none).
pub open spec fn max_num(t: Seq<TrackMeta>) -> nat
    decreases t.len(),
{
    if t.len() == 0 {
        0
    } else {
        let m = max_num(t.drop_last());
        match t.last().track_num {
            Some(n) => if n as nat > m {
                n as nat
            } else {
                m
            },
            None => m,
        }
    }
}

pub open spec fn has_num(t: Seq<TrackMeta>, n: nat) -> bool {
    exists|k: int| 0 <= k < t.len() && (#[trigger] t[k]).track_num == Some(n as u32)
}

/// The numbers `1..=n` that no track carries, ascending.
pub open spec fn gaps_upto(t: Seq<TrackMeta>, n: nat) -> Seq<u32>
    decreases n,
{
    if n == 0 {
        Seq::empty()
    } else {
        let prev = gaps_upto(t, (n - 1) as nat);
        if has_num(t, n) {
            prev
        } else {
            prev.push(n as u32)
        }
    }
}

/// Issues of an album in the order they are found.
pub open spec fn raw_issues(t: Seq<TrackMeta>, folder_cover: bool) -> Seq<(Severity, IssueV)> {
    let tags = tag_issue(t, 0) + tag_issue(t, 1) + tag_issue(t, 2) + tag_issue(t, 3) + tag_issue(
        t,
        4,
    );
    let cover = if !any_embedded(t) && !folder_cover {
        seq![(Severity::High, no_cover_v())]
    } else {
        Seq::empty()
    };
    let formats = sorted_set_of(upper_exts(t));
    let mix = if formats.len() > 1 {
        seq![(Severity::Medium, format_mix_v(formats))]
    } else {
        Seq::empty()
    };
    let gap = if all_numbered(t) && gaps_upto(t, max_num(t)).len() > 0 {
        seq![(Severity::Medium, track_gap_v(gaps_upto(t, max_num(t))))]
    } else {
        Seq::empty()
    };
    tags + cover + mix + gap
}

/// `x` inserted after every element of no greater rank.
pub open spec fn insert_by_rank(s: Seq<(Severity, IssueV)>, x: (Severity, IssueV)) -> Seq<
    (Severity, IssueV),
> {
    s.insert(rank_upper(s, rank(x.0), 0), x)
}

pub open spec fn rank_upper(s: Seq<(Severity, IssueV)>, r: int, i: int) -> int
    decreases s.len() - i,
{
    if i < 0 || i >= s.len() {
        s.len() as int
    } else if rank(s[i].0) > r {
        i
    } else {
        rank_upper(s, r, i + 1)
    }
}

/// Stable sort by severity, most severe first.
pub open spec fn sort_by_rank(s: Seq<(Severity, IssueV)>) -> Seq<(Severity, IssueV)>
    decreases s.len(),
{
    if s.len() == 0 {
        s
    } else {
        insert_by_rank(sort_by_rank(s.drop_last()), s.last())
    }
}

/// The issues `analyze_album` reports.
pub open spec fn analyze_spec(t: Seq<TrackMeta>, folder_cover: bool) -> Seq<(Severity, IssueV)> {
    sort_by_rank(raw_issues(t, folder_cover))
}

proof fn lemma_rank_upper_bounds(s: Seq<(Severity, IssueV)>, r: int, i: int)
    requires
        0 <= i <= s.len(),
    ensures
        i <= rank_upper(s, r, i) <= s.len(),
    decreases s.len() - i,
{
    if i < s.len() && rank(s[i].0) <= r {
        lemma_rank_upper_bounds(s, r, i + 1);
    }
}

/// Sorting by severity keeps exactly the issues it is given.
proof fn lemma_sort_by_rank_members(s: Seq<(Severity, IssueV)>, x: (Severity, IssueV))
    ensures
        sort_by_rank(s).contains(x) <==> s.contains(x),
    decreases s.len(),
{
    if s.len() > 0 {
        let p = sort_by_rank(s.drop_last());
        lemma_sort_by_rank_members(s.drop_last(), x);
        let y = s.last();
        let i = rank_upper(p, rank(y.0), 0);
        lemma_rank_upper_bounds(p, rank(y.0), 0);
        let q = p.insert(i, y);
        assert(sort_by_rank(s) == q);
        assert(s =~= s.drop_last().push(y));
        if q.contains(x) {
            let j = choose|j: int| 0 <= j < q.len() && q[j] == x;
            if j < i {
                assert(p[j] == x);
            } else if j > i {
                assert(p[j - 1] == x);
            }
            if x != y {
                assert(s.drop_last().contains(x));
                let k = choose|k: int| 0 <= k < s.drop_last().len() && s.drop_last()[k] == x;
                assert(s[k] == x);
            } else {
                assert(s[s.len() - 1] == x);
            }
        }
        if s.contains(x) {
            if x == y {
                assert(q[i] == x);
            } else {
                let k = choose|k: int| 0 <= k < s.len() && s[k] == x;
                assert(k < s.len() - 1);
                assert(s.drop_last()[k] == x);
                assert(p.contains(x));
                let j = choose|j: int| 0 <= j < p.len() && p[j] == x;
                if j < i {
                    assert(q[j] == x);
                } else {
                    assert(q[j + 1] == x);
                }
            }
        }
    }
}

proof fn lemma_max_num_bound(t: Seq<TrackMeta>)
    ensures
        max_num(t) <= u32::MAX,
    decreases t.len(),
{
    if t.len() > 0 {
        lemma_max_num_bound(t.drop_last());
    }
}

/// The track-number gaps up to `n` are exactly the numbers from 1 to `n`
/// that no track carries, in ascending order.
pub proof fn lemma_gaps_upto(t: Seq<TrackMeta>, n: nat)
    requires
        n <= u32::MAX,
    ensures
        forall|m: u32|
            1 <= m <= n ==> (gaps_upto(t, n).contains(m) <==> !(exists|k: int|
                0 <= k < t.len() && (#[trigger] t[k]).track_num == Some(m))),
        forall|i: int| 0 <= i < gaps_upto(t, n).len() ==> 1 <= #[trigger] gaps_upto(t, n)[i] <= n,
        forall|i: int, j: int| 0 <= i < j < gaps_upto(t, n).len() ==> gaps_upto(t, n)[i] < gaps_upto(t, n)[j],
    decreases n,
{
    if n > 0 {
        let prev = gaps_upto(t, (n - 1) as nat);
        lemma_gaps_upto(t, (n - 1) as nat);
        let g = gaps_upto(t, n);
        assert forall|m: u32| 1 <= m <= n implies (g.contains(m) <==> !(exists|k: int|
            0 <= k < t.len() && (#[trigger] t[k]).track_num == Some(m))) by {
            if m < n {
                if g.contains(m) && !prev.contains(m) {
                    let j = choose|j: int| 0 <= j < g.len() && g[j] == m;
                    assert(j == g.len() - 1);
                }
                if prev.contains(m) {
                    let j = choose|j: int| 0 <= j < prev.len() && prev[j] == m;
                    assert(g[j] == m);
                }
            } else {
                if prev.contains(m) {
                    let j = choose|j: int| 0 <= j < prev.len() && prev[j] == m;
                    assert(prev[j] <= n - 1);
                }
                if !has_num(t, n) {
                    assert(g[g.len() - 1] == m);
                }
            }
        }
    }
}

/// An album whose tracks are all numbered and that lacks some number
/// between 1 and its highest track number is reported with a track-gap
/// issue of medium severity, and the numbers that issue lists are exactly
/// those missing, ascending.
pub proof fn lemma_track_gaps_reported(t: Seq<TrackMeta>, folder_cover: bool, m: u32)
    requires
        all_numbered(t),
        1 <= m <= max_num(t),
        !(exists|k: int| 0 <= k < t.len() && (#[trigger] t[k]).track_num == Some(m)),
    ensures
        ({
            let v = gaps_upto(t, max_num(t));
            &&& analyze_spec(t, folder_cover).contains((Severity::Medium, track_gap_v(v)))
            &&& v.contains(m)
            &&& forall|x: u32| 1 <= x <= max_num(t) ==> (v.contains(x) <==> !(exists|k: int|
                0 <= k < t.len() && (#[trigger] t[k]).track_num == Some(x)))
            &&& forall|i: int, j: int| 0 <= i < j < v.len() ==> v[i] < v[j]
        }),
{
    lemma_max_num_bound(t);
    lemma_gaps_upto(t, max_num(t));
    let v = gaps_upto(t, max_num(t));
    let x = (Severity::Medium, track_gap_v(v));
    let raw = raw_issues(t, folder_cover);
    assert(v.contains(m));
    assert(v.len() > 0);
    assert(raw[raw.len() - 1] == x);
    lemma_sort_by_rank_members(raw, x);
}

fn count_lacking_exec(tracks: &[TrackMeta], f: u8) -> (r: usize)
    requires
        f <= 4,
    ensures
        r == count_lacking(tracks@, f as int),
{
    let mut n: usize = 0;
    let mut i: usize = 0;
    while i < tracks.len()
        invariant
            0 <= i <= tracks@.len(),
            f <= 4,
            n == count_lacking(tracks@.take(i as int), f as int),
            n <= i,
        decreases tracks@.len() - i,
    {
        assert(tracks@.take(i as int + 1).drop_last() =~= tracks@.take(i as int));
        let m = &tracks[i];
        let l = if f == 0 {
            !m.title_ok
        } else if f == 1 {
            !m.artist_ok
        } else if f == 2 {
            !m.album_ok
        } else if f == 3 {
            m.track_num.is_none()
        } else {
            !m.year_ok
        };
        if l {
            n += 1;
        }
        i += 1;
    }
    assert(tracks@.take(i as int) =~= tracks@);
    n
}

fn field_name_exec(f: u8) -> (r: String)
    requires
        f <= 4,
    ensures
        r@ == field_name(f as int),
{
    if f == 0 {
        "title".to_owned()
    } else if f == 1 {
        "artist".to_owned()
    } else if f == 2 {
        "album".to_owned()
    } else if f == 3 {
        "track_num".to_owned()
    } else {
        "year".to_owned()
    }
}

fn push_issue(issues: &mut Vec<AlbumIssue>, severity: Severity, issue: Issue)
    ensures
        final(issues)@.map_values(|a: AlbumIssue| a@) == old(issues)@.map_values(
            |a: AlbumIssue| a@,
        ).push((severity, issue@)),
{
    issues.push(AlbumIssue { severity, issue });
    assert(issues@.map_values(|a: AlbumIssue| a@) =~= old(issues)@.map_values(|a: AlbumIssue| a@).push(
        (severity, issue@),
    ));
}

fn max_track_num(tracks: &[TrackMeta]) -> (r: u32)
    ensures
        r == max_num(tracks@),
{
    let mut m: u32 = 0;
    let mut i: usize = 0;
    while i < tracks.len()
        invariant
            0 <= i <= tracks@.len(),
            m == max_num(tracks@.take(i as int)),
        decreases tracks@.len() - i,
    {
        assert(tracks@.take(i as int + 1).drop_last() =~= tracks@.take(i as int));
        if let Some(n) = tracks[i].track_num {
            if n > m {
                m = n;
            }
        }
        i += 1;
    }
    assert(tracks@.take(i as int) =~= tracks@);
    m
}

fn has_num_exec(tracks: &[TrackMeta], n: u32) -> (r: bool)
    ensures
        r == has_num(tracks@, n as nat),
{
    let mut i: usize = 0;
    while i < tracks.len()
        invariant
            0 <= i <= tracks@.len(),
            forall|k: int| 0 <= k < i ==> (#[trigger] tracks@[k]).track_num != Some(n),
        decreases tracks@.len() - i,
    {
        if tracks[i].track_num == Some(n) {
            return true;
        }
        i += 1;
    }
    false
}

/// Finds the problems of one album: for each of title, artist, album, track
/// number and year, how many tracks lack it; no artwork (neither embedded in
/// a track nor `folder_has_cover`); more than one file format (the distinct
/// uppercased extensions, ascending); and, when every track is numbered, the
/// numbers from 1 to the highest that no track carries. Issues come out most
/// severe first, in the order above among equals.
pub fn analyze_album(tracks: &[TrackMeta], folder_has_cover: bool) -> (r: Vec<AlbumIssue>)
    ensures
        r@.map_values(|a: AlbumIssue| a@) == analyze_spec(tracks@, folder_has_cover),
        r@.len() <= 8,
{
    let mut issues: Vec<AlbumIssue> = Vec::new();
    let ghost t = tracks@;
    let mut f: u8 = 0;
    assert(issues@.map_values(|a: AlbumIssue| a@) =~= Seq::<(Severity, IssueV)>::empty());
    while f < 5
        invariant
            0 <= f <= 5,
            t == tracks@,
            issues@.len() <= f,
            issues@.map_values(|a: AlbumIssue| a@) == (if f == 0 {
                Seq::empty()
            } else if f == 1 {
                tag_issue(t, 0)
            } else if f == 2 {
                tag_issue(t, 0) + tag_issue(t, 1)
            } else if f == 3 {
                tag_issue(t, 0) + tag_issue(t, 1) + tag_issue(t, 2)
            } else if f == 4 {
                tag_issue(t, 0) + tag_issue(t, 1) + tag_issue(t, 2) + tag_issue(t, 3)
            } else {
                tag_issue(t, 0) + tag_issue(t, 1) + tag_issue(t, 2) + tag_issue(t, 3) + tag_issue(
                    t,
                    4,
                )
            }),
        decreases 5 - f,
    {
        let ghost before = issues@.map_values(|a: AlbumIssue| a@);
        let affected = count_lacking_exec(tracks, f);
        if affected > 0 {
            let field = field_name_exec(f);
            let issue = Issue::MissingTag { field, affected };
            let severity = if f <= 2 {
                Severity::High
            } else if f == 3 {
                Severity::Medium
            } else {
                Severity::Low
            };
            push_issue(&mut issues, severity, issue);
            assert(before.push((severity, issue@)) =~= before + tag_issue(t, f as int));
        } else {
            assert(before =~= before + tag_issue(t, f as int));
        }
        f += 1;
    }
    // Cover art.
    let mut has_embedded = false;
    let mut i: usize = 0;
    while i < tracks.len()
        invariant
            0 <= i <= tracks@.len(),
            has_embedded <==> exists|k: int| 0 <= k < i && #[trigger] tracks@[k].has_embedded_cover,
        decreases tracks@.len() - i,
    {
        if tracks[i].has_embedded_cover {
            has_embedded = true;
        }
        i += 1;
    }
    let ghost after_tags = issues@.map_values(|a: AlbumIssue| a@);
    if !has_embedded && !folder_has_cover {
        push_issue(&mut issues, Severity::High, Issue::NoCover);
    }
    // Format mix.
    let ghost after_cover = issues@.map_values(|a: AlbumIssue| a@);
    let mut exts: Vec<String> = Vec::new();
    let mut i: usize = 0;
    while i < tracks.len()
        invariant
            0 <= i <= tracks@.len(),
            exts@.map_values(|s: String| s@) == upper_exts(tracks@.take(i as int)),
        decreases tracks@.len() - i,
    {
        let ghost prev = exts@.map_values(|s: String| s@);
        let u = to_uppercase(tracks[i].ext.as_str());
        exts.push(u);
        assert(exts@.map_values(|s: String| s@) =~= prev.push(u@));
        assert(upper_exts(tracks@.take(i as int + 1)) =~= upper_exts(tracks@.take(i as int)).push(
            uppercase(tracks@[i as int].ext@),
        ));
        i += 1;
    }
    assert(tracks@.take(i as int) =~= tracks@);
    let formats = sorted_unique(&exts);
    proof {
        lemma_sorted_set_of(formats@.map_values(|s: String| s@), upper_exts(tracks@));
    }
    if formats.len() > 1 {
        let issue = Issue::FormatMix { formats };
        push_issue(&mut issues, Severity::Medium, issue);
    }
    // Track number gaps, only when every track has a number.
    let ghost after_mix = issues@.map_values(|a: AlbumIssue| a@);
    let mut numbered = tracks.len() > 0;
    let mut i: usize = 0;
    while i < tracks.len()
        invariant
            0 <= i <= tracks@.len(),
            numbered <==> (tracks@.len() > 0 && forall|k: int|
                0 <= k < i ==> (#[trigger] tracks@[k]).track_num is Some),
        decreases tracks@.len() - i,
    {
        if tracks[i].track_num.is_none() {
            numbered = false;
        }
        i += 1;
    }
    if numbered {
        let max = max_track_num(tracks);
        let mut missing: Vec<u32> = Vec::new();
        let mut n: u64 = 1;
        while n <= max as u64
            invariant
                1 <= n <= max as u64 + 1,
                max == max_num(tracks@),
                missing@ == gaps_upto(tracks@, (n - 1) as nat),
            decreases max as u64 + 1 - n,
        {
            if !has_num_exec(tracks, n as u32) {
                missing.push(n as u32);
            }
            n += 1;
        }
        if missing.len() > 0 {
            push_issue(&mut issues, Severity::Medium, Issue::TrackGap { missing });
        }
    }
    assert(issues@.map_values(|a: AlbumIssue| a@) =~= raw_issues(tracks@, folder_has_cover));
    sort_issues(issues)
}

fn sort_issues(issues: Vec<AlbumIssue>) -> (r: Vec<AlbumIssue>)
    ensures
        r@.map_values(|a: AlbumIssue| a@) == sort_by_rank(issues@.map_values(|a: AlbumIssue| a@)),
        r@.len() == issues@.len(),
{
    let ghost src = issues@.map_values(|a: AlbumIssue| a@);
    let mut rest = issues;
    let mut out: Vec<AlbumIssue> = Vec::new();
    let ghost mut i: int = 0;
    assert(src.take(0) =~= Seq::<(Severity, IssueV)>::empty());
    while rest.len() > 0
        invariant
            0 <= i <= src.len(),
            rest@.map_values(|a: AlbumIssue| a@) == src.skip(i),
            out@.map_values(|a: AlbumIssue| a@) == sort_by_rank(src.take(i)),
            out@.len() == i,
            src.len() == issues@.len(),
        decreases rest@.len(),
    {
        let ghost rv = rest@.map_values(|a: AlbumIssue| a@);
        assert(rv.len() == src.len() - i);
        assert(rv[0] == src[i]);
        let ghost r0 = rest@;
        let x = rest.remove(0);
        assert(rest@ =~= r0.remove(0));
        assert(rest@.map_values(|a: AlbumIssue| a@) =~= rv.drop_first());
        assert(rv.drop_first() =~= src.skip(i + 1));
        let ghost xv = x@;
        assert(xv == rv[0]);
        assert(rest@.map_values(|a: AlbumIssue| a@) =~= src.skip(i + 1));
        let ghost s = out@.map_values(|a: AlbumIssue| a@);
        let r = severity_rank(x.severity);
        let mut p: usize = 0;
        while p < out.len() && severity_rank(out[p].severity) <= r
            invariant
                0 <= p <= out@.len(),
                s == out@.map_values(|a: AlbumIssue| a@),
                rank_upper(s, r as int, 0) == rank_upper(s, r as int, p as int),
            decreases out@.len() - p,
        {
            assert(s[p as int] == out@[p as int]@);
            p += 1;
        }
        proof {
            if p < out@.len() {
                assert(s[p as int] == out@[p as int]@);
            }
        }
        out.insert(p, x);
        assert(out@.map_values(|a: AlbumIssue| a@) =~= s.insert(p as int, xv));
        assert(src.take(i + 1).drop_last() =~= src.take(i));
        assert(src.take(i + 1).last() == xv);
        proof {
            i = i + 1;
        }
    }
    assert(src.take(i) =~= src);
    out
}

// ── Report ───────────────────────────────────────────────────────────────────

/// An album report as (path, display, track count, issues).
pub type ReportV = (Seq<char>, Seq<char>, nat, Seq<(Severity, IssueV)>);

impl View for AlbumReport {
    type V = ReportV;

    open spec fn view(&self) -> ReportV {
        (self.path@, self.display@, self.track_count as nat, self.issues@.map_values(|a: AlbumIssue| a@))
    }
}

/// Rank of the most severe issue; that of Low when there is none.
pub open spec fn min_rank(s: Seq<(Severity, IssueV)>) -> int
    decreases s.len(),
{
    if s.len() == 0 {
        2
    } else {
        let m = min_rank(s.drop_last());
        if rank(s.last().0) < m {
            rank(s.last().0)
        } else {
            m
        }
    }
}

/// `a` sorts strictly after `x`: less severe, or as severe and after it
/// alphabetically.
pub open spec fn report_after(a: ReportV, x: ReportV) -> bool {
    min_rank(a.3) > min_rank(x.3) || (min_rank(a.3) == min_rank(x.3) && lex_lt(x.1, a.1))
}

/// Index of the first report from `i` on that sorts after `x`.
pub open spec fn report_upper(s: Seq<ReportV>, x: ReportV, i: int) -> int
    decreases s.len() - i,
{
    if i < 0 || i >= s.len() {
        s.len() as int
    } else if report_after(s[i], x) {
        i
    } else {
        report_upper(s, x, i + 1)
    }
}

/// Stable sort of album reports: most severe first, then alphabetically by
/// display label; equal keys keep their order.
pub open spec fn sort_reports_spec(s: Seq<ReportV>) -> Seq<ReportV>
    decreases s.len(),
{
    if s.len() == 0 {
        s
    } else {
        let t = sort_reports_spec(s.drop_last());
        t.insert(report_upper(t, s.last(), 0), s.last())
    }
}

/// Reports in ascending order: none sorts after a later one.
pub open spec fn reports_sorted(s: Seq<ReportV>) -> bool {
    forall|i: int, j: int| 0 <= i < j < s.len() ==> !report_after(#[trigger] s[i], #[trigger] s[j])
}

/// One album folder as the audit saw it.
#[derive(Debug, Clone)]
pub struct AlbumInput {
    /// Path of the album folder.
    pub path: String,
    /// "Artist / Album" label (see `album_display`).
    pub display: String,
    /// Metadata of the folder's audio files.
    pub tracks: Vec<TrackMeta>,
    /// The folder holds a cover image file (see `is_cover_name`).
    pub folder_has_cover: bool,
}

/// The report of an album.
pub open spec fn report_of(a: AlbumInput) -> ReportV {
    (a.path@, a.display@, a.tracks@.len(), analyze_spec(a.tracks@, a.folder_has_cover))
}

/// Reports of the albums that have issues, in input order.
pub open spec fn reports_of(inputs: Seq<AlbumInput>) -> Seq<ReportV>
    decreases inputs.len(),
{
    if inputs.len() == 0 {
        Seq::empty()
    } else {
        reports_of(inputs.drop_last()) + if analyze_spec(inputs.last().tracks@, inputs.last().folder_has_cover).len() > 0 {
            seq![report_of(inputs.last())]
        } else {
            Seq::empty()
        }
    }
}

/// Number of tracks of the first `n` albums.
pub open spec fn tracks_in(inputs: Seq<AlbumInput>, n: nat) -> nat
    decreases n,
{
    if n == 0 {
        0
    } else {
        tracks_in(inputs, (n - 1) as nat) + inputs[n - 1].tracks@.len()
    }
}

/// Number of issues of severity `sev` (any, for `None`) in the first `n`
/// reports.
pub open spec fn issues_in(rs: Seq<ReportV>, n: nat, sev: Option<Severity>) -> nat
    decreases n,
{
    if n == 0 {
        0
    } else {
        issues_in(rs, (n - 1) as nat, sev) + match sev {
            None => rs[n - 1].3.len(),
            Some(s) => rs[n - 1].3.filter(|i: (Severity, IssueV)| i.0 == s).len(),
        }
    }
}

fn issues_min_rank(issues: &Vec<AlbumIssue>) -> (r: u8)
    ensures
        r == min_rank(issues@.map_values(|a: AlbumIssue| a@)),
{
    let ghost v = issues@.map_values(|a: AlbumIssue| a@);
    let mut m: u8 = 2;
    let mut i: usize = 0;
    while i < issues.len()
        invariant
            0 <= i <= issues@.len(),
            v == issues@.map_values(|a: AlbumIssue| a@),
            m == min_rank(v.take(i as int)),
        decreases issues@.len() - i,
    {
        assert(v.take(i as int + 1).drop_last() =~= v.take(i as int));
        assert(v[i as int] == issues@[i as int]@);
        let r = severity_rank(issues[i].severity);
        if r < m {
            m = r;
        }
        i += 1;
    }
    assert(v.take(i as int) =~= v);
    m
}

/// `report_after` orders reports: it is transitive and asymmetric, and of
/// two reports with different keys one sorts after the other.
proof fn lemma_after_trans(a: ReportV, b: ReportV, c: ReportV)
    requires
        report_after(a, b),
        report_after(b, c),
    ensures
        report_after(a, c),
{
    if min_rank(a.3) == min_rank(b.3) && min_rank(b.3) == min_rank(c.3) {
        lemma_lex_trans(c.1, b.1, a.1);
    }
}

proof fn lemma_after_asym(a: ReportV, b: ReportV)
    requires
        report_after(a, b),
    ensures
        !report_after(b, a),
{
    if min_rank(a.3) == min_rank(b.3) {
        lemma_lex_asym(b.1, a.1);
    }
}

fn report_after_exec(a: &AlbumReport, x: &AlbumReport) -> (r: bool)
    ensures
        r == report_after(a@, x@),
{
    let ra = issues_min_rank(&a.issues);
    let rx = issues_min_rank(&x.issues);
    ra > rx || (ra == rx && str_lt(x.display.as_str(), a.display.as_str()))
}

/// Sorts album reports most severe first, then by display label, keeping
/// the order of equal keys.
pub fn sort_reports(reports: Vec<AlbumReport>) -> (r: Vec<AlbumReport>)
    ensures
        r@.map_values(|a: AlbumReport| a@) == sort_reports_spec(reports@.map_values(|a: AlbumReport| a@)),
        reports_sorted(r@.map_values(|a: AlbumReport| a@)),
        forall|k: int|
            0 <= k < r@.len() ==> reports@.map_values(|a: AlbumReport| a@).contains(#[trigger] r@[k]@),
        r@.len() == reports@.len(),
{
    let ghost src = reports@.map_values(|a: AlbumReport| a@);
    let mut rest = reports;
    let mut out: Vec<AlbumReport> = Vec::new();
    let ghost mut i: int = 0;
    assert(src.take(0) =~= Seq::<ReportV>::empty());
    while rest.len() > 0
        invariant
            0 <= i <= src.len(),
            rest@.map_values(|a: AlbumReport| a@) == src.skip(i),
            out@.map_values(|a: AlbumReport| a@) == sort_reports_spec(src.take(i)),
            reports_sorted(out@.map_values(|a: AlbumReport| a@)),
            forall|k: int| 0 <= k < out@.len() ==> src.take(i).contains(#[trigger] out@[k]@),
            out@.len() == i,
            src.len() == reports@.len(),
        decreases rest@.len(),
    {
        let ghost rv = rest@.map_values(|a: AlbumReport| a@);
        assert(rv.len() == src.len() - i);
        assert(rv[0] == src[i]);
        let ghost r0 = rest@;
        let x = rest.remove(0);
        assert(rest@ =~= r0.remove(0));
        assert(rest@.map_values(|a: AlbumReport| a@) =~= rv.drop_first());
        assert(rv.drop_first() =~= src.skip(i + 1));
        assert(rest@.map_values(|a: AlbumReport| a@) =~= src.skip(i + 1));
        let ghost xv = x@;
        assert(xv == src[i]);
        let ghost s = out@.map_values(|a: AlbumReport| a@);
        let mut p: usize = 0;
        while p < out.len() && !report_after_exec(&out[p], &x)
            invariant
                0 <= p <= out@.len(),
                s == out@.map_values(|a: AlbumReport| a@),
                xv == x@,
                report_upper(s, xv, 0) == report_upper(s, xv, p as int),
                forall|k: int| 0 <= k < p ==> !report_after(#[trigger] s[k], xv),
            decreases out@.len() - p,
        {
            assert(s[p as int] == out@[p as int]@);
            p += 1;
        }
        proof {
            if p < out@.len() {
                assert(s[p as int] == out@[p as int]@);
            }
        }
        let ghost o0 = out@;
        out.insert(p, x);
        let ghost s1 = out@.map_values(|a: AlbumReport| a@);
        assert(s1 =~= s.insert(p as int, xv));
        assert(reports_sorted(s1)) by {
            assert forall|a: int, b: int| 0 <= a < b < s1.len() implies !report_after(#[trigger] s1[a], #[trigger] s1[b]) by {
                if a < p && b < p {
                } else if a < p && b == p {
                } else if a < p && b > p {
                    assert(s1[b] == s[b - 1]);
                } else if a == p {
                    // s[b-1] sorts after x or equals s[p]'s successor
                    assert(s1[b] == s[b - 1]);
                    assert(report_after(s[p as int], xv));
                    if b - 1 > p {
                        if report_after(xv, s[b - 1]) {
                            lemma_after_trans(s[p as int], xv, s[b - 1]);
                        }
                    } else {
                        lemma_after_asym(s[p as int], xv);
                    }
                } else {
                    assert(s1[a] == s[a - 1]);
                    assert(s1[b] == s[b - 1]);
                }
            }
        }
        assert(src.take(i + 1).drop_last() =~= src.take(i));
        assert(src.take(i + 1).last() == xv);
        assert forall|k: int| 0 <= k < out@.len() implies src.take(i + 1).contains(#[trigger] out@[k]@) by {
            assert(out@[k]@ == s1[k]);
            if k < p {
                assert(s1[k] == s[k]);
                assert(s[k] == o0[k]@);
                assert(src.take(i).contains(o0[k]@));
                let w = choose|w: int| 0 <= w < src.take(i).len() && src.take(i)[w] == s[k];
                assert(src.take(i + 1)[w] == s[k]);
            } else if k > p {
                assert(s1[k] == s[k - 1]);
                assert(s[k - 1] == o0[k - 1]@);
                assert(src.take(i).contains(o0[k - 1]@));
                let w = choose|w: int| 0 <= w < src.take(i).len() && src.take(i)[w] == s[k - 1];
                assert(src.take(i + 1)[w] == s[k - 1]);
            } else {
                assert(src.take(i + 1)[i] == xv);
            }
        }
        proof {
            i = i + 1;
        }
    }
    assert(src.take(i) =~= src);
    out
}

/// The report of one album; `None` when it has no issues.
pub fn album_report(input: AlbumInput) -> (r: Option<AlbumReport>)
    ensures
        r matches Some(a) ==> a.issues@.len() <= 8,
        analyze_spec(input.tracks@, input.folder_has_cover).len() == 0 ==> r is None,
        analyze_spec(input.tracks@, input.folder_has_cover).len() > 0 ==> (r matches Some(a) && a@ == report_of(input)),
{
    let issues = analyze_album(input.tracks.as_slice(), input.folder_has_cover);
    if issues.len() == 0 {
        None
    } else {
        Some(AlbumReport {
            path: input.path,
            display: input.display,
            track_count: input.tracks.len(),
            issues,
        })
    }
}

/// Number of issues of severity `sev`.
fn count_severity(issues: &Vec<AlbumIssue>, sev: Severity) -> (r: usize)
    ensures
        r == issues@.map_values(|a: AlbumIssue| a@).filter(|i: (Severity, IssueV)| i.0 == sev).len(),
        r <= issues@.len(),
{
    let ghost v = issues@.map_values(|a: AlbumIssue| a@);
    let mut n: usize = 0;
    let mut i: usize = 0;
    assert(v.take(0).filter(|i: (Severity, IssueV)| i.0 == sev) =~= Seq::<(Severity, IssueV)>::empty()) by {
        reveal(Seq::filter);
    }
    while i < issues.len()
        invariant
            0 <= i <= issues@.len(),
            v == issues@.map_values(|a: AlbumIssue| a@),
            n == v.take(i as int).filter(|i: (Severity, IssueV)| i.0 == sev).len(),
            n <= i,
        decreases issues@.len() - i,
    {
        assert(v.take(i as int + 1) =~= v.take(i as int).push(v[i as int]));
        proof {
            v.take(i as int).lemma_filter_push(v[i as int], |i: (Severity, IssueV)| i.0 == sev);
        }
        assert(v[i as int] == issues@[i as int]@);
        if issues[i].severity == sev {
            n += 1;
        }
        i += 1;
    }
    assert(v.take(i as int) =~= v);
    n
}

/// Assembles the audit report of `library` from its album folders, in
/// folder order: albums without issues are left out, the others sorted
/// most severe first, then by label; the totals count folders, tracks,
/// reported albums and issues by severity.
pub fn build_report(library: String, albums: Vec<AlbumInput>) -> (r: AuditReport)
    requires
        tracks_in(albums@, albums@.len()) <= usize::MAX,
        8 * albums@.len() <= usize::MAX,
    ensures
        r.library@ == library@,
        r.albums_scanned == albums@.len(),
        r.tracks_scanned == tracks_in(albums@, albums@.len()),
        r.albums@.map_values(|a: AlbumReport| a@) == sort_reports_spec(reports_of(albums@)),
        reports_sorted(r.albums@.map_values(|a: AlbumReport| a@)),
        r.albums_with_issues == r.albums@.len(),
        r.issues_total == issues_in(r.albums@.map_values(|a: AlbumReport| a@), r.albums@.len(), None),
        r.high == issues_in(r.albums@.map_values(|a: AlbumReport| a@), r.albums@.len(), Some(Severity::High)),
        r.medium == issues_in(r.albums@.map_values(|a: AlbumReport| a@), r.albums@.len(), Some(Severity::Medium)),
        r.low == issues_in(r.albums@.map_values(|a: AlbumReport| a@), r.albums@.len(), Some(Severity::Low)),
{
    let ghost ins = albums@;
    let albums_scanned = albums.len();
    let mut tracks_scanned: usize = 0;
    let mut i: usize = 0;
    while i < albums.len()
        invariant
            0 <= i <= albums@.len(),
            tracks_in(albums@, albums@.len()) <= usize::MAX,
            tracks_scanned == tracks_in(albums@, i as nat),
        decreases albums@.len() - i,
    {
        proof {
            lemma_tracks_in_mono(albums@, (i + 1) as nat, albums@.len());
        }
        tracks_scanned = tracks_scanned + albums[i].tracks.len();
        i += 1;
    }
    let mut rest = albums;
    let mut reports: Vec<AlbumReport> = Vec::new();
    let ghost mut k: int = 0;
    assert(ins.take(0) =~= Seq::<AlbumInput>::empty());
    while rest.len() > 0
        invariant
            0 <= k <= ins.len(),
            rest@ == ins.skip(k),
            reports@.map_values(|a: AlbumReport| a@) == reports_of(ins.take(k)),
            reports@.len() <= k,
            forall|j: int| 0 <= j < reports@.len() ==> (#[trigger] reports@[j]).issues@.len() <= 8,
        decreases rest@.len(),
    {
        let ghost r0 = rest@;
        assert(r0[0] == ins[k]);
        let a = rest.remove(0);
        assert(rest@ =~= ins.skip(k + 1));
        assert(ins.take(k + 1).drop_last() =~= ins.take(k));
        assert(ins.take(k + 1).last() == a);
        let ghost before = reports@.map_values(|a: AlbumReport| a@);
        match album_report(a) {
            Some(rep) => {
                reports.push(rep);
                assert(reports@.map_values(|a: AlbumReport| a@) =~= before.push(reports@.last()@));
            },
            None => {},
        }
        assert(reports@.map_values(|a: AlbumReport| a@) =~= reports_of(ins.take(k + 1)));
        proof {
            k = k + 1;
        }
    }
    assert(ins.take(k) =~= ins);
    let ghost pre_sort = reports@.map_values(|a: AlbumReport| a@);
    assert forall|j: int| 0 <= j < pre_sort.len() implies (#[trigger] pre_sort[j]).3.len() <= 8 by {
        assert(pre_sort[j] == reports@[j]@);
    }
    assert(reports@.len() <= albums_scanned);
    let sorted = sort_reports(reports);
    let ghost sv = sorted@.map_values(|a: AlbumReport| a@);
    let mut issues_total: usize = 0;
    let mut high: usize = 0;
    let mut medium: usize = 0;
    let mut low: usize = 0;
    let mut j: usize = 0;
    while j < sorted.len()
        invariant
            0 <= j <= sorted@.len(),
            sv == sorted@.map_values(|a: AlbumReport| a@),
            sorted@.len() <= albums_scanned,
            8 * albums_scanned <= usize::MAX,
            forall|m: int| 0 <= m < sv.len() ==> pre_sort.contains(#[trigger] sorted@[m]@),
            forall|m: int| 0 <= m < pre_sort.len() ==> (#[trigger] pre_sort[m]).3.len() <= 8,
            issues_total == issues_in(sv, j as nat, None),
            high == issues_in(sv, j as nat, Some(Severity::High)),
            medium == issues_in(sv, j as nat, Some(Severity::Medium)),
            low == issues_in(sv, j as nat, Some(Severity::Low)),
            issues_total <= 8 * j,
            high <= issues_total,
            medium <= issues_total,
            low <= issues_total,
        decreases sorted@.len() - j,
    {
        let rep = &sorted[j];
        assert(sv[j as int] == rep@);
        assert(pre_sort.contains(sorted@[j as int]@));
        let n = rep.issues.len();
        assert(n <= 8);
        let h = count_severity(&rep.issues, Severity::High);
        let md = count_severity(&rep.issues, Severity::Medium);
        let l = count_severity(&rep.issues, Severity::Low);
        issues_total = issues_total + n;
        high = high + h;
        medium = medium + md;
        low = low + l;
        j += 1;
    }
    AuditReport {
        library,
        albums_scanned,
        tracks_scanned,
        albums_with_issues: sorted.len(),
        issues_total,
        high,
        medium,
        low,
        albums: sorted,
    }
}

proof fn lemma_tracks_in_mono(inputs: Seq<AlbumInput>, i: nat, n: nat)
    requires
        i <= n,
    ensures
        tracks_in(inputs, i) <= tracks_in(inputs, n),
    decreases n - i,
{
    if i < n {
        lemma_tracks_in_mono(inputs, i, (n - 1) as nat);
    }
}

} // verus!
