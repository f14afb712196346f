//! The library scan's decisions: which files are audio, which need their
//! tags read again, which cached tracks are gone, and the order of the
//! library.

use vstd::prelude::*;

use crate::order::{lemma_lex_asym, lemma_lex_irrefl, lemma_lex_total, lemma_lex_trans, lex_lt, str_lt, strs};
use crate::paths::{file_stem, path_file_stem};
use crate::player::queue::TrackInfo;
use crate::text::{chars_of, lowercase, push_char, str_eq, to_lowercase};

verus! {

/// File extensions the library scan reads as audio (compared lowercased).
pub open spec fn library_exts() -> Seq<Seq<char>> {
    seq![
        "flac"@,
        "mp3"@,
        "aac"@,
        "ogg"@,
        "opus"@,
        "wav"@,
        "alac"@,
        "m4a"@,
        "dsf"@,
        "dff"@,
        "wv"@,
        "wma"@,
        "aiff"@,
        "aif"@,
        "ape"@,
    ]
}

/// Whether a file with extension `ext` is part of the library.
pub fn is_library_audio(ext: &str) -> (r: bool)
    ensures
        r == library_exts().contains(lowercase(ext@)),
{
    let e = to_lowercase(ext);
    let exts: [&str; 15] = [
        "flac", "mp3", "aac", "ogg", "opus", "wav", "alac", "m4a", "dsf", "dff", "wv", "wma", "aiff", "aif", "ape",
    ];
    proof {
        reveal_strlit("flac");
        reveal_strlit("mp3");
        reveal_strlit("aac");
        reveal_strlit("ogg");
        reveal_strlit("opus");
        reveal_strlit("wav");
        reveal_strlit("alac");
        reveal_strlit("m4a");
        reveal_strlit("dsf");
        reveal_strlit("dff");
        reveal_strlit("wv");
        reveal_strlit("wma");
        reveal_strlit("aiff");
        reveal_strlit("aif");
        reveal_strlit("ape");
    }
    let ghost ev = exts@.map_values(|s: &str| s@);
    assert(ev =~= library_exts());
    let mut i: usize = 0;
    while i < 15
        invariant
            0 <= i <= 15,
            ev == exts@.map_values(|s: &str| s@),
            ev == library_exts(),
            e@ == lowercase(ext@),
            forall|k: int| 0 <= k < i ==> ev[k] != e@,
        decreases 15 - i,
    {
        assert(ev[i as int] == exts@[i as int]@);
        if str_eq(exts[i], e.as_str()) {
            assert(ev[i as int] == e@);
            assert(library_exts()[i as int] == e@);
            assert(library_exts().contains(e@));
            return true;
        }
        i += 1;
    }
    false
}

/// Whether a file must have its tags read again: it is not cached, or the
/// cache holds another modification time or size for it.
pub open spec fn needs_read(cached: Option<(i64, i64)>, mtime_ns: i64, size: i64) -> bool {
    match cached {
        Some((cm, cs)) => !(cm == mtime_ns && cs == size),
        None => true,
    }
}

pub fn needs_tag_read(cached: Option<(i64, i64)>, mtime_ns: i64, size: i64) -> (r: bool)
    ensures
        r == needs_read(cached, mtime_ns, size),
{
    match cached {
        Some((cm, cs)) => !(cm == mtime_ns && cs == size),
        None => true,
    }
}

/// The cached paths that are no longer on disk, in cache order.
pub open spec fn gone(cached: Seq<Seq<char>>, walked: Seq<Seq<char>>) -> Seq<Seq<char>>
    decreases cached.len(),
{
    if cached.len() == 0 {
        Seq::empty()
    } else {
        let t = gone(cached.drop_last(), walked);
        if walked.contains(cached.last()) {
            t
        } else {
            t.push(cached.last())
        }
    }
}

fn contains_str(v: &Vec<String>, x: &str) -> (r: bool)
    ensures
        r == strs(v@).contains(x@),
{
    let mut i: usize = 0;
    while i < v.len()
        invariant
            0 <= i <= v@.len(),
            forall|k: int| 0 <= k < i ==> v@[k]@ != x@,
        decreases v@.len() - i,
    {
        if str_eq(v[i].as_str(), x) {
            assert(strs(v@)[i as int] == x@);
            return true;
        }
        i += 1;
    }
    assert forall|k: int| 0 <= k < strs(v@).len() implies strs(v@)[k] != x@ by {
        assert(strs(v@)[k] == v@[k]@);
    }
    false
}

/// The cached paths to drop: those not among the files walked.
pub fn pruned_paths(cached: &Vec<String>, walked: &Vec<String>) -> (r: Vec<String>)
    ensures
        strs(r@) == gone(strs(cached@), strs(walked@)),
{
    let ghost cs = strs(cached@);
    let mut out: Vec<String> = Vec::new();
    let mut i: usize = 0;
    assert(cs.take(0) =~= Seq::<Seq<char>>::empty());
    while i < cached.len()
        invariant
            0 <= i <= cached@.len(),
            cs == strs(cached@),
            strs(out@) == gone(cs.take(i as int), strs(walked@)),
        decreases cached@.len() - i,
    {
        assert(cs.take(i as int + 1).drop_last() =~= cs.take(i as int));
        assert(cs[i as int] == cached@[i as int]@);
        if !contains_str(walked, cached[i].as_str()) {
            let ghost o = strs(out@);
            out.push(cached[i].clone());
            assert(strs(out@) =~= o.push(cs[i as int]));
        }
        i += 1;
    }
    assert(cs.take(i as int) =~= cs);
    out
}

// ── Library order ────────────────────────────────────────────────────────────

/// A cached track as the library reads it back.
pub struct ScanRow {
    pub path: String,
    pub title: Option<String>,
    pub artist: Option<String>,
    pub album_artist: Option<String>,
    pub album: Option<String>,
    pub track_number: Option<u32>,
    pub disc_number: Option<u32>,
    pub duration_ms: Option<u64>,
    pub sample_rate_hz: Option<u32>,
    pub bit_depth: Option<u8>,
    pub bitrate_kbps: Option<u32>,
    pub channels: Option<u8>,
}

/// ASCII letters lowercased, other characters kept (SQLite's `LOWER`).
pub open spec fn ascii_lower(s: Seq<char>) -> Seq<char> {
    s.map_values(|c: char| if 'A' <= c && c <= 'Z' { (((c as u32) + 32) as u8) as char } else { c })
}

/// The sort key of a row: album artist (else artist) and album,
/// ASCII-lowercased; disc (1 when unknown); track (999 when unknown); the
/// title ASCII-lowercased (unknown titles first).
pub type RowKey = (Seq<char>, Seq<char>, int, int, Option<Seq<char>>);

pub open spec fn opt_text(o: Option<String>) -> Option<Seq<char>> {
    match o {
        Some(s) => Some(s@),
        None => None,
    }
}

pub open spec fn row_key(r: ScanRow) -> RowKey {
    (
        ascii_lower(
            match r.album_artist {
                Some(a) => a@,
                None => match r.artist {
                    Some(a) => a@,
                    None => Seq::empty(),
                },
            },
        ),
        ascii_lower(
            match r.album {
                Some(a) => a@,
                None => Seq::empty(),
            },
        ),
        match r.disc_number {
            Some(d) => d as int,
            None => 1,
        },
        match r.track_number {
            Some(t) => t as int,
            None => 999,
        },
        match r.title {
            Some(t) => Some(ascii_lower(t@)),
            None => None,
        },
    )
}

pub open spec fn opt_lt(a: Option<Seq<char>>, b: Option<Seq<char>>) -> bool {
    match (a, b) {
        (None, Some(_)) => true,
        (Some(x), Some(y)) => lex_lt(x, y),
        _ => false,
    }
}

/// `a` sorts strictly before `b` (field by field).
pub open spec fn key_lt(a: RowKey, b: RowKey) -> bool {
    lex_lt(a.0, b.0) || (a.0 == b.0 && (lex_lt(a.1, b.1) || (a.1 == b.1 && (a.2 < b.2 || (a.2 == b.2 && (a.3
        < b.3 || (a.3 == b.3 && opt_lt(a.4, b.4))))))))
}

proof fn lemma_opt_trans(a: Option<Seq<char>>, b: Option<Seq<char>>, c: Option<Seq<char>>)
    requires
        opt_lt(a, b),
        opt_lt(b, c),
    ensures
        opt_lt(a, c),
{
    if a is Some {
        lemma_lex_trans(a->0, b->0, c->0);
    }
}

proof fn lemma_key_trans(a: RowKey, b: RowKey, c: RowKey)
    requires
        key_lt(a, b),
        key_lt(b, c),
    ensures
        key_lt(a, c),
{
    if lex_lt(a.0, b.0) && lex_lt(b.0, c.0) {
        lemma_lex_trans(a.0, b.0, c.0);
    } else if a.0 == b.0 && b.0 == c.0 {
        if lex_lt(a.1, b.1) && lex_lt(b.1, c.1) {
            lemma_lex_trans(a.1, b.1, c.1);
        } else if a.1 == b.1 && b.1 == c.1 && a.2 == b.2 && b.2 == c.2 && a.3 == b.3 && b.3 == c.3 {
            lemma_opt_trans(a.4, b.4, c.4);
        }
    }
}

proof fn lemma_key_asym(a: RowKey, b: RowKey)
    requires
        key_lt(a, b),
    ensures
        !key_lt(b, a),
{
    lemma_lex_irrefl(a.0);
    lemma_lex_irrefl(a.1);
    if lex_lt(a.0, b.0) {
        lemma_lex_asym(a.0, b.0);
    } else if a.0 == b.0 && lex_lt(a.1, b.1) {
        lemma_lex_asym(a.1, b.1);
    } else if a.0 == b.0 && a.1 == b.1 && a.2 == b.2 && a.3 == b.3 && a.4 is Some && b.4 is Some {
        lemma_lex_asym(a.4->0, b.4->0);
    }
}

/// Index of the first row from `i` on that sorts after `x`.
pub open spec fn key_upper(s: Seq<RowKey>, x: RowKey, i: int) -> int
    decreases s.len() - i,
{
    if i < 0 || i >= s.len() {
        s.len() as int
    } else if key_lt(x, s[i]) {
        i
    } else {
        key_upper(s, x, i + 1)
    }
}

/// The rows in library order; rows with equal keys keep their order.
pub open spec fn library_order_spec(s: Seq<ScanRow>) -> Seq<ScanRow>
    decreases s.len(),
{
    if s.len() == 0 {
        s
    } else {
        let t = library_order_spec(s.drop_last());
        t.insert(key_upper(t.map_values(|r: ScanRow| row_key(r)), row_key(s.last()), 0), s.last())
    }
}

/// No row sorts before an earlier one.
pub open spec fn keys_sorted(s: Seq<RowKey>) -> bool {
    forall|i: int, j: int| 0 <= i < j < s.len() ==> !key_lt(#[trigger] s[j], #[trigger] s[i])
}

fn ascii_lower_of(s: &str) -> (r: String)
    ensures
        r@ == ascii_lower(s@),
{
    let cs = chars_of(s);
    let mut out = String::new();
    let mut i: usize = 0;
    while i < cs.len()
        invariant
            0 <= i <= cs@.len(),
            cs@ == s@,
            out@ == ascii_lower(cs@.take(i as int)),
        decreases cs@.len() - i,
    {
        let c = cs[i];
        let d = if 'A' <= c && c <= 'Z' {
            (((c as u32) + 32) as u8) as char
        } else {
            c
        };
        push_char(&mut out, d);
        assert(ascii_lower(cs@.take(i as int + 1)) =~= ascii_lower(cs@.take(i as int)).push(d));
        i += 1;
    }
    assert(cs@.take(i as int) =~= cs@);
    out
}

/// A row's key, computed.
struct KeyRow {
    k0: String,
    k1: String,
    k2: u32,
    k3: u32,
    k4: Option<String>,
}

spec fn key_of(k: KeyRow) -> RowKey {
    (k.k0@, k.k1@, k.k2 as int, k.k3 as int, opt_text(k.k4))
}

fn key_row(r: &ScanRow) -> (k: KeyRow)
    ensures
        key_of(k) == row_key(*r),
{
    let k0 = match &r.album_artist {
        Some(a) => ascii_lower_of(a.as_str()),
        None => match &r.artist {
            Some(a) => ascii_lower_of(a.as_str()),
            None => String::new(),
        },
    };
    let k1 = match &r.album {
        Some(a) => ascii_lower_of(a.as_str()),
        None => String::new(),
    };
    let k2 = match r.disc_number {
        Some(d) => d,
        None => 1,
    };
    let k3 = match r.track_number {
        Some(t) => t,
        None => 999,
    };
    let k4 = match &r.title {
        Some(t) => Some(ascii_lower_of(t.as_str())),
        None => None,
    };
    KeyRow { k0, k1, k2, k3, k4 }
}

fn key_less(a: &KeyRow, b: &KeyRow) -> (r: bool)
    ensures
        r == key_lt(key_of(*a), key_of(*b)),
{
    if str_lt(a.k0.as_str(), b.k0.as_str()) {
        return true;
    }
    if !str_eq(a.k0.as_str(), b.k0.as_str()) {
        return false;
    }
    if str_lt(a.k1.as_str(), b.k1.as_str()) {
        return true;
    }
    if !str_eq(a.k1.as_str(), b.k1.as_str()) {
        return false;
    }
    if a.k2 != b.k2 {
        return a.k2 < b.k2;
    }
    if a.k3 != b.k3 {
        return a.k3 < b.k3;
    }
    match (&a.k4, &b.k4) {
        (None, Some(_)) => true,
        (Some(x), Some(y)) => str_lt(x.as_str(), y.as_str()),
        _ => false,
    }
}

/// Sorts rows into library order: by album artist (else artist), album,
/// disc, track and title, letters compared ASCII-lowercased; rows with equal
/// keys keep their order.
pub fn library_order(rows: Vec<ScanRow>) -> (r: Vec<ScanRow>)
    ensures
        r@ == library_order_spec(rows@),
        keys_sorted(r@.map_values(|x: ScanRow| row_key(x))),
{
    let ghost src = rows@;
    let mut rest = rows;
    let mut out: Vec<ScanRow> = Vec::new();
    let mut keys: Vec<KeyRow> = Vec::new();
    let ghost mut i: int = 0;
    assert(src.take(0) =~= Seq::<ScanRow>::empty());
    while rest.len() > 0
        invariant
            0 <= i <= src.len(),
            rest@ == src.skip(i),
            out@ == library_order_spec(src.take(i)),
            keys_sorted(out@.map_values(|x: ScanRow| row_key(x))),
            keys@.len() == out@.len(),
            forall|k: int| 0 <= k < keys@.len() ==> #[trigger] key_of(keys@[k]) == row_key(out@[k]),
        decreases rest@.len(),
    {
        assert(rest@.len() == src.len() - i);
        assert(rest@[0] == src[i]);
        let ghost r0 = rest@;
        let x = rest.remove(0);
        assert(rest@ =~= src.skip(i + 1)) by {
            assert(rest@ =~= r0.remove(0));
        }
        let kx = key_row(&x);
        let ghost xv = x;
        let ghost s = out@.map_values(|y: ScanRow| row_key(y));
        let mut p: usize = 0;
        while p < out.len() && !key_less(&kx, &keys[p])
            invariant
                0 <= p <= out@.len(),
                s == out@.map_values(|y: ScanRow| row_key(y)),
                keys@.len() == out@.len(),
                forall|k: int| 0 <= k < keys@.len() ==> #[trigger] key_of(keys@[k]) == row_key(out@[k]),
                key_of(kx) == row_key(xv),
                key_upper(s, row_key(xv), 0) == key_upper(s, row_key(xv), p as int),
                forall|k: int| 0 <= k < p ==> !key_lt(row_key(xv), #[trigger] s[k]),
            decreases out@.len() - p,
        {
            assert(key_of(keys@[p as int]) == row_key(out@[p as int]));
            assert(s[p as int] == row_key(out@[p as int]));
            p += 1;
        }
        proof {
            if p < out@.len() {
                assert(key_of(keys@[p as int]) == row_key(out@[p as int]));
                assert(s[p as int] == row_key(out@[p as int]));
            }
        }
        let ghost k0 = keys@;
        let ghost o0 = out@;
        out.insert(p, x);
        keys.insert(p, kx);
        let ghost s1 = out@.map_values(|y: ScanRow| row_key(y));
        assert(s1 =~= s.insert(p as int, row_key(xv)));
        assert forall|k: int| 0 <= k < keys@.len() implies #[trigger] key_of(keys@[k]) == row_key(out@[k]) by {
            if k < p {
                assert(keys@[k] == k0[k] && out@[k] == o0[k]);
            } else if k > p {
                assert(keys@[k] == k0[k - 1] && out@[k] == o0[k - 1]);
            }
        }
        assert(keys_sorted(s1)) by {
            let xk = row_key(xv);
            assert forall|a: int, b: int| 0 <= a < b < s1.len() implies !key_lt(#[trigger] s1[b], #[trigger] s1[a]) by {
                if a < p && b == p {
                } else if a < p && b > p {
                    assert(s1[b] == s[b - 1]);
                } else if a == p {
                    assert(s1[b] == s[b - 1]);
                    assert(key_lt(xk, s[p as int]));
                    if b - 1 > p {
                        if key_lt(s[b - 1], xk) {
                            lemma_key_trans(s[b - 1], xk, s[p as int]);
                        }
                    } else {
                        lemma_key_asym(xk, s[p as int]);
                    }
                } else if a > p {
                    assert(s1[a] == s[a - 1]);
                    assert(s1[b] == s[b - 1]);
                }
            }
        }
        assert(src.take(i + 1).drop_last() =~= src.take(i));
        assert(src.take(i + 1).last() == xv);
        assert(o0.map_values(|y: ScanRow| row_key(y)) == s);
        proof {
            i = i + 1;
        }
    }
    assert(src.take(i) =~= src);
    out
}

/// The title shown for a row: its own, else the file stem, else "unknown".
pub open spec fn row_title(r: ScanRow) -> Seq<char> {
    match r.title {
        Some(t) => t@,
        None => match path_file_stem(r.path@) {
            Some(s) => s,
            None => "unknown"@,
        },
    }
}

/// The track a cached row stands for.
pub fn row_track(r: ScanRow) -> (t: TrackInfo)
    ensures
        t.path == r.path,
        t.title@ == row_title(r),
        t.artist == r.artist && t.album_artist == r.album_artist && t.album == r.album,
        t.duration_ms == r.duration_ms && t.sample_rate_hz == r.sample_rate_hz && t.bit_depth == r.bit_depth,
        t.bitrate_kbps == r.bitrate_kbps && t.channels == r.channels,
{
    let title = match r.title {
        Some(t) => t,
        None => match file_stem(r.path.as_str()) {
            Some(s) => s,
            None => "unknown".to_owned(),
        },
    };
    TrackInfo {
        path: r.path,
        title,
        artist: r.artist,
        album_artist: r.album_artist,
        album: r.album,
        duration_ms: r.duration_ms,
        sample_rate_hz: r.sample_rate_hz,
        bit_depth: r.bit_depth,
        channels: r.channels,
        bitrate_kbps: r.bitrate_kbps,
    }
}

} // verus!
