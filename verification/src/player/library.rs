//! The library index: tracks grouped by artist, then album.
//!
//! Grouping keys are folded for case and common Latin diacritics so that
//! "Kings Of Leon" / "Kings of Leon" and "Rosalía" / "Rosalia" fall into one
//! group; a group shows the name of the first track that created it.

use vstd::prelude::*;

use crate::order::{
    lemma_insert_sorted, lemma_sorted_set_of, lemma_sorted_set_of_props, lemma_lex_irrefl, lemma_lex_trans, lex_lt, sorted_position, sorted_set_of, strictly_sorted, strs,
};
use crate::paths::{components, path_components, path_strip_prefix, strip_prefix};
use crate::player::queue::TrackInfo;
use crate::text::{char_lowercase, chars_of, contains, has_infix, lower_char, lowercase, push_char, to_lowercase};

verus! {

/// The base letter of a lowercase Latin letter with a diacritic; other
/// characters unchanged.
pub open spec fn fold_char(c: char) -> char {
    match c {
        'à' | 'á' | 'â' | 'ã' | 'ä' | 'å' | 'ā' | 'ă' | 'ą' => 'a',
        'è' | 'é' | 'ê' | 'ë' | 'ē' | 'ĕ' | 'ě' | 'ę' => 'e',
        'ì' | 'í' | 'î' | 'ï' | 'ī' | 'ĭ' | 'į' => 'i',
        'ò' | 'ó' | 'ô' | 'õ' | 'ö' | 'ø' | 'ō' | 'ŏ' | 'ő' => 'o',
        'ù' | 'ú' | 'û' | 'ü' | 'ū' | 'ŭ' | 'ů' | 'ű' | 'ų' => 'u',
        'ñ' | 'ń' | 'ň' | 'ņ' => 'n',
        'ç' | 'ć' | 'č' => 'c',
        'ý' | 'ÿ' => 'y',
        'ž' | 'ź' | 'ż' => 'z',
        'š' | 'ś' | 'ş' => 's',
        'ð' | 'ď' | 'đ' => 'd',
        'ĺ' | 'ļ' | 'ľ' => 'l',
        'ŕ' | 'ř' | 'ŗ' => 'r',
        'ţ' | 'ť' => 't',
        'ğ' | 'ĝ' => 'g',
        _ => c,
    }
}

fn fold_diacritic(c: char) -> (r: char)
    ensures
        r == fold_char(c),
{
    match c {
        'à' | 'á' | 'â' | 'ã' | 'ä' | 'å' | 'ā' | 'ă' | 'ą' => 'a',
        'è' | 'é' | 'ê' | 'ë' | 'ē' | 'ĕ' | 'ě' | 'ę' => 'e',
        'ì' | 'í' | 'î' | 'ï' | 'ī' | 'ĭ' | 'į' => 'i',
        'ò' | 'ó' | 'ô' | 'õ' | 'ö' | 'ø' | 'ō' | 'ŏ' | 'ő' => 'o',
        'ù' | 'ú' | 'û' | 'ü' | 'ū' | 'ŭ' | 'ů' | 'ű' | 'ų' => 'u',
        'ñ' | 'ń' | 'ň' | 'ņ' => 'n',
        'ç' | 'ć' | 'č' => 'c',
        'ý' | 'ÿ' => 'y',
        'ž' | 'ź' | 'ż' => 'z',
        'š' | 'ś' | 'ş' => 's',
        'ð' | 'ď' | 'đ' => 'd',
        'ĺ' | 'ļ' | 'ľ' => 'l',
        'ŕ' | 'ř' | 'ŗ' => 'r',
        'ţ' | 'ť' => 't',
        'ğ' | 'ĝ' => 'g',
        _ => c,
    }
}

/// The grouping key of a name: each character lowercased
/// (`char::to_lowercase`, which may give several), then folded.
pub open spec fn normalize_spec(s: Seq<char>) -> Seq<char>
    decreases s.len(),
{
    if s.len() == 0 {
        Seq::empty()
    } else {
        normalize_spec(s.drop_last()) + char_lowercase(s.last()).map_values(|c: char| fold_char(c))
    }
}

/// The grouping key of `s`.
pub fn normalize_key(s: &str) -> (r: String)
    ensures
        r@ == normalize_spec(s@),
{
    let cs = chars_of(s);
    let mut r = String::new();
    let mut i: usize = 0;
    while i < cs.len()
        invariant
            0 <= i <= cs@.len(),
            cs@ == s@,
            r@ == normalize_spec(cs@.take(i as int)),
        decreases cs@.len() - i,
    {
        assert(cs@.take(i as int + 1).drop_last() =~= cs@.take(i as int));
        let lc = lower_char(cs[i]);
        let ghost base = r@;
        let mut j: usize = 0;
        while j < lc.len()
            invariant
                0 <= j <= lc@.len(),
                r@ == base + lc@.take(j as int).map_values(|c: char| fold_char(c)),
            decreases lc@.len() - j,
        {
            push_char(&mut r, fold_diacritic(lc[j]));
            assert(lc@.take(j as int + 1).map_values(|c: char| fold_char(c)) =~= lc@.take(j as int).map_values(
                |c: char| fold_char(c),
            ).push(fold_char(lc@[j as int])));
            assert(r@ =~= base + lc@.take(j as int + 1).map_values(|c: char| fold_char(c)));
            j += 1;
        }
        assert(lc@.take(j as int) =~= lc@);
        i += 1;
    }
    assert(cs@.take(i as int) =~= cs@);
    r
}

/// The components of `p` below `root` (all of `p`'s where `root` is not a
/// prefix of it).
pub open spec fn rel_components_spec(p: Seq<char>, root: Seq<char>) -> Seq<Seq<char>> {
    match path_strip_prefix(p, root) {
        Some(r) => path_components(r),
        None => path_components(p),
    }
}

fn rel_components(p: &str, root: &str) -> (r: Vec<String>)
    ensures
        r@.map_values(|c: String| c@) == rel_components_spec(p@, root@),
{
    match strip_prefix(p, root) {
        Some(rel) => components(rel.as_str()),
        None => components(p),
    }
}

/// Artist from the folder layout `Artist/Album/track`.
pub open spec fn path_artist_spec(p: Seq<char>, root: Seq<char>) -> Seq<char> {
    let c = rel_components_spec(p, root);
    if c.len() >= 2 {
        c[0]
    } else {
        "Unknown Artist"@
    }
}

/// Album from the folder layout `Artist/Album/track`.
pub open spec fn path_album_spec(p: Seq<char>, root: Seq<char>) -> Seq<char> {
    let c = rel_components_spec(p, root);
    if c.len() >= 3 {
        c[1]
    } else {
        "Unknown Album"@
    }
}

fn path_artist(p: &str, root: &str) -> (r: String)
    ensures
        r@ == path_artist_spec(p@, root@),
{
    let c = rel_components(p, root);
    if c.len() >= 2 {
        c[0].clone()
    } else {
        "Unknown Artist".to_owned()
    }
}

fn path_album(p: &str, root: &str) -> (r: String)
    ensures
        r@ == path_album_spec(p@, root@),
{
    let c = rel_components(p, root);
    if c.len() >= 3 {
        c[1].clone()
    } else {
        "Unknown Album".to_owned()
    }
}

/// The artist a track is grouped under: its album artist tag if present,
/// else its artist tag; a missing or empty tag falls back to the folder
/// layout.
pub open spec fn group_artist_spec(t: TrackInfo, root: Seq<char>) -> Seq<char> {
    let tag = if t.album_artist is Some {
        t.album_artist
    } else {
        t.artist
    };
    match tag {
        Some(s) => if s@.len() > 0 {
            s@
        } else {
            path_artist_spec(t.path@, root)
        },
        None => path_artist_spec(t.path@, root),
    }
}

/// The album a track is grouped under: its album tag unless missing or
/// empty, else the folder layout.
pub open spec fn group_album_spec(t: TrackInfo, root: Seq<char>) -> Seq<char> {
    match t.album {
        Some(s) => if s@.len() > 0 {
            s@
        } else {
            path_album_spec(t.path@, root)
        },
        None => path_album_spec(t.path@, root),
    }
}

fn group_artist(t: &TrackInfo, root: &str) -> (r: String)
    ensures
        r@ == group_artist_spec(*t, root@),
{
    let tag = if t.album_artist.is_some() {
        &t.album_artist
    } else {
        &t.artist
    };
    match tag {
        Some(s) => {
            if !s.as_str().is_empty() {
                s.clone()
            } else {
                path_artist(t.path.as_str(), root)
            }
        },
        None => path_artist(t.path.as_str(), root),
    }
}

fn group_album(t: &TrackInfo, root: &str) -> (r: String)
    ensures
        r@ == group_album_spec(*t, root@),
{
    match &t.album {
        Some(s) => {
            if !s.as_str().is_empty() {
                s.clone()
            } else {
                path_album(t.path.as_str(), root)
            }
        },
        None => path_album(t.path.as_str(), root),
    }
}

/// The artist grouping key of a track.
pub open spec fn artist_key(t: TrackInfo, root: Seq<char>) -> Seq<char> {
    normalize_spec(group_artist_spec(t, root))
}

/// The album grouping key of a track.
pub open spec fn album_key(t: TrackInfo, root: Seq<char>) -> Seq<char> {
    normalize_spec(group_album_spec(t, root))
}

/// The tracks of `ts` with artist key `k`, in order.
pub open spec fn by_artist(ts: Seq<TrackInfo>, root: Seq<char>, k: Seq<char>) -> Seq<TrackInfo> {
    ts.filter(|t: TrackInfo| artist_key(t, root) == k)
}

/// The tracks of `ts` with album key `k`, in order.
pub open spec fn by_album(ts: Seq<TrackInfo>, root: Seq<char>, k: Seq<char>) -> Seq<TrackInfo> {
    ts.filter(|t: TrackInfo| album_key(t, root) == k)
}

pub open spec fn artist_keys(ts: Seq<TrackInfo>, root: Seq<char>) -> Seq<Seq<char>> {
    ts.map_values(|t: TrackInfo| artist_key(t, root))
}

pub open spec fn album_keys(ts: Seq<TrackInfo>, root: Seq<char>) -> Seq<Seq<char>> {
    ts.map_values(|t: TrackInfo| album_key(t, root))
}

/// An album as (display name, tracks).
pub type AlbumV = (Seq<char>, Seq<TrackInfo>);

/// An artist as (display name, albums).
pub type ArtistV = (Seq<char>, Seq<AlbumV>);

/// One album group: the tracks of `us` with album key `k`, named after the
/// first of them.
pub open spec fn album_group(us: Seq<TrackInfo>, root: Seq<char>, k: Seq<char>) -> AlbumV {
    (group_album_spec(by_album(us, root, k)[0], root), by_album(us, root, k))
}

/// The album groups of `us`, one per album key, ascending by key.
pub open spec fn albums_spec(us: Seq<TrackInfo>, root: Seq<char>) -> Seq<AlbumV> {
    sorted_set_of(album_keys(us, root)).map_values(|k: Seq<char>| album_group(us, root, k))
}

/// One artist group: the tracks of `ts` with artist key `k`, named after the
/// first of them, split into album groups.
pub open spec fn artist_group(ts: Seq<TrackInfo>, root: Seq<char>, k: Seq<char>) -> ArtistV {
    (group_artist_spec(by_artist(ts, root, k)[0], root), albums_spec(by_artist(ts, root, k), root))
}

/// The library of `ts`: one group per artist key, ascending by key (the
/// order of `BTreeMap<String, _>`, since UTF-8 byte order is code point
/// order).
pub open spec fn library_spec(ts: Seq<TrackInfo>, root: Seq<char>) -> Seq<ArtistV> {
    sorted_set_of(artist_keys(ts, root)).map_values(|k: Seq<char>| artist_group(ts, root, k))
}

/// A row of the navigable list of the library pane.
#[derive(Debug, Clone, Copy, PartialEq, Eq, Structural)]
pub enum LibraryNode {
    Artist(usize),
    Album { artist: usize, album: usize },
}

/// `q` occurs in the lowercase of `name`.
pub open spec fn name_matches(name: Seq<char>, q: Seq<char>) -> bool {
    has_infix(lowercase(name), q)
}

/// An album matches a search when its name or one of its track titles does.
pub open spec fn album_matches(al: AlbumV, q: Seq<char>) -> bool {
    name_matches(al.0, q) || exists|k: int| 0 <= k < al.1.len() && name_matches(#[trigger] al.1[k].title@, q)
}

/// The album rows of artist `ai`, for the first `n` of its albums: all of
/// them without a search or when the artist matches, else those matching.
pub open spec fn album_rows(ai: nat, albums: Seq<AlbumV>, n: nat, q: Seq<char>, artist_match: bool) -> Seq<LibraryNode>
    decreases n,
{
    if n == 0 {
        Seq::empty()
    } else {
        album_rows(ai, albums, (n - 1) as nat, q, artist_match) + if q.len() == 0 || artist_match || album_matches(
            albums[n - 1],
            q,
        ) {
            seq![LibraryNode::Album { artist: ai as usize, album: (n - 1) as usize }]
        } else {
            Seq::empty()
        }
    }
}

/// The rows of artist `ai`: none when neither it nor any album matches the
/// search; else the artist, then its album rows when it is expanded or a
/// search is active.
pub open spec fn artist_rows(ai: nat, a: ArtistV, expanded: Seq<bool>, q: Seq<char>) -> Seq<LibraryNode> {
    let artist_match = q.len() == 0 || name_matches(a.0, q);
    let any_album = exists|m: int| 0 <= m < a.1.len() && album_matches(#[trigger] a.1[m], q);
    if !artist_match && !any_album {
        Seq::empty()
    } else {
        seq![LibraryNode::Artist(ai as usize)] + if (ai < expanded.len() && expanded[ai as int]) || q.len() > 0 {
            album_rows(ai, a.1, a.1.len(), q, artist_match)
        } else {
            Seq::empty()
        }
    }
}

/// The rows of the first `n` artists, for lowercased search `q`.
pub open spec fn flat_rows(arts: Seq<ArtistV>, n: nat, expanded: Seq<bool>, q: Seq<char>) -> Seq<LibraryNode>
    decreases n,
{
    if n == 0 {
        Seq::empty()
    } else {
        flat_rows(arts, (n - 1) as nat, expanded, q) + artist_rows((n - 1) as nat, arts[n - 1], expanded, q)
    }
}

/// Number of tracks in the first `n` albums.
pub open spec fn album_tracks(albums: Seq<AlbumV>, n: nat) -> nat
    decreases n,
{
    if n == 0 {
        0
    } else {
        album_tracks(albums, (n - 1) as nat) + albums[n - 1].1.len()
    }
}

/// Number of tracks of the first `n` artists.
pub open spec fn library_tracks(arts: Seq<ArtistV>, n: nat) -> nat
    decreases n,
{
    if n == 0 {
        0
    } else {
        library_tracks(arts, (n - 1) as nat) + album_tracks(arts[n - 1].1, arts[n - 1].1.len())
    }
}

pub struct LibraryAlbum {
    pub name: String,
    pub tracks: Vec<TrackInfo>,
}

pub struct LibraryArtist {
    pub name: String,
    pub albums: Vec<LibraryAlbum>,
}

pub struct LibraryIndex {
    pub artists: Vec<LibraryArtist>,
}

impl View for LibraryAlbum {
    type V = AlbumV;

    open spec fn view(&self) -> AlbumV {
        (self.name@, self.tracks@)
    }
}

impl View for LibraryArtist {
    type V = ArtistV;

    open spec fn view(&self) -> ArtistV {
        (self.name@, self.albums@.map_values(|a: LibraryAlbum| a@))
    }
}

impl View for LibraryIndex {
    type V = Seq<ArtistV>;

    open spec fn view(&self) -> Seq<ArtistV> {
        self.artists@.map_values(|a: LibraryArtist| a@)
    }
}

/// Album groups under construction for the tracks `us`: `keys` are their
/// album keys, ascending; each group holds exactly the tracks of its key, at
/// least one, and is named after the first.
spec fn albums_inv(keys: Seq<String>, albums: Seq<LibraryAlbum>, us: Seq<TrackInfo>, root: Seq<char>) -> bool {
    &&& keys.len() == albums.len()
    &&& strictly_sorted(strs(keys))
    &&& strs(keys).to_set() == album_keys(us, root).to_set()
    &&& forall|m: int|
        0 <= m < albums.len() ==> {
            &&& (#[trigger] albums[m]).tracks@ == by_album(us, root, keys[m]@)
            &&& albums[m].tracks@.len() > 0
            &&& albums[m].name@ == group_album_spec(albums[m].tracks@[0], root)
        }
}

/// Artist groups under construction for the tracks `ts`.
spec fn artists_inv(
    keys: Seq<String>,
    album_keys_of: Seq<Vec<String>>,
    artists: Seq<LibraryArtist>,
    ts: Seq<TrackInfo>,
    root: Seq<char>,
) -> bool {
    &&& keys.len() == artists.len()
    &&& album_keys_of.len() == artists.len()
    &&& strictly_sorted(strs(keys))
    &&& strs(keys).to_set() == artist_keys(ts, root).to_set()
    &&& forall|j: int| 0 <= j < artists.len() ==> #[trigger] artist_ok(keys[j], album_keys_of[j], artists[j], ts, root)
}

/// One artist group under construction for the tracks `ts`.
spec fn artist_ok(key: String, album_keys: Vec<String>, artist: LibraryArtist, ts: Seq<TrackInfo>, root: Seq<char>) -> bool {
    &&& by_artist(ts, root, key@).len() > 0
    &&& artist.name@ == group_artist_spec(by_artist(ts, root, key@)[0], root)
    &&& albums_inv(album_keys@, artist.albums@, by_artist(ts, root, key@), root)
}

/// Pushing a track with a different key leaves a group unchanged; one with
/// the same key is appended to it.
proof fn lemma_by_album_push(us: Seq<TrackInfo>, t: TrackInfo, root: Seq<char>, k: Seq<char>)
    ensures
        by_album(us.push(t), root, k) == if album_key(t, root) == k {
            by_album(us, root, k).push(t)
        } else {
            by_album(us, root, k)
        },
{
    us.lemma_filter_push(t, |u: TrackInfo| album_key(u, root) == k);
}

proof fn lemma_by_artist_push(ts: Seq<TrackInfo>, t: TrackInfo, root: Seq<char>, k: Seq<char>)
    ensures
        by_artist(ts.push(t), root, k) == if artist_key(t, root) == k {
            by_artist(ts, root, k).push(t)
        } else {
            by_artist(ts, root, k)
        },
{
    ts.lemma_filter_push(t, |u: TrackInfo| artist_key(u, root) == k);
}

/// A key that no track has selects no tracks.
proof fn lemma_by_album_absent(us: Seq<TrackInfo>, root: Seq<char>, k: Seq<char>)
    requires
        !album_keys(us, root).to_set().contains(k),
    ensures
        by_album(us, root, k).len() == 0,
{
    let f = by_album(us, root, k);
    if f.len() > 0 {
        us.lemma_filter_pred(|u: TrackInfo| album_key(u, root) == k, 0);
        assert(f.contains(f[0]));
        us.lemma_filter_contains_rev(|u: TrackInfo| album_key(u, root) == k, f[0]);
        let i = choose|i: int| 0 <= i < us.len() && us[i] == f[0];
        assert(album_keys(us, root)[i] == k);
    }
}

proof fn lemma_by_artist_absent(ts: Seq<TrackInfo>, root: Seq<char>, k: Seq<char>)
    requires
        !artist_keys(ts, root).to_set().contains(k),
    ensures
        by_artist(ts, root, k).len() == 0,
{
    let f = by_artist(ts, root, k);
    if f.len() > 0 {
        ts.lemma_filter_pred(|u: TrackInfo| artist_key(u, root) == k, 0);
        assert(f.contains(f[0]));
        ts.lemma_filter_contains_rev(|u: TrackInfo| artist_key(u, root) == k, f[0]);
        let i = choose|i: int| 0 <= i < ts.len() && ts[i] == f[0];
        assert(artist_keys(ts, root)[i] == k);
    }
}

/// Adds track `t`, with album key `key`, to the album groups of `us`.
fn add_to_albums(
    keys: &mut Vec<String>,
    albums: &mut Vec<LibraryAlbum>,
    t: TrackInfo,
    key: String,
    root: &str,
    Ghost(us): Ghost<Seq<TrackInfo>>,
)
    requires
        albums_inv(old(keys)@, old(albums)@, us, root@),
        key@ == album_key(t, root@),
    ensures
        albums_inv(final(keys)@, final(albums)@, us.push(t), root@),
{
    let ghost k0 = keys@;
    let ghost a0 = albums@;
    let ghost r = root@;
    let ghost us1 = us.push(t);
    assert(album_keys(us1, r) =~= album_keys(us, r).push(key@));
    proof {
        album_keys(us, r).lemma_push_to_set_commute(key@);
    }
    let (p, found) = sorted_position(keys, key.as_str());
    if found {
        let mut al = albums.remove(p);
        al.tracks.push(t);
        albums.insert(p, al);
        assert(strs(keys@).to_set().contains(key@)) by {
            assert(strs(keys@)[p as int] == key@);
        }
        assert(strs(keys@).to_set() =~= album_keys(us1, r).to_set());
        assert forall|m: int| 0 <= m < albums@.len() implies {
            &&& (#[trigger] albums@[m]).tracks@ == by_album(us1, r, keys@[m]@)
            &&& albums@[m].tracks@.len() > 0
            &&& albums@[m].name@ == group_album_spec(albums@[m].tracks@[0], r)
        } by {
            lemma_by_album_push(us, t, r, keys@[m]@);
            if m != p {
                assert(albums@[m] == a0[m]);
                assert(lex_lt(strs(k0)[m], strs(k0)[p as int]) || lex_lt(strs(k0)[p as int], strs(k0)[m]));
                crate::order::lemma_lex_irrefl(key@);
            } else {
                assert(albums@[m].tracks@ == a0[m].tracks@.push(t));
                assert(albums@[m].tracks@[0] == a0[m].tracks@[0]);
            }
        }
    } else {
        proof {
            lemma_by_album_absent(us, r, key@);
            lemma_by_album_push(us, t, r, key@);
            lemma_insert_sorted(strs(k0), p as int, key@);
        }
        let name = group_album(&t, root);
        let mut tracks: Vec<TrackInfo> = Vec::new();
        tracks.push(t);
        let ghost kv = key@;
        keys.insert(p, key);
        albums.insert(p, LibraryAlbum { name, tracks });
        assert(strs(keys@) =~= strs(k0).insert(p as int, kv));
        assert(by_album(us, r, kv) =~= Seq::<TrackInfo>::empty());
        assert(by_album(us1, r, kv) =~= seq![t]);
        assert forall|m: int| 0 <= m < albums@.len() implies {
            &&& (#[trigger] albums@[m]).tracks@ == by_album(us1, r, keys@[m]@)
            &&& albums@[m].tracks@.len() > 0
            &&& albums@[m].name@ == group_album_spec(albums@[m].tracks@[0], r)
        } by {
            lemma_by_album_push(us, t, r, keys@[m]@);
            if m < p {
                assert(albums@[m] == a0[m]);
                assert(keys@[m] == k0[m]);
                assert(lex_lt(strs(k0)[m], kv));
                crate::order::lemma_lex_irrefl(kv);
            } else if m > p {
                assert(albums@[m] == a0[m - 1]);
                assert(keys@[m] == k0[m - 1]);
                if m - 1 > p {
                    assert(lex_lt(strs(k0)[p as int], strs(k0)[m - 1]));
                    crate::order::lemma_lex_trans(kv, strs(k0)[p as int], strs(k0)[m - 1]);
                }
                crate::order::lemma_lex_irrefl(kv);
            }
        }
    }
}

/// Adds track `t` to the artist groups of `ts`.
fn add_to_artists(
    keys: &mut Vec<String>,
    album_keys_of: &mut Vec<Vec<String>>,
    artists: &mut Vec<LibraryArtist>,
    t: TrackInfo,
    root: &str,
    Ghost(ts): Ghost<Seq<TrackInfo>>,
)
    requires
        artists_inv(old(keys)@, old(album_keys_of)@, old(artists)@, ts, root@),
    ensures
        artists_inv(final(keys)@, final(album_keys_of)@, final(artists)@, ts.push(t), root@),
{
    let ghost k0 = keys@;
    let ghost b0 = album_keys_of@;
    let ghost a0 = artists@;
    let ghost r = root@;
    let ghost ts1 = ts.push(t);
    let akey = normalize_key(group_artist(&t, root).as_str());
    let bkey = normalize_key(group_album(&t, root).as_str());
    let ghost kv = akey@;
    assert(artist_keys(ts1, r) =~= artist_keys(ts, r).push(kv));
    proof {
        artist_keys(ts, r).lemma_push_to_set_commute(kv);
    }
    let (p, found) = sorted_position(keys, akey.as_str());
    if found {
        let ghost us = by_artist(ts, r, kv);
        let mut ar = artists.remove(p);
        let mut bk = album_keys_of.remove(p);
        assert(ar == a0[p as int]);
        assert(bk == b0[p as int]);
        assert(artist_ok(k0[p as int], b0[p as int], a0[p as int], ts, r));
        assert(k0[p as int]@ == kv);
        add_to_albums(&mut bk, &mut ar.albums, t, bkey, root, Ghost(us));
        artists.insert(p, ar);
        album_keys_of.insert(p, bk);
        assert(strs(keys@).to_set().contains(kv)) by {
            assert(strs(keys@)[p as int] == kv);
        }
        assert(strs(keys@).to_set() =~= artist_keys(ts1, r).to_set());
        assert forall|j: int| 0 <= j < artists@.len() implies #[trigger] artist_ok(keys@[j], album_keys_of@[j], artists@[j], ts1, r) by {
            lemma_by_artist_push(ts, t, r, keys@[j]@);
            if j != p {
                assert(artists@[j] == a0[j]);
                assert(album_keys_of@[j] == b0[j]);
                assert(artist_ok(k0[j], b0[j], a0[j], ts, r));
                assert(lex_lt(strs(k0)[j], strs(k0)[p as int]) || lex_lt(strs(k0)[p as int], strs(k0)[j]));
                crate::order::lemma_lex_irrefl(kv);
            } else {
                assert(keys@[j]@ == kv);
                assert(by_artist(ts1, r, kv) == us.push(t));
                assert(by_artist(ts1, r, keys@[j]@).len() > 0);
            }
        }
        assert(artists_inv(keys@, album_keys_of@, artists@, ts1, r));
    } else {
        proof {
            lemma_by_artist_absent(ts, r, kv);
            lemma_by_artist_push(ts, t, r, kv);
            lemma_insert_sorted(strs(k0), p as int, kv);
        }
        let name = group_artist(&t, root);
        let mut bk: Vec<String> = Vec::new();
        let mut albums: Vec<LibraryAlbum> = Vec::new();
        assert(album_keys(Seq::<TrackInfo>::empty(), r).to_set() =~= strs(bk@).to_set());
        add_to_albums(&mut bk, &mut albums, t, bkey, root, Ghost(Seq::<TrackInfo>::empty()));
        keys.insert(p, akey);
        album_keys_of.insert(p, bk);
        artists.insert(p, LibraryArtist { name, albums });
        assert(strs(keys@) =~= strs(k0).insert(p as int, kv));
        assert(by_artist(ts, r, kv) =~= Seq::<TrackInfo>::empty());
        assert(by_artist(ts1, r, kv) =~= seq![t]);
        assert(Seq::<TrackInfo>::empty().push(t) =~= seq![t]);
        assert forall|j: int| 0 <= j < artists@.len() implies #[trigger] artist_ok(keys@[j], album_keys_of@[j], artists@[j], ts1, r) by {
            lemma_by_artist_push(ts, t, r, keys@[j]@);
            if j < p {
                assert(artists@[j] == a0[j]);
                assert(album_keys_of@[j] == b0[j]);
                assert(keys@[j] == k0[j]);
                assert(artist_ok(k0[j], b0[j], a0[j], ts, r));
                assert(lex_lt(strs(k0)[j], kv));
                crate::order::lemma_lex_irrefl(kv);
            } else if j > p {
                assert(artists@[j] == a0[j - 1]);
                assert(album_keys_of@[j] == b0[j - 1]);
                assert(keys@[j] == k0[j - 1]);
                assert(artist_ok(k0[j - 1], b0[j - 1], a0[j - 1], ts, r));
                if j - 1 > p {
                    assert(lex_lt(strs(k0)[p as int], strs(k0)[j - 1]));
                    crate::order::lemma_lex_trans(kv, strs(k0)[p as int], strs(k0)[j - 1]);
                }
                crate::order::lemma_lex_irrefl(kv);
            } else {
                assert(strs(keys@)[j] == kv);
                assert(keys@[j]@ == kv);
                assert(by_artist(ts1, r, keys@[j]@).len() > 0);
            }
        }
        assert(artists_inv(keys@, album_keys_of@, artists@, ts1, r));
    }
}

proof fn lemma_album_tracks_mono(albums: Seq<AlbumV>, i: nat, n: nat)
    requires
        i <= n,
    ensures
        album_tracks(albums, i) <= album_tracks(albums, n),
    decreases n - i,
{
    if i < n {
        lemma_album_tracks_mono(albums, i, (n - 1) as nat);
    }
}

proof fn lemma_library_tracks_mono(arts: Seq<ArtistV>, i: nat, n: nat)
    requires
        i <= n,
    ensures
        library_tracks(arts, i) <= library_tracks(arts, n),
    decreases n - i,
{
    if i < n {
        lemma_library_tracks_mono(arts, i, (n - 1) as nat);
    }
}

/// Whether an album matches the lowercased search `q`.
fn album_hit(al: &LibraryAlbum, q: &str) -> (r: bool)
    ensures
        r == album_matches(al@, q@),
{
    if contains(to_lowercase(al.name.as_str()).as_str(), q) {
        return true;
    }
    let mut k: usize = 0;
    while k < al.tracks.len()
        invariant
            0 <= k <= al.tracks@.len(),
            !name_matches(al@.0, q@),
            forall|j: int| 0 <= j < k ==> !name_matches(#[trigger] al.tracks@[j].title@, q@),
        decreases al.tracks@.len() - k,
    {
        if contains(to_lowercase(al.tracks[k].title.as_str()).as_str(), q) {
            assert(name_matches(al@.1[k as int].title@, q@));
            return true;
        }
        k += 1;
    }
    false
}

/// Finished album groups are the album groups of the specification.
proof fn lemma_albums_spec(keys: Seq<String>, albums: Seq<LibraryAlbum>, us: Seq<TrackInfo>, root: Seq<char>)
    requires
        albums_inv(keys, albums, us, root),
    ensures
        albums.map_values(|a: LibraryAlbum| a@) == albums_spec(us, root),
{
    lemma_sorted_set_of(strs(keys), album_keys(us, root));
    assert(albums.map_values(|a: LibraryAlbum| a@) =~= albums_spec(us, root)) by {
        assert forall|m: int| 0 <= m < albums.len() implies albums.map_values(|a: LibraryAlbum| a@)[m]
            == albums_spec(us, root)[m] by {
            assert(strs(keys)[m] == keys[m]@);
            assert(albums[m].tracks@ == by_album(us, root, keys[m]@));
        }
    }
}

/// Finished artist groups are the library of the specification.
proof fn lemma_library_spec(
    keys: Seq<String>,
    album_keys_of: Seq<Vec<String>>,
    artists: Seq<LibraryArtist>,
    ts: Seq<TrackInfo>,
    root: Seq<char>,
)
    requires
        artists_inv(keys, album_keys_of, artists, ts, root),
    ensures
        artists.map_values(|a: LibraryArtist| a@) == library_spec(ts, root),
{
    lemma_sorted_set_of(strs(keys), artist_keys(ts, root));
    assert(artists.map_values(|a: LibraryArtist| a@) =~= library_spec(ts, root)) by {
        assert forall|j: int| 0 <= j < artists.len() implies artists.map_values(|a: LibraryArtist| a@)[j]
            == library_spec(ts, root)[j] by {
            assert(strs(keys)[j] == keys[j]@);
            let a = artists[j];
            assert(artist_ok(keys[j], album_keys_of[j], a, ts, root));
            lemma_albums_spec(album_keys_of[j]@, a.albums@, by_artist(ts, root, keys[j]@), root);
        }
    }
}

impl LibraryIndex {
    pub fn empty() -> (r: Self)
        ensures
            r@ == Seq::<ArtistV>::empty(),
    {
        let r = LibraryIndex { artists: Vec::new() };
        assert(r@ =~= Seq::<ArtistV>::empty());
        r
    }

    /// Groups `tracks` by artist, then album (see `library_spec`); `root` is
    /// the library folder that the folder-layout fallback is taken below.
    pub fn from_tracks(tracks: Vec<TrackInfo>, root: &str) -> (r: Self)
        ensures
            r@ == library_spec(tracks@, root@),
    {
        let ghost ts = tracks@;
        let ghost n = ts.len();
        let mut rest = tracks;
        let mut stack: Vec<TrackInfo> = Vec::new();
        while rest.len() > 0
            invariant
                n == ts.len(),
                rest@.len() + stack@.len() == n,
                rest@ == ts.take(rest@.len() as int),
                forall|k: int| 0 <= k < stack@.len() ==> #[trigger] stack@[k] == ts[n - 1 - k],
            decreases rest@.len(),
        {
            let ghost before = rest@;
            let t = rest.pop().unwrap();
            assert(t == ts[n - 1 - stack@.len()]);
            stack.push(t);
            assert(rest@ =~= ts.take(rest@.len() as int));
        }
        let mut keys: Vec<String> = Vec::new();
        let mut album_keys_of: Vec<Vec<String>> = Vec::new();
        let mut artists: Vec<LibraryArtist> = Vec::new();
        let ghost mut i: int = 0;
        assert(artist_keys(ts.take(0), root@).to_set() =~= strs(keys@).to_set());
        while stack.len() > 0
            invariant
                n == ts.len(),
                0 <= i <= n,
                stack@.len() == n - i,
                forall|k: int| 0 <= k < stack@.len() ==> #[trigger] stack@[k] == ts[n - 1 - k],
                artists_inv(keys@, album_keys_of@, artists@, ts.take(i), root@),
            decreases stack@.len(),
        {
            let t = stack.pop().unwrap();
            assert(t == ts[i]);
            assert(ts.take(i + 1) =~= ts.take(i).push(t));
            add_to_artists(&mut keys, &mut album_keys_of, &mut artists, t, root, Ghost(ts.take(i)));
            proof {
                i = i + 1;
            }
        }
        assert(ts.take(i) =~= ts);
        proof {
            lemma_library_spec(keys@, album_keys_of@, artists@, ts, root@);
        }
        LibraryIndex { artists }
    }

    pub fn is_empty(&self) -> (r: bool)
        ensures
            r == (self@.len() == 0),
    {
        self.artists.len() == 0
    }

    /// Number of tracks in the library.
    pub fn track_count(&self) -> (r: usize)
        requires
            library_tracks(self@, self@.len()) <= usize::MAX,
        ensures
            r == library_tracks(self@, self@.len()),
    {
        let mut total: usize = 0;
        let mut i: usize = 0;
        while i < self.artists.len()
            invariant
                0 <= i <= self@.len(),
                library_tracks(self@, self@.len()) <= usize::MAX,
                total == library_tracks(self@, i as nat),
            decreases self@.len() - i,
        {
            let albums = &self.artists[i].albums;
            let ghost av = self@[i as int].1;
            assert(av == albums@.map_values(|a: LibraryAlbum| a@));
            proof {
                lemma_library_tracks_mono(self@, (i + 1) as nat, self@.len());
            }
            let mut j: usize = 0;
            let mut sub: usize = 0;
            while j < albums.len()
                invariant
                    0 <= j <= albums@.len(),
                    av == albums@.map_values(|a: LibraryAlbum| a@),
                    sub == album_tracks(av, j as nat),
                    total + album_tracks(av, av.len()) <= usize::MAX,
                decreases albums@.len() - j,
            {
                proof {
                    lemma_album_tracks_mono(av, (j + 1) as nat, av.len());
                }
                sub = sub + albums[j].tracks.len();
                j += 1;
            }
            total = total + sub;
            i += 1;
        }
        total
    }

    /// The rows of the library pane: `expanded[i]` tells whether artist `i`
    /// shows its albums; a non-empty `search` (matched case-insensitively)
    /// keeps the artists and albums that match it, expanded.
    pub fn build_flat(&self, expanded: &[bool], search: &str) -> (r: Vec<LibraryNode>)
        ensures
            r@ == flat_rows(self@, self@.len(), expanded@, lowercase(search@)),
    {
        let q = to_lowercase(search);
        let qe = q.as_str().is_empty();
        let mut out: Vec<LibraryNode> = Vec::new();
        let mut ai: usize = 0;
        while ai < self.artists.len()
            invariant
                0 <= ai <= self@.len(),
                q@ == lowercase(search@),
                qe == (q@.len() == 0),
                out@ == flat_rows(self@, ai as nat, expanded@, q@),
            decreases self@.len() - ai,
        {
            let artist = &self.artists[ai];
            let ghost a = self@[ai as int];
            assert(a == artist@);
            let artist_match = qe || contains(to_lowercase(artist.name.as_str()).as_str(), q.as_str());
            let mut any_album = false;
            let mut m: usize = 0;
            while m < artist.albums.len()
                invariant
                    0 <= m <= artist.albums@.len(),
                    a == artist@,
                    any_album == exists|k: int| 0 <= k < m && album_matches(#[trigger] a.1[k], q@),
                decreases artist.albums@.len() - m,
            {
                let hit = album_hit(&artist.albums[m], q.as_str());
                assert(a.1[m as int] == artist.albums@[m as int]@);
                if hit {
                    any_album = true;
                }
                m += 1;
            }
            let ghost prev = out@;
            if artist_match || any_album {
                out.push(LibraryNode::Artist(ai));
                let expanded_here = if ai < expanded.len() {
                    expanded[ai]
                } else {
                    false
                };
                if expanded_here || !qe {
                    let mut m: usize = 0;
                    while m < artist.albums.len()
                        invariant
                            0 <= m <= artist.albums@.len(),
                            a == artist@,
                            qe == (q@.len() == 0),
                            out@ == prev + seq![LibraryNode::Artist(ai)] + album_rows(ai as nat, a.1, m as nat, q@, artist_match),
                        decreases artist.albums@.len() - m,
                    {
                        assert(a.1[m as int] == artist.albums@[m as int]@);
                        let ok = qe || artist_match || album_hit(&artist.albums[m], q.as_str());
                        if ok {
                            out.push(LibraryNode::Album { artist: ai, album: m });
                        }
                        assert(out@ =~= prev + seq![LibraryNode::Artist(ai)] + album_rows(ai as nat, a.1, (m + 1) as nat, q@, artist_match));
                        m += 1;
                    }
                    assert(out@ =~= prev + artist_rows(ai as nat, a, expanded@, q@));
                } else {
                    assert(out@ =~= prev + artist_rows(ai as nat, a, expanded@, q@));
                }
            } else {
                assert(out@ =~= prev + artist_rows(ai as nat, a, expanded@, q@));
            }
            ai += 1;
        }
        out
    }
}

/// Sizes of the album groups of `us`, one per key of `ks`.
pub open spec fn album_group_sizes(us: Seq<TrackInfo>, root: Seq<char>, ks: Seq<Seq<char>>) -> nat
    decreases ks.len(),
{
    if ks.len() == 0 {
        0
    } else {
        album_group_sizes(us, root, ks.drop_last()) + by_album(us, root, ks.last()).len()
    }
}

/// Sizes of the artist groups of `ts`, one per key of `ks`.
pub open spec fn artist_group_sizes(ts: Seq<TrackInfo>, root: Seq<char>, ks: Seq<Seq<char>>) -> nat
    decreases ks.len(),
{
    if ks.len() == 0 {
        0
    } else {
        artist_group_sizes(ts, root, ks.drop_last()) + by_artist(ts, root, ks.last()).len()
    }
}

/// Number of positions of `ks` holding `x`.
pub open spec fn count_eq(ks: Seq<Seq<char>>, x: Seq<char>) -> nat
    decreases ks.len(),
{
    if ks.len() == 0 {
        0
    } else {
        count_eq(ks.drop_last(), x) + if ks.last() == x {
            1nat
        } else {
            0nat
        }
    }
}

proof fn lemma_count_eq_sorted(ks: Seq<Seq<char>>, x: Seq<char>)
    requires
        strictly_sorted(ks),
    ensures
        count_eq(ks, x) == if ks.contains(x) {
            1nat
        } else {
            0nat
        },
    decreases ks.len(),
{
    if ks.len() > 0 {
        let pre = ks.drop_last();
        assert(strictly_sorted(pre));
        lemma_count_eq_sorted(pre, x);
        if ks.last() == x {
            assert(!pre.contains(x)) by {
                if pre.contains(x) {
                    let k = choose|k: int| 0 <= k < pre.len() && pre[k] == x;
                    assert(lex_lt(ks[k], ks[ks.len() - 1]));
                    lemma_lex_irrefl(x);
                }
            }
            assert(ks.contains(x)) by {
                assert(ks[ks.len() - 1] == x);
            }
        } else {
            assert(ks.contains(x) == pre.contains(x)) by {
                if ks.contains(x) {
                    let k = choose|k: int| 0 <= k < ks.len() && ks[k] == x;
                    assert(pre[k] == x);
                }
                if pre.contains(x) {
                    let k = choose|k: int| 0 <= k < pre.len() && pre[k] == x;
                    assert(ks[k] == x);
                }
            }
        }
    } else {
        assert(!ks.contains(x));
    }
}

proof fn lemma_album_sizes_push(us: Seq<TrackInfo>, t: TrackInfo, root: Seq<char>, ks: Seq<Seq<char>>)
    ensures
        album_group_sizes(us.push(t), root, ks) == album_group_sizes(us, root, ks) + count_eq(ks, album_key(t, root)),
    decreases ks.len(),
{
    if ks.len() > 0 {
        lemma_album_sizes_push(us, t, root, ks.drop_last());
        lemma_by_album_push(us, t, root, ks.last());
    }
}

proof fn lemma_artist_sizes_push(ts: Seq<TrackInfo>, t: TrackInfo, root: Seq<char>, ks: Seq<Seq<char>>)
    ensures
        artist_group_sizes(ts.push(t), root, ks) == artist_group_sizes(ts, root, ks) + count_eq(ks, artist_key(t, root)),
    decreases ks.len(),
{
    if ks.len() > 0 {
        lemma_artist_sizes_push(ts, t, root, ks.drop_last());
        lemma_by_artist_push(ts, t, root, ks.last());
    }
}

proof fn lemma_album_sizes_empty(root: Seq<char>, ks: Seq<Seq<char>>)
    ensures
        album_group_sizes(Seq::empty(), root, ks) == 0,
    decreases ks.len(),
{
    if ks.len() > 0 {
        lemma_album_sizes_empty(root, ks.drop_last());
        assert(by_album(Seq::empty(), root, ks.last()) =~= Seq::<TrackInfo>::empty()) by {
            reveal(Seq::filter);
        }
    }
}

proof fn lemma_artist_sizes_empty(root: Seq<char>, ks: Seq<Seq<char>>)
    ensures
        artist_group_sizes(Seq::empty(), root, ks) == 0,
    decreases ks.len(),
{
    if ks.len() > 0 {
        lemma_artist_sizes_empty(root, ks.drop_last());
        assert(by_artist(Seq::empty(), root, ks.last()) =~= Seq::<TrackInfo>::empty()) by {
            reveal(Seq::filter);
        }
    }
}

/// Album grouping loses and duplicates nothing: when `ks` lists each album
/// key of `us` once, the groups' sizes add up to the number of tracks.
proof fn lemma_album_partition(us: Seq<TrackInfo>, root: Seq<char>, ks: Seq<Seq<char>>)
    requires
        strictly_sorted(ks),
        forall|i: int| 0 <= i < us.len() ==> ks.contains(album_key(#[trigger] us[i], root)),
    ensures
        album_group_sizes(us, root, ks) == us.len(),
    decreases us.len(),
{
    if us.len() == 0 {
        lemma_album_sizes_empty(root, ks);
        assert(us =~= Seq::<TrackInfo>::empty());
    } else {
        let pre = us.drop_last();
        let t = us.last();
        assert forall|i: int| 0 <= i < pre.len() implies ks.contains(album_key(#[trigger] pre[i], root)) by {
            assert(pre[i] == us[i]);
        }
        lemma_album_partition(pre, root, ks);
        assert(us =~= pre.push(t));
        lemma_album_sizes_push(pre, t, root, ks);
        assert(ks.contains(album_key(us[us.len() - 1], root)));
        lemma_count_eq_sorted(ks, album_key(t, root));
    }
}

proof fn lemma_artist_partition(ts: Seq<TrackInfo>, root: Seq<char>, ks: Seq<Seq<char>>)
    requires
        strictly_sorted(ks),
        forall|i: int| 0 <= i < ts.len() ==> ks.contains(artist_key(#[trigger] ts[i], root)),
    ensures
        artist_group_sizes(ts, root, ks) == ts.len(),
    decreases ts.len(),
{
    if ts.len() == 0 {
        lemma_artist_sizes_empty(root, ks);
        assert(ts =~= Seq::<TrackInfo>::empty());
    } else {
        let pre = ts.drop_last();
        let t = ts.last();
        assert forall|i: int| 0 <= i < pre.len() implies ks.contains(artist_key(#[trigger] pre[i], root)) by {
            assert(pre[i] == ts[i]);
        }
        lemma_artist_partition(pre, root, ks);
        assert(ts =~= pre.push(t));
        lemma_artist_sizes_push(pre, t, root, ks);
        assert(ks.contains(artist_key(ts[ts.len() - 1], root)));
        lemma_count_eq_sorted(ks, artist_key(t, root));
    }
}

proof fn lemma_album_tracks_groups(us: Seq<TrackInfo>, root: Seq<char>, ks: Seq<Seq<char>>, n: nat)
    requires
        n <= ks.len(),
    ensures
        album_tracks(ks.map_values(|k: Seq<char>| album_group(us, root, k)), n) == album_group_sizes(
            us,
            root,
            ks.take(n as int),
        ),
    decreases n,
{
    if n > 0 {
        lemma_album_tracks_groups(us, root, ks, (n - 1) as nat);
        assert(ks.take(n as int).drop_last() =~= ks.take(n - 1));
    } else {
        assert(ks.take(0) =~= Seq::<Seq<char>>::empty());
    }
}

proof fn lemma_library_tracks_groups(ts: Seq<TrackInfo>, root: Seq<char>, ks: Seq<Seq<char>>, n: nat)
    requires
        n <= ks.len(),
    ensures
        library_tracks(ks.map_values(|k: Seq<char>| artist_group(ts, root, k)), n) == artist_group_sizes(
            ts,
            root,
            ks.take(n as int),
        ),
    decreases n,
{
    if n > 0 {
        lemma_library_tracks_groups(ts, root, ks, (n - 1) as nat);
        assert(ks.take(n as int).drop_last() =~= ks.take(n - 1));
        let k = ks[n - 1];
        let us = by_artist(ts, root, k);
        let bks = sorted_set_of(album_keys(us, root));
        lemma_sorted_set_of_props(album_keys(us, root));
        lemma_album_tracks_groups(us, root, bks, bks.len());
        assert(bks.take(bks.len() as int) =~= bks);
        assert forall|i: int| 0 <= i < us.len() implies bks.contains(album_key(#[trigger] us[i], root)) by {
            assert(album_keys(us, root)[i] == album_key(us[i], root));
            assert(album_keys(us, root).to_set().contains(album_key(us[i], root)));
        }
        lemma_album_partition(us, root, bks);
    } else {
        assert(ks.take(0) =~= Seq::<Seq<char>>::empty());
    }
}

/// The library holds every track exactly once: the groups of `from_tracks`
/// add up to the number of tracks it was given.
pub proof fn lemma_library_keeps_every_track(ts: Seq<TrackInfo>, root: Seq<char>)
    ensures
        library_tracks(library_spec(ts, root), library_spec(ts, root).len()) == ts.len(),
{
    let ks = sorted_set_of(artist_keys(ts, root));
    lemma_sorted_set_of_props(artist_keys(ts, root));
    lemma_library_tracks_groups(ts, root, ks, ks.len());
    assert(ks.take(ks.len() as int) =~= ks);
    assert forall|i: int| 0 <= i < ts.len() implies ks.contains(artist_key(#[trigger] ts[i], root)) by {
        assert(artist_keys(ts, root)[i] == artist_key(ts[i], root));
        assert(artist_keys(ts, root).to_set().contains(artist_key(ts[i], root)));
    }
    lemma_artist_partition(ts, root, ks);
}

} // verus!
