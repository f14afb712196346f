//! Entries found by walking a tree, and the tag filters a walk applies.

use vstd::prelude::*;

use crate::config::{globs_match, set_is_match, set_patterns, Filters};
use crate::paths::{order_paths, path_order};
use crate::text::{lowercase, str_eq, to_lowercase};

verus! {

/// One file found by a walk.
#[derive(Debug, Clone)]
pub struct Entry {
    /// Path relative to the walk root, with `/` separators.
    pub rel: String,
    pub size: u64,
    /// Modification time in nanoseconds since the UNIX epoch; 0 if unavailable.
    pub mtime_ns: i128,
    /// blake3 digest of the content, when the walk computed hashes.
    pub hash: Option<[u8; 32]>,
    /// When the file stands for a transcoded source, the source's extension.
    pub src_ext: Option<String>,
}

/// What a file's audio header and primary tag say, as far as the tag
/// filters need it.
#[derive(Debug, Clone)]
pub struct AudioTags {
    pub sample_rate: Option<u32>,
    pub bit_depth: Option<u8>,
    pub artist: Option<String>,
    pub genre: Option<String>,
}

/// Some entry of `list`, lowercased, equals `x`.
pub open spec fn any_lower_eq(list: Seq<String>, x: Seq<char>) -> bool {
    exists|k: int| 0 <= k < list.len() && lowercase(#[trigger] list[k]@) == x
}

/// The lowercase of a tag value; empty when the tag is missing.
pub open spec fn lower_or_empty(v: Option<String>) -> Seq<char> {
    match v {
        Some(s) => lowercase(s@),
        None => Seq::empty(),
    }
}

/// Whether a file passes the tag filters. A file whose header cannot be
/// read (`None`) passes: files that cannot be inspected are never dropped.
/// Otherwise a known sample rate must reach the minimum and not exceed the
/// maximum, a known bit depth must reach the minimum (an unknown value is
/// not strictly below or above any limit, so it passes); and, when artist or genre lists are set, its lowercased
/// artist must be in the include list (if any) and not in the exclude list,
/// likewise its genre.
pub open spec fn tag_matches_spec(tags: Option<AudioTags>, f: Filters) -> bool {
    match tags {
        None => true,
        Some(t) => {
            let min_sr_ok = match f.min_sample_rate_hz {
                Some(min) => !(t.sample_rate matches Some(sr) && sr < min),
                None => true,
            };
            let max_sr_ok = match f.max_sample_rate_hz {
                Some(max) => !(t.sample_rate matches Some(sr) && sr > max),
                None => true,
            };
            let bd_ok = match f.min_bit_depth {
                Some(min) => !(t.bit_depth matches Some(bd) && bd < min),
                None => true,
            };
            let no_lists = f.include_artists@.len() == 0 && f.exclude_artists@.len() == 0
                && f.include_genres@.len() == 0 && f.exclude_genres@.len() == 0;
            let a = lower_or_empty(t.artist);
            let g = lower_or_empty(t.genre);
            let lists_ok = (f.include_artists@.len() == 0 || any_lower_eq(f.include_artists@, a))
                && !any_lower_eq(f.exclude_artists@, a) && (f.include_genres@.len() == 0
                || any_lower_eq(f.include_genres@, g)) && !any_lower_eq(f.exclude_genres@, g);
            min_sr_ok && max_sr_ok && bd_ok && (no_lists || lists_ok)
        },
    }
}

/// What each tag filter does to a file whose header was read: a known
/// sample rate strictly below the minimum or above the maximum, or a known
/// bit depth strictly below the minimum, drops it; an artist (or genre)
/// equal, ignoring case, to an excluded one drops it, and so does one that
/// is in none of a non-empty include list, whatever the other tags say; a
/// file that none of these rules drops passes. A file whose header cannot
/// be read always passes.
pub proof fn lemma_tag_filter_rules(t: AudioTags, f: Filters)
    ensures
        tag_matches_spec(None, f),
        t.sample_rate matches Some(sr) && f.min_sample_rate_hz matches Some(m) && sr < m ==> !tag_matches_spec(
            Some(t),
            f,
        ),
        t.sample_rate matches Some(sr) && f.max_sample_rate_hz matches Some(m) && sr > m ==> !tag_matches_spec(
            Some(t),
            f,
        ),
        t.bit_depth matches Some(bd) && f.min_bit_depth matches Some(m) && bd < m ==> !tag_matches_spec(Some(t), f),
        t.artist matches Some(a) && (exists|k: int|
            0 <= k < f.exclude_artists@.len() && lowercase(#[trigger] f.exclude_artists@[k]@) == lowercase(a@))
            ==> !tag_matches_spec(Some(t), f),
        t.genre matches Some(g) && (exists|k: int|
            0 <= k < f.exclude_genres@.len() && lowercase(#[trigger] f.exclude_genres@[k]@) == lowercase(g@))
            ==> !tag_matches_spec(Some(t), f),
        t.artist matches Some(a) && f.include_artists@.len() > 0 && (forall|k: int|
            0 <= k < f.include_artists@.len() ==> lowercase(#[trigger] f.include_artists@[k]@) != lowercase(a@))
            ==> !tag_matches_spec(Some(t), f),
        t.genre matches Some(g) && f.include_genres@.len() > 0 && (forall|k: int|
            0 <= k < f.include_genres@.len() ==> lowercase(#[trigger] f.include_genres@[k]@) != lowercase(g@))
            ==> !tag_matches_spec(Some(t), f),
        ({
            let a = match t.artist {
                Some(x) => lowercase(x@),
                None => Seq::<char>::empty(),
            };
            let g = match t.genre {
                Some(x) => lowercase(x@),
                None => Seq::<char>::empty(),
            };
            &&& !(t.sample_rate matches Some(sr) && f.min_sample_rate_hz matches Some(m) && sr < m)
            &&& !(t.sample_rate matches Some(sr) && f.max_sample_rate_hz matches Some(m) && sr > m)
            &&& !(t.bit_depth matches Some(bd) && f.min_bit_depth matches Some(m) && bd < m)
            &&& (forall|k: int| 0 <= k < f.exclude_artists@.len() ==> lowercase(#[trigger] f.exclude_artists@[k]@) != a)
            &&& (forall|k: int| 0 <= k < f.exclude_genres@.len() ==> lowercase(#[trigger] f.exclude_genres@[k]@) != g)
            &&& (f.include_artists@.len() == 0 || exists|k: int|
                0 <= k < f.include_artists@.len() && lowercase(#[trigger] f.include_artists@[k]@) == a)
            &&& (f.include_genres@.len() == 0 || exists|k: int|
                0 <= k < f.include_genres@.len() && lowercase(#[trigger] f.include_genres@[k]@) == g)
        }) ==> tag_matches_spec(Some(t), f),
{
}

fn lower_eq_any(list: &Vec<String>, x: &str) -> (r: bool)
    ensures
        r == any_lower_eq(list@, x@),
{
    let mut i: usize = 0;
    while i < list.len()
        invariant
            0 <= i <= list@.len(),
            forall|k: int| 0 <= k < i ==> lowercase(#[trigger] list@[k]@) != x@,
        decreases list@.len() - i,
    {
        let l = to_lowercase(list[i].as_str());
        if str_eq(l.as_str(), x) {
            return true;
        }
        i += 1;
    }
    false
}

fn lower_or_empty_exec(v: &Option<String>) -> (r: String)
    ensures
        r@ == lower_or_empty(*v),
{
    match v {
        Some(s) => to_lowercase(s.as_str()),
        None => String::new(),
    }
}

/// Whether a file with header and tags `tags` (`None`: unreadable) passes
/// the tag filters of `f`.
pub fn tag_matches(tags: Option<&AudioTags>, f: &Filters) -> (r: bool)
    ensures
        r == tag_matches_spec(
            match tags {
                Some(t) => Some(*t),
                None => None,
            },
            *f,
        ),
{
    let t = match tags {
        None => return true,
        Some(t) => t,
    };
    if let Some(min) = f.min_sample_rate_hz {
        if let Some(sr) = t.sample_rate {
            if sr < min {
                return false;
            }
        }
    }
    if let Some(max) = f.max_sample_rate_hz {
        if let Some(sr) = t.sample_rate {
            if sr > max {
                return false;
            }
        }
    }
    if let Some(min_bd) = f.min_bit_depth {
        if let Some(bd) = t.bit_depth {
            if bd < min_bd {
                return false;
            }
        }
    }
    if f.include_artists.len() == 0 && f.exclude_artists.len() == 0 && f.include_genres.len() == 0
        && f.exclude_genres.len() == 0 {
        return true;
    }
    let a = lower_or_empty_exec(&t.artist);
    let g = lower_or_empty_exec(&t.genre);
    if f.include_artists.len() > 0 && !lower_eq_any(&f.include_artists, a.as_str()) {
        return false;
    }
    if lower_eq_any(&f.exclude_artists, a.as_str()) {
        return false;
    }
    if f.include_genres.len() > 0 && !lower_eq_any(&f.include_genres, g.as_str()) {
        return false;
    }
    if lower_eq_any(&f.exclude_genres, g.as_str()) {
        return false;
    }
    true
}

/// Whether a walk keeps the file at `rel` (relative, `/`-separated): it
/// matches no exclusion glob and, when inclusion globs are set, one of them.
pub fn admits(rel: &str, exclude: &globset::GlobSet, only: Option<&globset::GlobSet>) -> (r: bool)
    ensures
        r == (!globs_match(set_patterns(*exclude), rel@) && match only {
            Some(i) => globs_match(set_patterns(*i), rel@),
            None => true,
        }),
{
    if set_is_match(exclude, rel) {
        return false;
    }
    match only {
        Some(i) => set_is_match(i, rel),
        None => true,
    }
}

// ── Walk order ───────────────────────────────────────────────────────────────

/// Entries in ascending camino path order (equal paths in any order).
pub open spec fn path_nondecreasing(s: Seq<Entry>) -> bool {
    forall|i: int, j: int| 0 <= i < j < s.len() ==> path_order(#[trigger] s[i].rel@, #[trigger] s[j].rel@) <= 0
}

/// Entries in descending camino path order.
pub open spec fn path_nonincreasing(s: Seq<Entry>) -> bool {
    forall|i: int, j: int| 0 <= i < j < s.len() ==> path_order(#[trigger] s[j].rel@, #[trigger] s[i].rel@) <= 0
}

proof fn lemma_empty_multiset(s: Seq<Entry>)
    requires
        s.len() == 0,
    ensures
        s.to_multiset() == vstd::multiset::Multiset::<Entry>::empty(),
{
    broadcast use vstd::multiset::group_multiset_axioms;
    broadcast use vstd::seq_lib::group_to_multiset_ensures;

    assert(s.to_multiset().len() == 0);
    assert(s.to_multiset() =~= vstd::multiset::Multiset::<Entry>::empty());
}

/// Merges two ascending lists into one descending list, taking the larger
/// last entry each time.
fn merge_desc(left: Vec<Entry>, right: Vec<Entry>) -> (r: Vec<Entry>)
    requires
        path_nondecreasing(left@),
        path_nondecreasing(right@),
    ensures
        path_nonincreasing(r@),
        r@.to_multiset() == left@.to_multiset().add(right@.to_multiset()),
{
    broadcast use vstd::multiset::group_multiset_axioms;

    let mut l = left;
    let mut rt = right;
    let mut out: Vec<Entry> = Vec::new();
    proof {
        lemma_empty_multiset(out@);
        assert(out@.to_multiset().add(l@.to_multiset()).add(rt@.to_multiset()) =~= left@.to_multiset().add(
            right@.to_multiset(),
        ));
    }
    while l.len() > 0 || rt.len() > 0
        invariant
            path_nondecreasing(l@),
            path_nondecreasing(rt@),
            path_nonincreasing(out@),
            forall|i: int, k: int|
                0 <= i < out@.len() && 0 <= k < l@.len() ==> path_order(#[trigger] l@[k].rel@, #[trigger] out@[i].rel@)
                    <= 0,
            forall|i: int, k: int|
                0 <= i < out@.len() && 0 <= k < rt@.len() ==> path_order(#[trigger] rt@[k].rel@, #[trigger] out@[i].rel@)
                    <= 0,
            out@.to_multiset().add(l@.to_multiset()).add(rt@.to_multiset()) == left@.to_multiset().add(
                right@.to_multiset(),
            ),
        decreases l@.len() + rt@.len(),
    {
        let ghost lo = l@;
        let ghost ro = rt@;
        let ghost oo = out@;
        let take_left = if l.len() == 0 {
            false
        } else if rt.len() == 0 {
            true
        } else {
            let o = order_paths(l[l.len() - 1].rel.as_str(), rt[rt.len() - 1].rel.as_str());
            proof {
                let a = lo.last().rel@;
                let b = ro.last().rel@;
                if o >= 0 {
                    assert forall|k: int| 0 <= k < ro.len() implies path_order(ro[k].rel@, a) <= 0 by {
                        if k < ro.len() - 1 {
                            assert(path_order(ro[k].rel@, ro[ro.len() - 1].rel@) <= 0);
                        }
                    }
                } else {
                    assert forall|k: int| 0 <= k < lo.len() implies path_order(lo[k].rel@, b) <= 0 by {
                        if k < lo.len() - 1 {
                            assert(path_order(lo[k].rel@, lo[lo.len() - 1].rel@) <= 0);
                        }
                    }
                }
            }
            o >= 0
        };
        let x = if take_left {
            l.pop().unwrap()
        } else {
            rt.pop().unwrap()
        };
        out.push(x);
        proof {
            if take_left {
                assert(lo =~= l@.push(x));
                vstd::seq_lib::to_multiset_build(l@, x);
                assert forall|k: int| 0 <= k < rt@.len() implies path_order(rt@[k].rel@, x.rel@) <= 0 by {
                    if l@.len() + 1 > 0 && ro.len() > 0 {
                        assert(rt@[k] == ro[k]);
                    }
                }
            } else {
                assert(ro =~= rt@.push(x));
                vstd::seq_lib::to_multiset_build(rt@, x);
                assert forall|k: int| 0 <= k < l@.len() implies path_order(l@[k].rel@, x.rel@) <= 0 by {
                    assert(l@[k] == lo[k]);
                }
            }
            vstd::seq_lib::to_multiset_build(oo, x);
            assert(out@ == oo.push(x));
            assert(out@.to_multiset().add(l@.to_multiset()).add(rt@.to_multiset()) =~= oo.to_multiset().add(
                lo.to_multiset(),
            ).add(ro.to_multiset()));
        }
    }
    proof {
        lemma_empty_multiset(l@);
        lemma_empty_multiset(rt@);
        assert(out@.to_multiset() =~= out@.to_multiset().add(l@.to_multiset()).add(rt@.to_multiset()));
    }
    out
}

/// Sorts entries into ascending camino path order (a merge sort); equal
/// paths may come in any order.
pub fn sort_by_path(entries: Vec<Entry>) -> (r: Vec<Entry>)
    ensures
        path_nondecreasing(r@),
        r@.to_multiset() == entries@.to_multiset(),
    decreases entries@.len(),
{
    broadcast use vstd::multiset::group_multiset_axioms;

    if entries.len() <= 1 {
        return entries;
    }
    let mut left = entries;
    let ghost all = left@;
    let mid = left.len() / 2;
    let right = left.split_off(mid);
    proof {
        assert(all =~= left@ + right@);
        vstd::seq_lib::lemma_multiset_commutative(left@, right@);
    }
    let left = sort_by_path(left);
    let right = sort_by_path(right);
    let mut desc = merge_desc(left, right);
    let ghost d = desc@;
    let mut out: Vec<Entry> = Vec::new();
    proof {
        lemma_empty_multiset(out@);
        assert(out@.to_multiset().add(desc@.to_multiset()) =~= d.to_multiset());
    }
    while desc.len() > 0
        invariant
            path_nonincreasing(desc@),
            path_nondecreasing(out@),
            forall|i: int, k: int|
                0 <= i < out@.len() && 0 <= k < desc@.len() ==> path_order(#[trigger] out@[i].rel@, #[trigger] desc@[k].rel@)
                    <= 0,
            out@.to_multiset().add(desc@.to_multiset()) == d.to_multiset(),
        decreases desc@.len(),
    {
        let ghost dd = desc@;
        let ghost oo = out@;
        let x = desc.pop().unwrap();
        out.push(x);
        proof {
            assert(dd =~= desc@.push(x));
            vstd::seq_lib::to_multiset_build(desc@, x);
            vstd::seq_lib::to_multiset_build(oo, x);
            assert(out@ == oo.push(x));
            assert forall|k: int| 0 <= k < desc@.len() implies path_order(x.rel@, desc@[k].rel@) <= 0 by {
                assert(desc@[k] == dd[k]);
                assert(x == dd[dd.len() - 1]);
            }
            assert(out@.to_multiset().add(desc@.to_multiset()) =~= oo.to_multiset().add(dd.to_multiset()));
        }
    }
    proof {
        lemma_empty_multiset(desc@);
        assert(out@.to_multiset() =~= out@.to_multiset().add(desc@.to_multiset()));
        assert(d.to_multiset() =~= left@.to_multiset().add(right@.to_multiset()));
    }
    out
}

} // verus!
