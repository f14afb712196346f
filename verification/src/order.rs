//! Orderings on strings (as `Ord for str` orders them) and sorted sets.

use vstd::prelude::*;

use crate::text::{chars_of, chars_eq, lowercase, to_lowercase};

verus! {

/// `a < b` in lexicographic order of characters, which is the order of
/// `Ord for str` (UTF-8 preserves code point order).
pub open spec fn lex_lt(a: Seq<char>, b: Seq<char>) -> bool
    decreases a.len(),
{
    if a.len() == 0 {
        b.len() > 0
    } else if b.len() == 0 {
        false
    } else if a[0] < b[0] {
        true
    } else if a[0] > b[0] {
        false
    } else {
        lex_lt(a.drop_first(), b.drop_first())
    }
}

pub proof fn lemma_lex_irrefl(a: Seq<char>)
    ensures
        !lex_lt(a, a),
    decreases a.len(),
{
    if a.len() > 0 {
        lemma_lex_irrefl(a.drop_first());
    }
}

pub proof fn lemma_lex_trans(a: Seq<char>, b: Seq<char>, c: Seq<char>)
    requires
        lex_lt(a, b),
        lex_lt(b, c),
    ensures
        lex_lt(a, c),
    decreases a.len(),
{
    if a.len() > 0 && b.len() > 0 && c.len() > 0 {
        if a[0] == b[0] && b[0] == c[0] {
            lemma_lex_trans(a.drop_first(), b.drop_first(), c.drop_first());
        }
    }
}

pub proof fn lemma_lex_total(a: Seq<char>, b: Seq<char>)
    ensures
        lex_lt(a, b) || lex_lt(b, a) || a == b,
    decreases a.len(),
{
    if a.len() > 0 && b.len() > 0 && a[0] == b[0] {
        lemma_lex_total(a.drop_first(), b.drop_first());
        if a.drop_first() == b.drop_first() {
            assert(a =~= seq![a[0]] + a.drop_first());
            assert(b =~= seq![b[0]] + b.drop_first());
        }
    } else if a.len() == 0 && b.len() == 0 {
        assert(a =~= b);
    }
}

pub proof fn lemma_lex_asym(a: Seq<char>, b: Seq<char>)
    requires
        lex_lt(a, b),
    ensures
        !lex_lt(b, a),
        a != b,
{
    if lex_lt(b, a) {
        lemma_lex_trans(a, b, a);
        lemma_lex_irrefl(a);
    }
    lemma_lex_irrefl(a);
}

/// Strictly ascending.
pub open spec fn strictly_sorted(s: Seq<Seq<char>>) -> bool {
    forall|i: int, j: int| 0 <= i < j < s.len() ==> lex_lt(#[trigger] s[i], #[trigger] s[j])
}

/// `a < b` for strings, in the order of `Ord for str`.
pub fn str_lt(a: &str, b: &str) -> (r: bool)
    ensures
        r == lex_lt(a@, b@),
{
    let va = chars_of(a);
    let vb = chars_of(b);
    let mut i: usize = 0;
    assert(va@.skip(0) =~= va@);
    assert(vb@.skip(0) =~= vb@);
    while i < va.len() && i < vb.len() && va[i] == vb[i]
        invariant
            0 <= i <= va@.len(),
            i <= vb@.len(),
            lex_lt(va@, vb@) == lex_lt(va@.skip(i as int), vb@.skip(i as int)),
        decreases va@.len() - i,
    {
        assert(va@.skip(i as int).drop_first() =~= va@.skip(i as int + 1));
        assert(vb@.skip(i as int).drop_first() =~= vb@.skip(i as int + 1));
        i += 1;
    }
    if i == va.len() {
        i < vb.len()
    } else if i == vb.len() {
        false
    } else {
        va[i] < vb[i]
    }
}

/// Inserts `x` into the strictly ascending `v` unless it is already there.
pub fn insert_sorted_unique(v: &mut Vec<String>, x: String)
    requires
        strictly_sorted(old(v)@.map_values(|s: String| s@)),
    ensures
        strictly_sorted(final(v)@.map_values(|s: String| s@)),
        final(v)@.map_values(|s: String| s@).to_set() == old(v)@.map_values(|s: String| s@).to_set().insert(x@),
{
    let ghost s0 = v@.map_values(|s: String| s@);
    let mut p: usize = 0;
    while p < v.len() && str_lt(v[p].as_str(), x.as_str())
        invariant
            0 <= p <= v@.len(),
            s0 == v@.map_values(|s: String| s@),
            forall|k: int| 0 <= k < p ==> lex_lt(#[trigger] s0[k], x@),
        decreases v@.len() - p,
    {
        p += 1;
    }
    if p < v.len() {
        let same = chars_eq(&chars_of(v[p].as_str()), &chars_of(x.as_str()));
        if same {
            assert(s0[p as int] == x@);
            assert(s0.to_set().insert(x@) =~= s0.to_set());
            return;
        }
        proof {
            lemma_lex_total(s0[p as int], x@);
        }
    }
    let ghost xv = x@;
    v.insert(p, x);
    let ghost s1 = v@.map_values(|s: String| s@);
    assert(s1 =~= s0.insert(p as int, xv));
    assert forall|i: int, j: int| 0 <= i < j < s1.len() implies lex_lt(
        #[trigger] s1[i],
        #[trigger] s1[j],
    ) by {
        if j < p {
        } else if j == p {
        } else if i < p {
            if i < p && p < s0.len() {
                lemma_lex_trans(s0[i], xv, s0[p as int]);
            }
            assert(s1[j] == s0[j - 1]);
            if j - 1 > p {
                lemma_lex_trans(s0[i], s0[p as int], s0[j - 1]);
            }
        } else if i == p {
            assert(s1[j] == s0[j - 1]);
            if j - 1 > p {
                lemma_lex_trans(xv, s0[p as int], s0[j - 1]);
            }
        } else {
        }
    }
    assert(s1.to_set() =~= s0.to_set().insert(xv)) by {
        assert forall|e: Seq<char>| s1.to_set().contains(e) <==> s0.to_set().insert(xv).contains(e) by {
            if s1.to_set().contains(e) {
                let k = choose|k: int| 0 <= k < s1.len() && s1[k] == e;
                if k < p {
                    assert(s0[k] == e);
                } else if k > p {
                    assert(s0[k - 1] == e);
                }
            }
            if s0.to_set().contains(e) {
                let k = choose|k: int| 0 <= k < s0.len() && s0[k] == e;
                if k < p {
                    assert(s1[k] == e);
                } else {
                    assert(s1[k + 1] == e);
                }
            }
            if e == xv {
                assert(s1[p as int] == e);
            }
        }
    }
}

/// Removes `x` from the strictly ascending `v`, if it is there.
pub fn remove_sorted(v: &mut Vec<String>, x: &str)
    requires
        strictly_sorted(strs(old(v)@)),
    ensures
        strictly_sorted(strs(final(v)@)),
        strs(final(v)@).to_set() == strs(old(v)@).to_set().remove(x@),
{
    let ghost s0 = strs(v@);
    let (p, found) = sorted_position(v, x);
    if !found {
        assert(s0.to_set().remove(x@) =~= s0.to_set());
        return;
    }
    let ghost v0 = v@;
    v.remove(p);
    let ghost s1 = strs(v@);
    assert(s1 =~= s0.remove(p as int));
    assert forall|i: int, j: int| 0 <= i < j < s1.len() implies lex_lt(#[trigger] s1[i], #[trigger] s1[j]) by {
        if j < p {
        } else if i < p {
            assert(s1[j] == s0[j + 1]);
        } else {
            assert(s1[i] == s0[i + 1]);
            assert(s1[j] == s0[j + 1]);
        }
    }
    assert(s1.to_set() =~= s0.to_set().remove(x@)) by {
        assert forall|e: Seq<char>| s1.to_set().contains(e) <==> s0.to_set().remove(x@).contains(e) by {
            if s1.to_set().contains(e) {
                let k = choose|k: int| 0 <= k < s1.len() && s1[k] == e;
                if k < p {
                    assert(s0[k] == e);
                    assert(lex_lt(s0[k], s0[p as int]));
                    lemma_lex_irrefl(e);
                } else {
                    assert(s0[k + 1] == e);
                    assert(lex_lt(s0[p as int], s0[k + 1]));
                    lemma_lex_irrefl(e);
                }
            }
            if s0.to_set().remove(x@).contains(e) {
                let k = choose|k: int| 0 <= k < s0.len() && s0[k] == e;
                if k < p {
                    assert(s1[k] == e);
                } else if k > p {
                    assert(s1[k - 1] == e);
                }
            }
        }
    }
}

/// The distinct strings of `v`, in ascending order (`sort` then `dedup`).
pub fn sorted_unique(v: &Vec<String>) -> (r: Vec<String>)
    ensures
        strictly_sorted(r@.map_values(|s: String| s@)),
        r@.map_values(|s: String| s@).to_set() == v@.map_values(|s: String| s@).to_set(),
{
    let ghost vs = v@.map_values(|s: String| s@);
    let mut r: Vec<String> = Vec::new();
    let mut i: usize = 0;
    assert(r@.map_values(|s: String| s@).to_set() =~= vs.take(0).to_set());
    while i < v.len()
        invariant
            0 <= i <= v@.len(),
            vs == v@.map_values(|s: String| s@),
            strictly_sorted(r@.map_values(|s: String| s@)),
            r@.map_values(|s: String| s@).to_set() == vs.take(i as int).to_set(),
        decreases v@.len() - i,
    {
        insert_sorted_unique(&mut r, v[i].clone());
        assert(vs.take(i as int + 1) =~= vs.take(i as int).push(vs[i as int]));
        proof {
            vs.take(i as int).lemma_push_to_set_commute(vs[i as int]);
        }
        i += 1;
    }
    assert(vs.take(i as int) =~= vs);
    r
}


/// The views of a sequence of strings.
pub open spec fn strs(v: Seq<String>) -> Seq<Seq<char>> {
    v.map_values(|s: String| s@)
}

/// Where `x` stands in the strictly ascending `keys`: the first position
/// whose key is not below `x`, and whether the key there is `x`.
pub fn sorted_position(keys: &Vec<String>, x: &str) -> (r: (usize, bool))
    requires
        strictly_sorted(strs(keys@)),
    ensures
        r.0 <= keys@.len(),
        forall|k: int| 0 <= k < r.0 ==> lex_lt(#[trigger] keys@[k]@, x@),
        r.1 ==> r.0 < keys@.len() && keys@[r.0 as int]@ == x@,
        !r.1 ==> r.0 == keys@.len() || lex_lt(x@, keys@[r.0 as int]@),
        !r.1 ==> !strs(keys@).to_set().contains(x@),
{
    let mut p: usize = 0;
    while p < keys.len() && str_lt(keys[p].as_str(), x)
        invariant
            0 <= p <= keys@.len(),
            forall|k: int| 0 <= k < p ==> lex_lt(#[trigger] keys@[k]@, x@),
        decreases keys@.len() - p,
    {
        p += 1;
    }
    let found = p < keys.len() && chars_eq(&chars_of(keys[p].as_str()), &chars_of(x));
    if p < keys.len() && !found {
        proof {
            lemma_lex_total(keys@[p as int]@, x@);
        }
    }
    if !found {
        assert(!strs(keys@).to_set().contains(x@)) by {
            if strs(keys@).to_set().contains(x@) {
                let k = choose|k: int| 0 <= k < strs(keys@).len() && strs(keys@)[k] == x@;
                assert(keys@[k]@ == x@);
                lemma_lex_irrefl(x@);
                if k >= p {
                    assert(p < keys@.len());
                    if k > p {
                        assert(lex_lt(strs(keys@)[p as int], strs(keys@)[k]));
                        lemma_lex_trans(x@, keys@[p as int]@, x@);
                    }
                }
            }
        }
    }
    (p, found)
}

/// Inserting `x` where it belongs keeps a sequence strictly ascending and
/// adds `x` to its elements.
pub proof fn lemma_insert_sorted(s: Seq<Seq<char>>, p: int, x: Seq<char>)
    requires
        strictly_sorted(s),
        0 <= p <= s.len(),
        forall|k: int| 0 <= k < p ==> lex_lt(#[trigger] s[k], x),
        p < s.len() ==> lex_lt(x, s[p]),
    ensures
        strictly_sorted(s.insert(p, x)),
        s.insert(p, x).to_set() == s.to_set().insert(x),
{
    let s1 = s.insert(p, x);
    assert forall|i: int, j: int| 0 <= i < j < s1.len() implies lex_lt(#[trigger] s1[i], #[trigger] s1[j]) by {
        if j < p {
        } else if j == p {
        } else if i < p {
            assert(s1[j] == s[j - 1]);
            if j - 1 > p {
                lemma_lex_trans(s[i], s[p], s[j - 1]);
            } else {
                lemma_lex_trans(s[i], x, s[p]);
            }
        } else if i == p {
            assert(s1[j] == s[j - 1]);
            if j - 1 > p {
                lemma_lex_trans(x, s[p], s[j - 1]);
            }
        } else {
            assert(s1[i] == s[i - 1]);
            assert(s1[j] == s[j - 1]);
        }
    }
    assert(s1.to_set() =~= s.to_set().insert(x)) by {
        assert forall|e: Seq<char>| s1.to_set().contains(e) <==> s.to_set().insert(x).contains(e) by {
            if s1.to_set().contains(e) {
                let k = choose|k: int| 0 <= k < s1.len() && s1[k] == e;
                if k < p {
                    assert(s[k] == e);
                } else if k > p {
                    assert(s[k - 1] == e);
                }
            }
            if s.to_set().contains(e) {
                let k = choose|k: int| 0 <= k < s.len() && s[k] == e;
                if k < p {
                    assert(s1[k] == e);
                } else {
                    assert(s1[k + 1] == e);
                }
            }
            if e == x {
                assert(s1[p] == e);
            }
        }
    }
}

} // verus!

verus! {

/// Two strictly ascending sequences with the same elements are equal.
pub proof fn lemma_sorted_set_unique(a: Seq<Seq<char>>, b: Seq<Seq<char>>)
    requires
        strictly_sorted(a),
        strictly_sorted(b),
        a.to_set() == b.to_set(),
    ensures
        a == b,
    decreases a.len(),
{
    if a.len() == 0 {
        if b.len() > 0 {
            assert(b.to_set().contains(b[0]));
        }
        assert(a =~= b);
    } else {
        assert(a.to_set().contains(a[0]));
        assert(b.to_set().contains(a[0]));
        assert(b.len() > 0);
        assert(b.to_set().contains(b[0]));
        assert(a.to_set().contains(b[0]));
        let ka = choose|k: int| 0 <= k < b.len() && b[k] == a[0];
        let kb = choose|k: int| 0 <= k < a.len() && a[k] == b[0];
        if ka > 0 && kb > 0 {
            assert(lex_lt(b[0], b[ka]));
            assert(lex_lt(a[0], a[kb]));
            lemma_lex_asym(b[0], a[0]);
        } else if ka > 0 {
            assert(lex_lt(b[0], b[ka]));
            lemma_lex_irrefl(a[0]);
        } else if kb > 0 {
            assert(lex_lt(a[0], a[kb]));
            lemma_lex_irrefl(b[0]);
        }
        assert(a[0] == b[0]);
        let a2 = a.drop_first();
        let b2 = b.drop_first();
        assert forall|e: Seq<char>| a2.to_set().contains(e) <==> b2.to_set().contains(e) by {
            if a2.to_set().contains(e) {
                let k = choose|k: int| 0 <= k < a2.len() && a2[k] == e;
                assert(a[k + 1] == e);
                assert(lex_lt(a[0], a[k + 1]));
                lemma_lex_irrefl(e);
                assert(b.to_set().contains(e));
                let m = choose|m: int| 0 <= m < b.len() && b[m] == e;
                assert(m != 0);
                assert(b2[m - 1] == e);
            }
            if b2.to_set().contains(e) {
                let k = choose|k: int| 0 <= k < b2.len() && b2[k] == e;
                assert(b[k + 1] == e);
                assert(lex_lt(b[0], b[k + 1]));
                lemma_lex_irrefl(e);
                assert(a.to_set().contains(e));
                let m = choose|m: int| 0 <= m < a.len() && a[m] == e;
                assert(m != 0);
                assert(a2[m - 1] == e);
            }
        }
        assert(a2.to_set() =~= b2.to_set());
        lemma_sorted_set_unique(a2, b2);
        assert(a =~= seq![a[0]] + a2);
        assert(b =~= seq![b[0]] + b2);
    }
}

/// The strings of `s` in ascending order without repeats.
pub open spec fn sorted_set_of(s: Seq<Seq<char>>) -> Seq<Seq<char>> {
    choose|r: Seq<Seq<char>>| strictly_sorted(r) && r.to_set() == s.to_set()
}

/// `sorted_unique` returns exactly `sorted_set_of`.
pub proof fn lemma_sorted_set_of(r: Seq<Seq<char>>, s: Seq<Seq<char>>)
    requires
        strictly_sorted(r),
        r.to_set() == s.to_set(),
    ensures
        sorted_set_of(s) == r,
{
    let c = sorted_set_of(s);
    assert(strictly_sorted(c) && c.to_set() == s.to_set());
    lemma_sorted_set_unique(c, r);
}

/// Index of the first element of `r` from `i` on that `x` is below.
pub open spec fn first_above(r: Seq<Seq<char>>, x: Seq<char>, i: int) -> int
    decreases r.len() - i,
{
    if i < 0 || i >= r.len() {
        r.len() as int
    } else if lex_lt(x, r[i]) {
        i
    } else {
        first_above(r, x, i + 1)
    }
}

proof fn lemma_first_above(r: Seq<Seq<char>>, x: Seq<char>, i: int)
    requires
        0 <= i <= r.len(),
        !r.contains(x),
        forall|k: int| 0 <= k < i ==> lex_lt(#[trigger] r[k], x),
    ensures
        i <= first_above(r, x, i) <= r.len(),
        forall|k: int| 0 <= k < first_above(r, x, i) ==> lex_lt(#[trigger] r[k], x),
        first_above(r, x, i) < r.len() ==> lex_lt(x, r[first_above(r, x, i)]),
    decreases r.len() - i,
{
    if i < r.len() && !lex_lt(x, r[i]) {
        lemma_lex_total(x, r[i]);
        if r[i] == x {
            assert(r.contains(x));
        }
        lemma_first_above(r, x, i + 1);
    }
}

/// Every sequence of strings has a strictly ascending arrangement of its
/// elements, so `sorted_set_of` is one.
pub proof fn lemma_sorted_set_of_props(s: Seq<Seq<char>>)
    ensures
        strictly_sorted(sorted_set_of(s)),
        sorted_set_of(s).to_set() == s.to_set(),
{
    let r = sorted_arrangement(s);
    lemma_sorted_set_of(r, s);
}

proof fn sorted_arrangement(s: Seq<Seq<char>>) -> (r: Seq<Seq<char>>)
    ensures
        strictly_sorted(r),
        r.to_set() == s.to_set(),
    decreases s.len(),
{
    if s.len() == 0 {
        let r = Seq::<Seq<char>>::empty();
        assert(r.to_set() =~= s.to_set());
        r
    } else {
        let pre = s.drop_last();
        let x = s.last();
        let r0 = sorted_arrangement(pre);
        assert(s =~= pre.push(x));
        pre.lemma_push_to_set_commute(x);
        if r0.contains(x) {
            assert(r0.to_set().insert(x) =~= r0.to_set());
            r0
        } else {
            lemma_first_above(r0, x, 0);
            let p = first_above(r0, x, 0);
            lemma_insert_sorted(r0, p, x);
            r0.insert(p, x)
        }
    }
}


// ── Case-insensitive stable sort ─────────────────────────────────────────────

/// `a` sorts after `x` when names are compared by their lowercase.
pub open spec fn lower_after(a: Seq<char>, x: Seq<char>) -> bool {
    lex_lt(lowercase(x), lowercase(a))
}

/// Index of the first name from `i` on that sorts after `x`.
pub open spec fn lower_upper(s: Seq<Seq<char>>, x: Seq<char>, i: int) -> int
    decreases s.len() - i,
{
    if i < 0 || i >= s.len() {
        s.len() as int
    } else if lower_after(s[i], x) {
        i
    } else {
        lower_upper(s, x, i + 1)
    }
}

/// The stable sort of `s` by lowercase (`sort_by_key(|a| a.to_lowercase())`):
/// each name goes after every earlier one that does not sort after it.
pub open spec fn sort_lower_spec(s: Seq<Seq<char>>) -> Seq<Seq<char>>
    decreases s.len(),
{
    if s.len() == 0 {
        s
    } else {
        let t = sort_lower_spec(s.drop_last());
        t.insert(lower_upper(t, s.last(), 0), s.last())
    }
}

/// No name sorts after a later one.
pub open spec fn lower_sorted(s: Seq<Seq<char>>) -> bool {
    forall|i: int, j: int| 0 <= i < j < s.len() ==> !lower_after(#[trigger] s[i], #[trigger] s[j])
}

/// Sorts names by their lowercase, keeping the order of names whose
/// lowercase is the same.
pub fn sort_by_lower(names: Vec<String>) -> (r: Vec<String>)
    ensures
        strs(r@) == sort_lower_spec(strs(names@)),
        lower_sorted(strs(r@)),
        r@.len() == names@.len(),
{
    let ghost src = strs(names@);
    let mut rest = names;
    let mut out: Vec<String> = Vec::new();
    let mut keys: Vec<String> = Vec::new();
    let ghost mut i: int = 0;
    assert(src.take(0) =~= Seq::<Seq<char>>::empty());
    while rest.len() > 0
        invariant
            0 <= i <= src.len(),
            strs(rest@) == src.skip(i),
            strs(out@) == sort_lower_spec(src.take(i)),
            lower_sorted(strs(out@)),
            out@.len() == i,
            keys@.len() == out@.len(),
            forall|k: int| 0 <= k < keys@.len() ==> #[trigger] keys@[k]@ == lowercase(out@[k]@),
        decreases rest@.len(),
    {
        let ghost rv = strs(rest@);
        assert(rv.len() == rest@.len());
        assert(rv.len() == src.len() - i);
        assert(rv[0] == src[i]);
        let ghost r0 = rest@;
        let x = rest.remove(0);
        assert(strs(rest@) =~= src.skip(i + 1)) by {
            assert(rest@ =~= r0.remove(0));
            assert(rv.drop_first() =~= src.skip(i + 1));
        }
        let kx = to_lowercase(x.as_str());
        let ghost xv = x@;
        let ghost s = strs(out@);
        let mut p: usize = 0;
        while p < out.len() && !str_lt(kx.as_str(), keys[p].as_str())
            invariant
                0 <= p <= out@.len(),
                s == strs(out@),
                keys@.len() == out@.len(),
                forall|k: int| 0 <= k < keys@.len() ==> #[trigger] keys@[k]@ == lowercase(out@[k]@),
                kx@ == lowercase(xv),
                lower_upper(s, xv, 0) == lower_upper(s, xv, p as int),
                forall|k: int| 0 <= k < p ==> !lower_after(#[trigger] s[k], xv),
            decreases out@.len() - p,
        {
            assert(keys@[p as int]@ == lowercase(out@[p as int]@));
            assert(s[p as int] == out@[p as int]@);
            p += 1;
        }
        proof {
            if p < out@.len() {
                assert(keys@[p as int]@ == lowercase(out@[p as int]@));
                assert(s[p as int] == out@[p as int]@);
            }
        }
        let ghost k0 = keys@;
        let ghost o0 = out@;
        out.insert(p, x);
        keys.insert(p, kx);
        let ghost s1 = strs(out@);
        assert(s1 =~= s.insert(p as int, xv));
        assert forall|k: int| 0 <= k < keys@.len() implies #[trigger] keys@[k]@ == lowercase(out@[k]@) by {
            if k < p {
                assert(keys@[k] == k0[k] && out@[k] == o0[k]);
            } else if k > p {
                assert(keys@[k] == k0[k - 1] && out@[k] == o0[k - 1]);
            }
        }
        assert(lower_sorted(s1)) by {
            assert forall|a: int, b: int| 0 <= a < b < s1.len() implies !lower_after(#[trigger] s1[a], #[trigger] s1[b]) by {
                if a < p && b > p {
                    assert(s1[b] == s[b - 1]);
                } else if a == p {
                    assert(s1[b] == s[b - 1]);
                    assert(lower_after(s[p as int], xv));
                    if b - 1 > p {
                        if lower_after(xv, s[b - 1]) {
                            lemma_lex_trans(lowercase(s[b - 1]), lowercase(xv), lowercase(s[p as int]));
                        }
                    } else {
                        lemma_lex_asym(lowercase(xv), lowercase(s[p as int]));
                    }
                } else if a > p {
                    assert(s1[a] == s[a - 1]);
                    assert(s1[b] == s[b - 1]);
                }
            }
        }
        assert(src.take(i + 1).drop_last() =~= src.take(i));
        assert(src.take(i + 1).last() == xv);
        proof {
            i = i + 1;
        }
    }
    assert(src.take(i) =~= src);
    out
}

} // verus!
