//! Character-level string helpers shared by the parsers and formatters.
//!
//! Strings are handled as sequences of `char`; `trim` follows
//! `char::is_whitespace` (the Unicode `White_Space` property) and number
//! parsing follows `u64::from_str`.

use vstd::prelude::*;

verus! {

// ── Views and building blocks ────────────────────────────────────────────────

/// The characters of `s`, in order.
pub fn chars_of(s: &str) -> (r: Vec<char>)
    ensures
        r@ == s@,
{
    let mut r: Vec<char> = Vec::new();
    for c in it: s.chars()
        invariant
            r@ == it.seq().take(it.index() as int),
    {
        r.push(c);
    }
    r
}

/// Appends one character to `s` (`String::push`).
#[verifier::external_body]
pub(crate) fn push_char(s: &mut String, c: char)
    ensures
        final(s)@ == old(s)@.push(c),
{
    s.push(c);
}

/// Appends `t` to `s`.
pub fn push_str(s: &mut String, t: &str)
    ensures
        final(s)@ == old(s)@ + t@,
{
    let ghost s0 = s@;
    for c in it: t.chars()
        invariant
            s@ == s0 + it.seq().take(it.index() as int),
    {
        push_char(s, c);
    }
}

/// A `String` holding exactly the characters `v[lo..hi]`.
pub fn string_of_range(v: &Vec<char>, lo: usize, hi: usize) -> (r: String)
    requires
        lo <= hi <= v@.len(),
    ensures
        r@ == v@.subrange(lo as int, hi as int),
{
    let mut r = String::new();
    let mut i: usize = lo;
    while i < hi
        invariant
            lo <= i <= hi <= v@.len(),
            r@ == v@.subrange(lo as int, i as int),
        decreases hi - i,
    {
        push_char(&mut r, v[i]);
        i += 1;
    }
    r
}

/// A `String` holding exactly the characters of `v`.
pub fn string_of(v: &Vec<char>) -> (r: String)
    ensures
        r@ == v@,
{
    string_of_range(v, 0, v.len())
}

/// The characters `v[lo..hi]` as a new vector.
pub fn sub_chars(v: &Vec<char>, lo: usize, hi: usize) -> (r: Vec<char>)
    requires
        lo <= hi <= v@.len(),
    ensures
        r@ == v@.subrange(lo as int, hi as int),
{
    let mut r: Vec<char> = Vec::new();
    let mut i: usize = lo;
    while i < hi
        invariant
            lo <= i <= hi <= v@.len(),
            r@ == v@.subrange(lo as int, i as int),
        decreases hi - i,
    {
        r.push(v[i]);
        i += 1;
    }
    r
}

/// Whether two character sequences are equal.
pub fn chars_eq(a: &Vec<char>, b: &Vec<char>) -> (r: bool)
    ensures
        r == (a@ == b@),
{
    if a.len() != b.len() {
        return false;
    }
    let mut i: usize = 0;
    while i < a.len()
        invariant
            a@.len() == b@.len(),
            0 <= i <= a@.len(),
            forall|k: int| 0 <= k < i ==> a@[k] == b@[k],
        decreases a@.len() - i,
    {
        if a[i] != b[i] {
            return false;
        }
        i += 1;
    }
    assert(a@ =~= b@);
    true
}

/// Whether two strings hold the same characters.
pub fn str_eq(a: &str, b: &str) -> (r: bool)
    ensures
        r == (a@ == b@),
{
    let va = chars_of(a);
    let vb = chars_of(b);
    chars_eq(&va, &vb)
}

// ── Searching ────────────────────────────────────────────────────────────────

/// Index of the first `c` in `s` at or after `from`, or `-1` when there is none.
pub open spec fn find_from(s: Seq<char>, c: char, from: int) -> int
    decreases s.len() - from,
{
    if from < 0 || from >= s.len() {
        -1
    } else if s[from] == c {
        from
    } else {
        find_from(s, c, from + 1)
    }
}

/// Index of the first `c` in `s`, or `-1`.
pub open spec fn find_char(s: Seq<char>, c: char) -> int {
    find_from(s, c, 0)
}

pub proof fn lemma_find_from_bounds(s: Seq<char>, c: char, from: int)
    requires
        0 <= from,
    ensures
        find_from(s, c, from) == -1 || (from <= find_from(s, c, from) < s.len() && s[find_from(
            s,
            c,
            from,
        )] == c),
        find_from(s, c, from) == -1 ==> forall|k: int| from <= k < s.len() ==> s[k] != c,
        find_from(s, c, from) >= 0 ==> forall|k: int|
            from <= k < find_from(s, c, from) ==> s[k] != c,
    decreases s.len() - from,
{
    if from < s.len() && s[from] != c {
        lemma_find_from_bounds(s, c, from + 1);
    }
}

/// Searching a suffix is searching the whole from the suffix's start.
pub proof fn lemma_find_skip(s: Seq<char>, c: char, k: int, from: int)
    requires
        0 <= k <= s.len(),
        0 <= from,
    ensures
        find_from(s.skip(k), c, from) == if find_from(s, c, k + from) < 0 {
            -1
        } else {
            find_from(s, c, k + from) - k
        },
    decreases s.len() - k - from,
{
    if k + from < s.len() && s[k + from] != c {
        lemma_find_skip(s, c, k, from + 1);
    }
}

/// First index `i >= from` with `v[i] == c`, or `v.len()` when there is none.
pub fn find_char_from(v: &Vec<char>, c: char, from: usize) -> (r: usize)
    requires
        from <= v@.len(),
    ensures
        from <= r <= v@.len(),
        r < v@.len() ==> find_from(v@, c, from as int) == r,
        r == v@.len() ==> find_from(v@, c, from as int) == -1,
{
    let mut i: usize = from;
    while i < v.len()
        invariant
            from <= i <= v@.len(),
            find_from(v@, c, from as int) == find_from(v@, c, i as int),
        decreases v@.len() - i,
    {
        if v[i] == c {
            return i;
        }
        i += 1;
    }
    i
}

// ── Whitespace and trimming ──────────────────────────────────────────────────

/// The Unicode `White_Space` property, as tested by `char::is_whitespace`.
pub open spec fn is_ws(c: char) -> bool {
    let u = c as u32;
    (0x09 <= u <= 0x0D) || u == 0x20 || u == 0x85 || u == 0xA0 || u == 0x1680 || (0x2000 <= u
        <= 0x200A) || u == 0x2028 || u == 0x2029 || u == 0x202F || u == 0x205F || u == 0x3000
}

/// Executable `is_ws`.
pub fn is_whitespace(c: char) -> (r: bool)
    ensures
        r == is_ws(c),
{
    let u = c as u32;
    (0x09 <= u && u <= 0x0D) || u == 0x20 || u == 0x85 || u == 0xA0 || u == 0x1680 || (0x2000 <= u
        && u <= 0x200A) || u == 0x2028 || u == 0x2029 || u == 0x202F || u == 0x205F || u == 0x3000
}

/// Index of the first non-whitespace character at or after `i`.
pub open spec fn lead_ws(s: Seq<char>, i: int) -> int
    decreases s.len() - i,
{
    if 0 <= i < s.len() && is_ws(s[i]) {
        lead_ws(s, i + 1)
    } else {
        i
    }
}

/// End of `s[lo..j]` once trailing whitespace is dropped.
pub open spec fn trail_ws(s: Seq<char>, lo: int, j: int) -> int
    decreases j - lo,
{
    if lo < j && j <= s.len() && is_ws(s[j - 1]) {
        trail_ws(s, lo, j - 1)
    } else {
        j
    }
}

/// `s` without leading and trailing whitespace (`str::trim`).
pub open spec fn trim(s: Seq<char>) -> Seq<char> {
    let lo = lead_ws(s, 0);
    s.subrange(lo, trail_ws(s, lo, s.len() as int))
}

pub proof fn lemma_lead_ws_bounds(s: Seq<char>, i: int)
    requires
        0 <= i <= s.len(),
    ensures
        i <= lead_ws(s, i) <= s.len(),
    decreases s.len() - i,
{
    if i < s.len() && is_ws(s[i]) {
        lemma_lead_ws_bounds(s, i + 1);
    }
}

/// Index of the first whitespace character at or after `i`.
pub open spec fn word_end(s: Seq<char>, i: int) -> int
    decreases s.len() - i,
{
    if 0 <= i < s.len() && !is_ws(s[i]) {
        word_end(s, i + 1)
    } else {
        i
    }
}

pub proof fn lemma_word_end_bounds(s: Seq<char>, i: int)
    requires
        0 <= i <= s.len(),
    ensures
        i <= word_end(s, i) <= s.len(),
        i < s.len() && !is_ws(s[i]) ==> i < word_end(s, i),
    decreases s.len() - i,
{
    if i < s.len() && !is_ws(s[i]) {
        lemma_word_end_bounds(s, i + 1);
    }
}

pub proof fn lemma_lead_ws_stops(s: Seq<char>, i: int)
    requires
        0 <= i <= s.len(),
    ensures
        lead_ws(s, i) < s.len() ==> !is_ws(s[lead_ws(s, i)]),
    decreases s.len() - i,
{
    if i < s.len() && is_ws(s[i]) {
        lemma_lead_ws_stops(s, i + 1);
    }
}

/// The whitespace-separated words of `s` from index `i` on
/// (`str::split_whitespace`).
pub open spec fn words_from(s: Seq<char>, i: int) -> Seq<Seq<char>>
    decreases s.len() - i,
{
    if i < 0 || i >= s.len() {
        Seq::empty()
    } else {
        let a = lead_ws(s, i);
        if a >= s.len() {
            Seq::empty()
        } else {
            let b = word_end(s, a);
            proof {
                lemma_lead_ws_bounds(s, i);
                lemma_lead_ws_stops(s, i);
                lemma_word_end_bounds(s, a);
            }
            seq![s.subrange(a, b)] + words_from(s, b)
        }
    }
}

/// The whitespace-separated words of `s`.
pub open spec fn words(s: Seq<char>) -> Seq<Seq<char>> {
    words_from(s, 0)
}

/// `str::split_whitespace`, collected.
pub fn split_whitespace(s: &str) -> (r: Vec<String>)
    ensures
        r@.map_values(|w: String| w@) == words(s@),
{
    let cs = chars_of(s);
    let mut r: Vec<String> = Vec::new();
    let mut i: usize = 0;
    assert(r@.map_values(|w: String| w@) + words_from(cs@, 0) =~= words(s@));
    while i < cs.len()
        invariant
            0 <= i <= cs@.len(),
            cs@ == s@,
            r@.map_values(|w: String| w@) + words_from(cs@, i as int) == words(s@),
        decreases cs@.len() - i,
    {
        let ghost i0 = i as int;
        let mut a = i;
        while a < cs.len() && is_whitespace(cs[a])
            invariant
                i0 <= a <= cs@.len(),
                lead_ws(cs@, i0) == lead_ws(cs@, a as int),
            decreases cs@.len() - a,
        {
            a += 1;
        }
        if a >= cs.len() {
            assert(words_from(cs@, i0) =~= Seq::<Seq<char>>::empty());
            assert(r@.map_values(|w: String| w@) =~= words(s@));
            i = a;
            assert(words_from(cs@, i as int) =~= Seq::<Seq<char>>::empty());
        } else {
            let mut b = a;
            while b < cs.len() && !is_whitespace(cs[b])
                invariant
                    a <= b <= cs@.len(),
                    word_end(cs@, a as int) == word_end(cs@, b as int),
                decreases cs@.len() - b,
            {
                b += 1;
            }
            proof {
                lemma_lead_ws_bounds(cs@, i0);
                lemma_lead_ws_stops(cs@, i0);
                lemma_word_end_bounds(cs@, a as int);
            }
            let w = string_of_range(&cs, a, b);
            let ghost before = r@.map_values(|w: String| w@);
            r.push(w);
            assert(r@.map_values(|w: String| w@) =~= before.push(cs@.subrange(a as int, b as int)));
            assert(words_from(cs@, i0) =~= seq![cs@.subrange(a as int, b as int)] + words_from(cs@, b as int));
            assert(r@.map_values(|w: String| w@) + words_from(cs@, b as int) =~= before + words_from(cs@, i0));
            i = b;
        }
    }
    assert(words_from(cs@, i as int) =~= Seq::<Seq<char>>::empty());
    assert(r@.map_values(|w: String| w@) =~= r@.map_values(|w: String| w@) + words_from(cs@, i as int));
    r
}

/// Bounds `(lo, hi)` of `trim(v)` inside `v`.
pub fn trim_bounds(v: &Vec<char>) -> (r: (usize, usize))
    ensures
        r.0 == lead_ws(v@, 0),
        r.1 == trail_ws(v@, r.0 as int, v@.len() as int),
        r.0 <= r.1 <= v@.len(),
        v@.subrange(r.0 as int, r.1 as int) == trim(v@),
{
    let mut lo = 0usize;
    while lo < v.len() && is_whitespace(v[lo])
        invariant
            0 <= lo <= v@.len(),
            lead_ws(v@, 0) == lead_ws(v@, lo as int),
        decreases v@.len() - lo,
    {
        lo += 1;
    }
    let mut hi: usize = v.len();
    while hi > lo && is_whitespace(v[hi - 1])
        invariant
            lo <= hi <= v@.len(),
            trail_ws(v@, lo as int, v@.len() as int) == trail_ws(v@, lo as int, hi as int),
        decreases hi - lo,
    {
        hi -= 1;
    }
    (lo, hi)
}

/// `trim(v)` as a new vector.
pub fn trim_chars(v: &Vec<char>) -> (r: Vec<char>)
    ensures
        r@ == trim(v@),
{
    let (lo, hi) = trim_bounds(v);
    sub_chars(v, lo, hi)
}

/// `s` without leading and trailing whitespace, as a new string.
pub fn trim_str(s: &str) -> (r: String)
    ensures
        r@ == trim(s@),
{
    let cs = chars_of(s);
    let t = trim_chars(&cs);
    string_of(&t)
}

// ── Decimal numbers ──────────────────────────────────────────────────────────

pub open spec fn is_digit(c: char) -> bool {
    '0' <= c <= '9'
}

pub open spec fn digit_val(c: char) -> int {
    (c as u32) - ('0' as u32)
}

pub open spec fn all_digits(s: Seq<char>) -> bool {
    forall|k: int| 0 <= k < s.len() ==> is_digit(#[trigger] s[k])
}

/// The value of a string of decimal digits.
pub open spec fn digits_val(s: Seq<char>) -> int
    decreases s.len(),
{
    if s.len() == 0 {
        0
    } else {
        digits_val(s.drop_last()) * 10 + digit_val(s.last())
    }
}

/// What `str::parse::<u64>` returns: an optional `+`, then one or more ASCII
/// digits whose value fits in 64 bits.
pub open spec fn parse_u64_spec(s: Seq<char>) -> Option<u64> {
    let d = if s.len() > 0 && s[0] == '+' {
        s.skip(1)
    } else {
        s
    };
    if d.len() > 0 && all_digits(d) && digits_val(d) <= u64::MAX {
        Some(digits_val(d) as u64)
    } else {
        None
    }
}

pub proof fn lemma_digits_val_nonneg(s: Seq<char>)
    requires
        all_digits(s),
    ensures
        digits_val(s) >= 0,
    decreases s.len(),
{
    if s.len() > 0 {
        lemma_digits_val_nonneg(s.drop_last());
    }
}

pub proof fn lemma_digits_val_prefix_le(s: Seq<char>, i: int)
    requires
        all_digits(s),
        0 <= i <= s.len(),
    ensures
        0 <= digits_val(s.take(i)) <= digits_val(s),
    decreases s.len() - i,
{
    if i == s.len() {
        assert(s.take(i) =~= s);
        lemma_digits_val_nonneg(s);
    } else {
        lemma_digits_val_prefix_le(s, i + 1);
        assert(s.take(i + 1).drop_last() =~= s.take(i));
        lemma_digits_val_nonneg(s.take(i));
    }
}

/// `str::parse::<u64>` on the characters `v`.
pub fn parse_u64(v: &Vec<char>) -> (r: Option<u64>)
    ensures
        r == parse_u64_spec(v@),
{
    let start: usize = if v.len() > 0 && v[0] == '+' {
        1
    } else {
        0
    };
    let ghost d = v@.skip(start as int);
    proof {
        if start == 0 {
            assert(d =~= v@);
        }
    }
    if start >= v.len() {
        return None;
    }
    let mut acc: u64 = 0;
    let mut i: usize = start;
    while i < v.len()
        invariant
            start <= i <= v@.len(),
            start < v@.len(),
            d == v@.skip(start as int),
            d.len() > 0,
            parse_u64_spec(v@) == (if all_digits(d) && digits_val(d) <= u64::MAX {
                Some(digits_val(d) as u64)
            } else {
                None::<u64>
            }),
            forall|k: int| 0 <= k < i - start ==> is_digit(#[trigger] d[k]),
            acc as int == digits_val(d.take(i - start)),
        decreases v@.len() - i,
    {
        let c = v[i];
        if !('0' <= c && c <= '9') {
            assert(!is_digit(d[i - start]));
            return None;
        }
        let dv: u64 = (c as u32 - '0' as u32) as u64;
        let ghost k = i - start;
        assert(d.take(k + 1).drop_last() =~= d.take(k));
        assert(d.take(k + 1).last() == c);
        assert(digits_val(d.take(k + 1)) == acc * 10 + dv);
        assert(all_digits(d.take(k + 1)));
        match acc.checked_mul(10) {
            Some(m) => match m.checked_add(dv) {
                Some(n) => {
                    acc = n;
                },
                None => {
                    proof {
                        if all_digits(d) {
                            lemma_digits_val_prefix_le(d, k + 1);
                        }
                    }
                    return None;
                },
            },
            None => {
                proof {
                    lemma_digits_val_nonneg(d.take(k));
                    if all_digits(d) {
                        lemma_digits_val_prefix_le(d, k + 1);
                    }
                }
                return None;
            },
        }
        i += 1;
    }
    assert(d.take(i - start) =~= d);
    Some(acc)
}

/// Decimal digits of `n`, most significant first, with no leading zeros.
pub open spec fn dec(n: nat) -> Seq<char>
    decreases n,
{
    if n < 10 {
        seq![digit_char(n)]
    } else {
        dec(n / 10).push(digit_char(n % 10))
    }
}

pub open spec fn digit_char(d: nat) -> char {
    ((d + ('0' as u32)) as u32) as char
}

/// `n` in decimal (`u64::to_string`).
pub fn fmt_u64(n: u64) -> (r: String)
    ensures
        r@ == dec(n as nat),
    decreases n,
{
    if n < 10 {
        let mut s = String::new();
        push_char(&mut s, ((n as u32 + '0' as u32) as u8) as char);
        assert(s@ =~= dec(n as nat));
        s
    } else {
        let mut s = fmt_u64(n / 10);
        let d: u64 = n % 10;
        push_char(&mut s, ((d as u32 + '0' as u32) as u8) as char);
        assert(s@ =~= dec(n as nat));
        s
    }
}

} // verus!

verus! {

// ── Case mapping ─────────────────────────────────────────────────────────────

/// `str::to_lowercase`.
pub uninterp spec fn lowercase(s: Seq<char>) -> Seq<char>;

/// `str::to_uppercase`.
pub uninterp spec fn uppercase(s: Seq<char>) -> Seq<char>;

/// `char::to_lowercase`, as the characters it yields.
pub uninterp spec fn char_lowercase(c: char) -> Seq<char>;

/// `char::is_alphanumeric`.
pub uninterp spec fn alphanumeric(c: char) -> bool;

/// The Unicode lowercase of `s` (`str::to_lowercase`); the contract claims
/// only that the result is std's, named by `lowercase`.
#[verifier::external_body]
pub(crate) fn to_lowercase(s: &str) -> (r: String)
    ensures
        r@ == lowercase(s@),
{
    s.to_lowercase()
}

/// The Unicode uppercase of `s` (`str::to_uppercase`); the contract claims
/// only that the result is std's, named by `uppercase`.
#[verifier::external_body]
pub(crate) fn to_uppercase(s: &str) -> (r: String)
    ensures
        r@ == uppercase(s@),
{
    s.to_uppercase()
}

/// The characters `char::to_lowercase` maps `c` to; the contract claims only
/// that they are std's, named by `char_lowercase`.
#[verifier::external_body]
pub(crate) fn lower_char(c: char) -> (r: Vec<char>)
    ensures
        r@ == char_lowercase(c),
{
    c.to_lowercase().collect()
}

/// `char::is_alphanumeric`; the contract claims only that the result is
/// std's, named by `alphanumeric`.
#[verifier::external_body]
pub(crate) fn is_alphanumeric(c: char) -> (r: bool)
    ensures
        r == alphanumeric(c),
{
    c.is_alphanumeric()
}

// ── Joining ──────────────────────────────────────────────────────────────────

/// `parts` joined with `sep` between consecutive parts (`[T]::join`).
pub open spec fn join_spec(parts: Seq<Seq<char>>, sep: Seq<char>) -> Seq<char>
    decreases parts.len(),
{
    if parts.len() == 0 {
        Seq::empty()
    } else if parts.len() == 1 {
        parts[0]
    } else {
        join_spec(parts.drop_last(), sep) + sep + parts.last()
    }
}

/// The strings of `parts` joined with `sep`.
pub fn join(parts: &[String], sep: &str) -> (r: String)
    ensures
        r@ == join_spec(parts@.map_values(|p: String| p@), sep@),
{
    let ghost ps = parts@.map_values(|p: String| p@);
    let mut r = String::new();
    let mut i: usize = 0;
    while i < parts.len()
        invariant
            0 <= i <= parts@.len(),
            ps == parts@.map_values(|p: String| p@),
            r@ == join_spec(ps.take(i as int), sep@),
        decreases parts@.len() - i,
    {
        assert(ps.take(i as int + 1).drop_last() =~= ps.take(i as int));
        if i > 0 {
            push_str(&mut r, sep);
        } else {
            assert(ps.take(0) =~= Seq::<Seq<char>>::empty());
        }
        push_str(&mut r, parts[i].as_str());
        proof {
            if i == 0 {
                assert(r@ =~= ps.take(1)[0]);
            }
        }
        i += 1;
    }
    assert(ps.take(i as int) =~= ps);
    r
}

} // verus!

verus! {

// ── Prefixes, substrings, signed numbers ─────────────────────────────────────

/// `p` is a prefix of `s`.
pub open spec fn has_prefix(s: Seq<char>, p: Seq<char>) -> bool {
    p.len() <= s.len() && s.take(p.len() as int) == p
}

/// `p` occurs in `s` at index `i`.
pub open spec fn occurs_at(s: Seq<char>, p: Seq<char>, i: int) -> bool {
    0 <= i && i + p.len() <= s.len() && s.subrange(i, i + p.len()) == p
}

/// `p` occurs somewhere in `s` (`str::contains`).
pub open spec fn has_infix(s: Seq<char>, p: Seq<char>) -> bool {
    exists|i: int| occurs_at(s, p, i)
}

fn match_at(s: &Vec<char>, p: &Vec<char>, i: usize) -> (r: bool)
    requires
        i <= s@.len(),
    ensures
        r == occurs_at(s@, p@, i as int),
{
    if p.len() > s.len() - i {
        return false;
    }
    let mut k: usize = 0;
    let n = s.len();
    while k < p.len()
        invariant
            0 <= k <= p@.len(),
            n == s@.len(),
            i + p@.len() <= s@.len(),
            forall|q: int| 0 <= q < k ==> s@[i + q] == p@[q],
        decreases p@.len() - k,
    {
        if s[i + k] != p[k] {
            assert(s@.subrange(i as int, i + p@.len())[k as int] != p@[k as int]);
            return false;
        }
        k += 1;
    }
    assert(s@.subrange(i as int, i + p@.len()) =~= p@);
    true
}

/// `str::starts_with`.
pub fn starts_with(s: &str, p: &str) -> (r: bool)
    ensures
        r == has_prefix(s@, p@),
{
    let vs = chars_of(s);
    let vp = chars_of(p);
    let r = match_at(&vs, &vp, 0);
    proof {
        if r {
            assert(vs@.take(vp@.len() as int) =~= vs@.subrange(0, vp@.len() as int));
        }
        if has_prefix(s@, p@) {
            assert(vs@.take(vp@.len() as int) =~= vs@.subrange(0, vp@.len() as int));
        }
    }
    r
}

/// `str::contains` for a string pattern.
pub fn contains(s: &str, p: &str) -> (r: bool)
    ensures
        r == has_infix(s@, p@),
{
    let vs = chars_of(s);
    let vp = chars_of(p);
    let mut i: usize = 0;
    while i < vs.len()
        invariant
            0 <= i <= vs@.len(),
            vs@ == s@,
            vp@ == p@,
            forall|q: int| 0 <= q < i ==> !occurs_at(s@, p@, q),
        decreases vs@.len() - i,
    {
        if match_at(&vs, &vp, i) {
            return true;
        }
        i += 1;
    }
    if match_at(&vs, &vp, i) {
        return true;
    }
    assert forall|q: int| !occurs_at(s@, p@, q) by {
        if q > vs@.len() {
        }
    }
    false
}

/// Index of the last `c` in `s`, or `-1`.
pub open spec fn rfind(s: Seq<char>, c: char) -> int
    decreases s.len(),
{
    if s.len() == 0 {
        -1
    } else if s.last() == c {
        s.len() - 1
    } else {
        rfind(s.drop_last(), c)
    }
}

pub proof fn lemma_rfind_bounds(s: Seq<char>, c: char)
    ensures
        -1 <= rfind(s, c) < s.len(),
        rfind(s, c) >= 0 ==> s[rfind(s, c)] == c,
    decreases s.len(),
{
    if s.len() > 0 && s.last() != c {
        lemma_rfind_bounds(s.drop_last(), c);
    }
}

/// Last index of `c` in `v`, or `v.len()` when there is none.
pub fn rfind_char(v: &Vec<char>, c: char) -> (r: usize)
    ensures
        r <= v@.len(),
        r < v@.len() ==> rfind(v@, c) == r,
        r == v@.len() ==> rfind(v@, c) == -1,
{
    let mut i: usize = v.len();
    assert(v@.take(i as int) =~= v@);
    while i > 0
        invariant
            0 <= i <= v@.len(),
            rfind(v@, c) == rfind(v@.take(i as int), c),
        decreases i,
    {
        assert(v@.take(i as int).drop_last() =~= v@.take(i as int - 1));
        if v[i - 1] == c {
            return i - 1;
        }
        i -= 1;
    }
    v.len()
}

/// Signed decimal (`i64::to_string`).
pub open spec fn dec_i(n: int) -> Seq<char> {
    if n < 0 {
        seq!['-'] + dec((-n) as nat)
    } else {
        dec(n as nat)
    }
}

pub fn fmt_i64(n: i64) -> (r: String)
    ensures
        r@ == dec_i(n as int),
{
    if n < 0 {
        let mut r = String::new();
        push_char(&mut r, '-');
        let m: u64 = if n == i64::MIN {
            9223372036854775808u64
        } else {
            (-n) as u64
        };
        let d = fmt_u64(m);
        push_str(&mut r, d.as_str());
        assert(r@ =~= dec_i(n as int));
        r
    } else {
        fmt_u64(n as u64)
    }
}

/// `s` without trailing `/` characters.
pub open spec fn trim_end_slashes(s: Seq<char>) -> Seq<char>
    decreases s.len(),
{
    if s.len() > 0 && s.last() == '/' {
        trim_end_slashes(s.drop_last())
    } else {
        s
    }
}

/// `s` without trailing `/` characters (`str::trim_end_matches('/')`).
pub fn trim_end_slashes_str(s: &str) -> (r: String)
    ensures
        r@ == trim_end_slashes(s@),
{
    let cs = chars_of(s);
    let mut hi: usize = cs.len();
    assert(cs@.take(cs@.len() as int) =~= cs@);
    while hi > 0 && cs[hi - 1] == '/'
        invariant
            0 <= hi <= cs@.len(),
            cs@ == s@,
            trim_end_slashes(cs@) == trim_end_slashes(cs@.take(hi as int)),
        decreases hi,
    {
        assert(cs@.take(hi as int).drop_last() =~= cs@.take(hi as int - 1));
        hi -= 1;
    }
    let r = string_of_range(&cs, 0, hi);
    assert(r@ =~= cs@.take(hi as int));
    r
}

/// `s` with every non-overlapping occurrence of `p`, leftmost first,
/// replaced by `r` (`str::replace` with a non-empty pattern).
pub open spec fn replace_str(s: Seq<char>, p: Seq<char>, r: Seq<char>) -> Seq<char>
    decreases s.len(),
{
    if p.len() == 0 || s.len() < p.len() {
        s
    } else if s.take(p.len() as int) == p {
        r + replace_str(s.skip(p.len() as int), p, r)
    } else {
        seq![s[0]] + replace_str(s.skip(1), p, r)
    }
}

/// `str::replace` for a non-empty pattern.
pub fn replace_all(s: &str, p: &str, r: &str) -> (out: String)
    requires
        p@.len() > 0,
    ensures
        out@ == replace_str(s@, p@, r@),
{
    let cs = chars_of(s);
    let ps = chars_of(p);
    let mut out = String::new();
    let mut i: usize = 0;
    assert(cs@.skip(0) =~= cs@);
    while i < cs.len()
        invariant
            0 <= i <= cs@.len(),
            cs@ == s@,
            ps@ == p@,
            ps@.len() > 0,
            out@ + replace_str(cs@.skip(i as int), p@, r@) == replace_str(s@, p@, r@),
        decreases cs@.len() - i,
    {
        let ghost rest = cs@.skip(i as int);
        if cs.len() - i >= ps.len() && match_prefix_at(&cs, &ps, i) {
            assert(rest.take(ps@.len() as int) =~= ps@);
            assert(rest.skip(ps@.len() as int) =~= cs@.skip(i + ps@.len()));
            let ghost o = out@;
            push_str(&mut out, r);
            assert(out@ + replace_str(cs@.skip(i + ps@.len()), p@, r@) =~= o + replace_str(rest, p@, r@));
            i = i + ps.len();
        } else {
            assert(rest.skip(1) =~= cs@.skip(i + 1));
            let ghost o = out@;
            push_char(&mut out, cs[i]);
            proof {
                if rest.len() >= ps@.len() {
                    assert(rest.take(ps@.len() as int) != ps@);
                }
            }
            assert(rest[0] == cs@[i as int]);
            assert(out@ + replace_str(cs@.skip(i + 1), p@, r@) =~= o + replace_str(rest, p@, r@));
            i = i + 1;
        }
    }
    assert(cs@.skip(i as int) =~= Seq::<char>::empty());
    assert(out@ + replace_str(cs@.skip(i as int), p@, r@) =~= out@);
    out
}

fn match_prefix_at(s: &Vec<char>, p: &Vec<char>, i: usize) -> (r: bool)
    requires
        i + p@.len() <= s@.len(),
    ensures
        r == (s@.skip(i as int).take(p@.len() as int) == p@),
{
    let mut k: usize = 0;
    while k < p.len()
        invariant
            0 <= k <= p@.len(),
            i + p@.len() <= s.len(),
            forall|j: int| 0 <= j < k ==> s@[i + j] == p@[j],
        decreases p@.len() - k,
    {
        if s[i + k] != p[k] {
            assert(s@.skip(i as int).take(p@.len() as int)[k as int] != p@[k as int]);
            return false;
        }
        k += 1;
    }
    assert(s@.skip(i as int).take(p@.len() as int) =~= p@);
    true
}

/// `s` with every `from` replaced by `to` (`str::replace` for a character).
pub open spec fn replace_char(s: Seq<char>, from: char, to: Seq<char>) -> Seq<char>
    decreases s.len(),
{
    if s.len() == 0 {
        Seq::empty()
    } else {
        replace_char(s.drop_last(), from, to) + if s.last() == from {
            to
        } else {
            seq![s.last()]
        }
    }
}

/// Appends `replace_char(s, from, to)` to `out`.
pub fn push_replaced(out: &mut String, s: &str, from: char, to: &str)
    ensures
        final(out)@ == old(out)@ + replace_char(s@, from, to@),
{
    let cs = chars_of(s);
    let ghost o = out@;
    let mut i: usize = 0;
    assert(cs@.take(0) =~= Seq::<char>::empty());
    assert(o + replace_char(Seq::<char>::empty(), from, to@) =~= o);
    while i < cs.len()
        invariant
            0 <= i <= cs@.len(),
            cs@ == s@,
            out@ == o + replace_char(cs@.take(i as int), from, to@),
        decreases cs@.len() - i,
    {
        assert(cs@.take(i as int + 1).drop_last() =~= cs@.take(i as int));
        if cs[i] == from {
            push_str(out, to);
        } else {
            push_char(out, cs[i]);
        }
        i += 1;
    }
    assert(cs@.take(i as int) =~= cs@);
}

// ── Byte ranges of UTF-8 text ────────────────────────────────────────────────

/// Bytes of `c` in UTF-8.
pub open spec fn utf8_width(c: char) -> nat {
    if (c as u32) < 0x80 {
        1
    } else if (c as u32) < 0x800 {
        2
    } else if (c as u32) < 0x10000 {
        3
    } else {
        4
    }
}

/// Byte offset of character `k` of `s`.
pub open spec fn byte_pos(s: Seq<char>, k: int) -> nat
    decreases k,
{
    if k <= 0 || s.len() == 0 {
        0
    } else if k > s.len() {
        byte_pos(s, s.len() as int)
    } else {
        byte_pos(s, k - 1) + utf8_width(s[k - 1])
    }
}

/// The character index at byte offset `b` (searching from `k`), or -1 when
/// `b` is inside a character or past the end.
pub open spec fn char_at_byte(s: Seq<char>, b: nat, k: int) -> int
    decreases s.len() + 1 - k,
{
    if k < 0 || k > s.len() || byte_pos(s, k) > b {
        -1
    } else if byte_pos(s, k) == b {
        k
    } else {
        char_at_byte(s, b, k + 1)
    }
}

/// `str::get(lo..hi)` on `s`.
pub open spec fn str_get(s: Seq<char>, lo: nat, hi: nat) -> Option<Seq<char>> {
    let i = char_at_byte(s, lo, 0);
    let j = char_at_byte(s, hi, 0);
    if lo <= hi && i >= 0 && j >= 0 {
        Some(s.subrange(i, j))
    } else {
        None
    }
}

pub proof fn lemma_char_at_byte_bounds(s: Seq<char>, b: nat, k: int)
    requires
        0 <= k,
    ensures
        char_at_byte(s, b, k) == -1 || (k <= char_at_byte(s, b, k) <= s.len() && byte_pos(s, char_at_byte(s, b, k))
            == b),
    decreases s.len() + 1 - k,
{
    if k <= s.len() && byte_pos(s, k) < b {
        lemma_char_at_byte_bounds(s, b, k + 1);
    }
}

pub proof fn lemma_char_at_byte_order(s: Seq<char>, lo: nat, hi: nat, k: int)
    requires
        0 <= k,
        lo <= hi,
        char_at_byte(s, lo, k) >= 0,
        char_at_byte(s, hi, k) >= 0,
    ensures
        char_at_byte(s, lo, k) <= char_at_byte(s, hi, k),
    decreases s.len() + 1 - k,
{
    lemma_char_at_byte_bounds(s, hi, k);
    if k <= s.len() && byte_pos(s, k) < lo {
        lemma_char_at_byte_order(s, lo, hi, k + 1);
    }
}

pub fn utf8_width_of(c: char) -> (r: u64)
    ensures
        r == utf8_width(c),
{
    let u = c as u32;
    if u < 0x80 {
        1
    } else if u < 0x800 {
        2
    } else if u < 0x10000 {
        3
    } else {
        4
    }
}

/// The character index at byte offset `b` of `cs`, if one starts there.
pub fn char_index_at(cs: &Vec<char>, b: u64) -> (r: Option<usize>)
    ensures
        match r {
            Some(k) => char_at_byte(cs@, b as nat, 0) == k,
            None => char_at_byte(cs@, b as nat, 0) == -1,
        },
{
    let mut k: usize = 0;
    let mut pos: u64 = 0;
    while k <= cs.len()
        invariant
            0 <= k <= cs@.len() + 1,
            k <= cs@.len() ==> pos == byte_pos(cs@, k as int),
            pos <= b,
            char_at_byte(cs@, b as nat, 0) == char_at_byte(cs@, b as nat, k as int),
        decreases cs@.len() + 1 - k,
    {
        if pos == b {
            return Some(k);
        }
        if k == cs.len() {
            assert(char_at_byte(cs@, b as nat, k as int + 1) == -1);
            return None;
        }
        let w = utf8_width_of(cs[k]);
        assert(byte_pos(cs@, k as int + 1) == byte_pos(cs@, k as int) + utf8_width(cs@[k as int]));
        if w > b - pos {
            assert(char_at_byte(cs@, b as nat, k as int + 1) == -1);
            return None;
        }
        pos = pos + w;
        k += 1;
    }
    None
}

/// `str::get(lo..hi)`.
pub fn get_bytes(s: &str, lo: u64, hi: u64) -> (r: Option<String>)
    ensures
        match str_get(s@, lo as nat, hi as nat) {
            Some(t) => r matches Some(x) && x@ == t,
            None => r is None,
        },
{
    let cs = chars_of(s);
    if lo > hi {
        return None;
    }
    match (char_index_at(&cs, lo), char_index_at(&cs, hi)) {
        (Some(i), Some(j)) => {
            proof {
                lemma_char_at_byte_bounds(cs@, lo as nat, 0);
                lemma_char_at_byte_bounds(cs@, hi as nat, 0);
                lemma_char_at_byte_order(cs@, lo as nat, hi as nat, 0);
            }
            let t = string_of_range(&cs, i, j);
            Some(t)
        },
        _ => None,
    }
}


} // verus!
