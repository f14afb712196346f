//! Synchronised lyrics in the LRC format: `[mm:ss.xx] text` lines.

use vstd::prelude::*;

use crate::text::{
    all_digits, chars_of, digits_val, find_char, find_char_from, find_from, is_digit, lemma_find_from_bounds,
    lemma_find_skip, parse_u64, parse_u64_spec, string_of, sub_chars, trim, trim_chars,
};

verus! {

/// One timed lyric line.
#[derive(Debug, Clone)]
pub struct LyricLine {
    /// Timestamp in milliseconds.
    pub time_ms: u64,
    pub text: String,
}

/// Parsed lyrics; `from_lrc` leaves the lines sorted ascending by `time_ms`.
#[derive(Debug, Clone, Default)]
pub struct Lyrics {
    pub lines: Vec<LyricLine>,
}

/// A lyric line as a (milliseconds, text) pair.
pub type Timed = (int, Seq<char>);

impl View for LyricLine {
    type V = Timed;

    open spec fn view(&self) -> Timed {
        (self.time_ms as int, self.text@)
    }
}

impl View for Lyrics {
    type V = Seq<Timed>;

    open spec fn view(&self) -> Seq<Timed> {
        self.lines@.map_values(|l: LyricLine| l@)
    }
}

// ── Specification of the format ──────────────────────────────────────────────

/// Value of a fractional-seconds field of 1, 2 or 3 digits, in milliseconds.
pub open spec fn frac_ms(m: Seq<char>) -> Option<int> {
    match parse_u64_spec(m) {
        None => None,
        Some(raw) => if m.len() == 1 {
            Some(raw * 100)
        } else if m.len() == 2 {
            Some(raw * 10)
        } else if m.len() == 3 {
            Some(raw as int)
        } else {
            None
        },
    }
}

/// Milliseconds denoted by a tag `mm:ss`, `mm:ss.x`, `mm:ss.xx` or `mm:ss.xxx`
/// (minutes and seconds may be surrounded by whitespace), or `None`.
pub open spec fn ts_value(tag: Seq<char>) -> Option<int> {
    let i = find_char(tag, ':');
    if i < 0 {
        None
    } else {
        let rest = tag.skip(i + 1);
        let j = find_char(rest, '.');
        let min = parse_u64_spec(trim(tag.take(i)));
        let sec = parse_u64_spec(trim(if j < 0 { rest } else { rest.take(j) }));
        let ms = if j < 0 { Some(0int) } else { frac_ms(rest.skip(j + 1)) };
        match (min, sec, ms) {
            (Some(a), Some(b), Some(c)) => Some(a * 60000 + b * 1000 + c),
            _ => None,
        }
    }
}

/// The leading run of timestamp tags of a line, and the text after it.
/// Anything before a `[` is skipped; the first tag that is not a timestamp
/// ends the run (and is dropped from the text).
pub open spec fn collect_tags(r: Seq<char>) -> (Seq<int>, Seq<char>)
    decreases r.len(),
{
    let st = find_char(r, '[');
    if st < 0 {
        (Seq::empty(), r)
    } else {
        let c = find_from(r, ']', st);
        proof {
            lemma_find_from_bounds(r, ']', st);
        }
        if c < 0 || c < st {
            (Seq::empty(), r)
        } else {
            let tag = r.subrange(st + 1, c);
            let rest = r.skip(c + 1);
            match ts_value(tag) {
                Some(ms) => {
                    let (t2, r2) = collect_tags(rest);
                    (seq![ms] + t2, r2)
                },
                None => (Seq::empty(), rest),
            }
        }
    }
}

/// Lines contributed by one raw line of the file.
pub open spec fn line_entries(raw: Seq<char>) -> Seq<Timed> {
    let t = trim(raw);
    if t.len() == 0 {
        Seq::empty()
    } else {
        let (ts, rest) = collect_tags(t);
        ts.map_values(|ms: int| (ms, trim(rest)))
    }
}

/// `s` cut at each `\n`.
pub open spec fn split_lines(s: Seq<char>) -> Seq<Seq<char>>
    decreases s.len(),
{
    let i = find_char(s, '\n');
    if i < 0 || i >= s.len() {
        seq![s]
    } else {
        seq![s.take(i)] + split_lines(s.skip(i + 1))
    }
}

pub open spec fn entries_of_lines(ls: Seq<Seq<char>>) -> Seq<Timed>
    decreases ls.len(),
{
    if ls.len() == 0 {
        Seq::empty()
    } else {
        line_entries(ls[0]) + entries_of_lines(ls.drop_first())
    }
}

/// All timed lines of a file, in file order.
pub open spec fn lrc_entries(s: Seq<char>) -> Seq<Timed> {
    entries_of_lines(split_lines(s))
}

/// Every timestamp of the file fits in 64 bits.
pub open spec fn lrc_fits(s: Seq<char>) -> bool {
    forall|k: int| 0 <= k < lrc_entries(s).len() ==> #[trigger] lrc_entries(s)[k].0 <= u64::MAX
}

/// Index of the first line whose time is above `t` (or the length).
pub open spec fn upper_from(s: Seq<Timed>, t: int, i: int) -> int
    decreases s.len() - i,
{
    if i < 0 || i >= s.len() {
        s.len() as int
    } else if s[i].0 > t {
        i
    } else {
        upper_from(s, t, i + 1)
    }
}

pub open spec fn upper(s: Seq<Timed>, t: int) -> int {
    upper_from(s, t, 0)
}

/// `x` inserted after every line that is not later than it.
pub open spec fn insert_sorted(s: Seq<Timed>, x: Timed) -> Seq<Timed> {
    s.insert(upper(s, x.0), x)
}

/// Stable sort by time.
pub open spec fn sort_by_time(s: Seq<Timed>) -> Seq<Timed>
    decreases s.len(),
{
    if s.len() == 0 {
        s
    } else {
        insert_sorted(sort_by_time(s.drop_last()), s.last())
    }
}

pub open spec fn sorted_by_time(s: Seq<Timed>) -> bool {
    forall|i: int, j: int| 0 <= i < j < s.len() ==> s[i].0 <= s[j].0
}

/// What `from_lrc` produces.
pub open spec fn parse_lrc_spec(s: Seq<char>) -> Seq<Timed> {
    sort_by_time(lrc_entries(s))
}

// ── Lemmas ───────────────────────────────────────────────────────────────────

pub proof fn lemma_upper_from(s: Seq<Timed>, t: int, i: int)
    requires
        0 <= i <= s.len(),
    ensures
        i <= upper_from(s, t, i) <= s.len(),
        forall|k: int| i <= k < upper_from(s, t, i) ==> s[k].0 <= t,
        upper_from(s, t, i) < s.len() ==> s[upper_from(s, t, i)].0 > t,
    decreases s.len() - i,
{
    if i < s.len() && s[i].0 <= t {
        lemma_upper_from(s, t, i + 1);
    }
}

pub proof fn lemma_insert_sorted(s: Seq<Timed>, x: Timed)
    requires
        sorted_by_time(s),
    ensures
        sorted_by_time(insert_sorted(s, x)),
        insert_sorted(s, x).len() == s.len() + 1,
{
    lemma_upper_from(s, x.0, 0);
    let p = upper(s, x.0);
    let r = insert_sorted(s, x);
    assert forall|i: int, j: int| 0 <= i < j < r.len() implies r[i].0 <= r[j].0 by {
        if j < p {
        } else if j == p {
        } else if i < p {
            if p < s.len() {
                assert(s[p].0 > x.0);
            }
        } else if i == p {
            assert(s[p].0 > x.0);
            assert(r[j] == s[j - 1]);
        } else {
        }
    }
}

/// The lines produced by `from_lrc` are in ascending time order.
pub proof fn lemma_sort_by_time_sorted(s: Seq<Timed>)
    ensures
        sorted_by_time(sort_by_time(s)),
        sort_by_time(s).len() == s.len(),
    decreases s.len(),
{
    if s.len() > 0 {
        lemma_sort_by_time_sorted(s.drop_last());
        lemma_insert_sorted(sort_by_time(s.drop_last()), s.last());
    }
}

proof fn lemma_split_step(s: Seq<char>, pos: int, end: int)
    requires
        0 <= pos <= end <= s.len(),
        end == s.len() ==> find_from(s, '\n', pos) == -1,
        end < s.len() ==> find_from(s, '\n', pos) == end,
    ensures
        end == s.len() ==> split_lines(s.skip(pos)) == seq![s.subrange(pos, end)],
        end < s.len() ==> split_lines(s.skip(pos)) == seq![s.subrange(pos, end)] + split_lines(
            s.skip(end + 1),
        ),
{
    lemma_find_skip(s, '\n', pos, 0);
    let t = s.skip(pos);
    if end == s.len() {
        assert(t =~= s.subrange(pos, end));
    } else {
        assert(t.take(end - pos) =~= s.subrange(pos, end));
        assert(t.skip(end - pos + 1) =~= s.skip(end + 1));
    }
}

// ── Parsing ──────────────────────────────────────────────────────────────────

fn parse_frac(m: &Vec<char>) -> (r: Option<u64>)
    ensures
        match frac_ms(m@) {
            None => r is None,
            Some(v) => r == Some(v as u64) && v <= 999,
        },
{
    match parse_u64(m) {
        None => None,
        Some(raw) => {
            proof {
                if m@.len() <= 3 {
                    let d = if m@.len() > 0 && m@[0] == '+' { m@.skip(1) } else { m@ };
                    lemma_digits_small(d);
                }
            }
            if m.len() == 1 {
                Some(raw * 100)
            } else if m.len() == 2 {
                Some(raw * 10)
            } else if m.len() == 3 {
                Some(raw)
            } else {
                None
            }
        },
    }
}

proof fn lemma_digits_small(d: Seq<char>)
    requires
        all_digits(d),
        d.len() <= 3,
    ensures
        0 <= digits_val(d) < if d.len() == 0 { 1int } else if d.len() == 1 { 10int } else if d.len() == 2 { 100int } else { 1000int },
    decreases d.len(),
{
    if d.len() > 0 {
        assert(all_digits(d.drop_last()));
        lemma_digits_small(d.drop_last());
        assert(is_digit(d[d.len() - 1]));
    }
}

/// Milliseconds of a timestamp tag (see `ts_value`).
fn parse_timestamp(tag: &Vec<char>) -> (r: Option<u128>)
    ensures
        match ts_value(tag@) {
            None => r is None,
            Some(v) => r == Some(v as u128) && 0 <= v < 0x1_0000_0000_0000_0000_0000_0000_0000,
        },
{
    let i = find_char_from(tag, ':', 0);
    if i == tag.len() {
        return None;
    }
    let rest = sub_chars(tag, i + 1, tag.len());
    assert(rest@ =~= tag@.skip(i + 1));
    let j = find_char_from(&rest, '.', 0);
    let head = sub_chars(tag, 0, i);
    assert(head@ =~= tag@.take(i as int));
    let min = match parse_u64(&trim_chars(&head)) {
        Some(m) => m,
        None => return None,
    };
    let sec_str = sub_chars(&rest, 0, j);
    proof {
        if j == rest.len() {
            assert(sec_str@ =~= rest@);
        } else {
            assert(sec_str@ =~= rest@.take(j as int));
        }
    }
    let sec = match parse_u64(&trim_chars(&sec_str)) {
        Some(s) => s,
        None => return None,
    };
    let ms: u64 = if j == rest.len() {
        0
    } else {
        let m = sub_chars(&rest, j + 1, rest.len());
        assert(m@ =~= rest@.skip(j + 1));
        match parse_frac(&m) {
            Some(v) => v,
            None => return None,
        }
    };
    Some((min as u128) * 60000 + (sec as u128) * 1000 + (ms as u128))
}

/// Appends `x` keeping the lines sorted (after any line with the same time).
fn insert_line(lines: &mut Vec<LyricLine>, x: LyricLine)
    ensures
        final(lines)@.map_values(|l: LyricLine| l@) == insert_sorted(
            old(lines)@.map_values(|l: LyricLine| l@),
            x@,
        ),
{
    let ghost s = lines@.map_values(|l: LyricLine| l@);
    let mut p: usize = 0;
    while p < lines.len() && lines[p].time_ms <= x.time_ms
        invariant
            0 <= p <= lines@.len(),
            s == lines@.map_values(|l: LyricLine| l@),
            upper(s, x@.0) == upper_from(s, x@.0, p as int),
        decreases lines@.len() - p,
    {
        p += 1;
    }
    lines.insert(p, x);
    assert(lines@.map_values(|l: LyricLine| l@) =~= s.insert(p as int, x@));
}

/// Timestamps and text of one raw line, inserted into `lines`;
/// `false` when a timestamp does not fit in 64 bits.
fn add_line(raw: &Vec<char>, lines: &mut Vec<LyricLine>, Ghost(acc): Ghost<Seq<Timed>>) -> (ok:
    bool)
    requires
        old(lines)@.map_values(|l: LyricLine| l@) == sort_by_time(acc),
    ensures
        ok ==> final(lines)@.map_values(|l: LyricLine| l@) == sort_by_time(
            acc + line_entries(raw@),
        ),
        ok <==> forall|k: int|
            0 <= k < line_entries(raw@).len() ==> #[trigger] line_entries(raw@)[k].0 <= u64::MAX,
{
    let t = trim_chars(raw);
    if t.len() == 0 {
        assert(acc + line_entries(raw@) =~= acc);
        return true;
    }
    let mut rest = t.clone();
    let mut stamps: Vec<u128> = Vec::new();
    loop
        invariant_except_break
            collect_tags(t@).0 == stamps@.map_values(|v: u128| v as int) + collect_tags(rest@).0,
            collect_tags(t@).1 == collect_tags(rest@).1,
        ensures
            collect_tags(t@).0 == stamps@.map_values(|v: u128| v as int),
            collect_tags(t@).1 == rest@,
        decreases rest@.len(),
    {
        let st = find_char_from(&rest, '[', 0);
        if st == rest.len() {
            assert(stamps@.map_values(|v: u128| v as int) + Seq::<int>::empty() =~= stamps@.map_values(|v: u128| v as int));
            break ;
        }
        let c = find_char_from(&rest, ']', st);
        proof {
            lemma_find_from_bounds(rest@, '[', 0);
            lemma_find_from_bounds(rest@, ']', st as int);
        }
        if c == rest.len() {
            assert(stamps@.map_values(|v: u128| v as int) + Seq::<int>::empty() =~= stamps@.map_values(|v: u128| v as int));
            break ;
        }
        let tag = sub_chars(&rest, st + 1, c);
        let next = sub_chars(&rest, c + 1, rest.len());
        assert(next@ =~= rest@.skip(c + 1));
        let ghost old_rest = rest@;
        rest = next;
        match parse_timestamp(&tag) {
            Some(ms) => {
                let ghost before = stamps@.map_values(|v: u128| v as int);
                stamps.push(ms);
                assert(stamps@.map_values(|v: u128| v as int) =~= before.push(ms as int));
                assert(collect_tags(old_rest).0 == seq![ms as int] + collect_tags(rest@).0);
                assert(before + (seq![ms as int] + collect_tags(rest@).0) =~= before.push(ms as int) + collect_tags(rest@).0);
            },
            None => {
                assert(stamps@.map_values(|v: u128| v as int) + Seq::<int>::empty() =~= stamps@.map_values(|v: u128| v as int));
                break ;
            },
        }
    }
    let text_chars = trim_chars(&rest);
    let ghost ts = collect_tags(t@).0;
    let ghost entries = line_entries(raw@);
    assert(entries =~= ts.map_values(|ms: int| (ms, text_chars@)));
    let mut k: usize = 0;
    while k < stamps.len()
        invariant
            0 <= k <= stamps@.len(),
            ts == stamps@.map_values(|v: u128| v as int),
            entries == ts.map_values(|ms: int| (ms, text_chars@)),
            entries == line_entries(raw@),
            entries.len() == stamps@.len(),
            forall|q: int| 0 <= q < k ==> #[trigger] entries[q].0 <= u64::MAX,
            lines@.map_values(|l: LyricLine| l@) == sort_by_time(acc + entries.take(k as int)),
        decreases stamps@.len() - k,
    {
        let ms = stamps[k];
        assert(ts[k as int] == ms as int);
        assert(entries[k as int] == (ms as int, text_chars@));
        if ms > u64::MAX as u128 {
            assert(line_entries(raw@)[k as int].0 > u64::MAX);
            return false;
        }
        let line = LyricLine { time_ms: ms as u64, text: string_of(&text_chars) };
        let ghost prev = acc + entries.take(k as int);
        insert_line(lines, line);
        assert((acc + entries.take(k as int + 1)).drop_last() =~= prev);
        assert((acc + entries.take(k as int + 1)).last() == entries[k as int]);
        k += 1;
    }
    assert(entries.take(k as int) =~= entries);
    true
}

/// Parses LRC text; `None` when a timestamp does not fit in 64 bits.
fn parse_lrc(content: &str) -> (r: Option<Lyrics>)
    ensures
        r is Some <==> lrc_fits(content@),
        r matches Some(l) ==> l@ == parse_lrc_spec(content@),
{
    let v = chars_of(content);
    let ghost s = v@;
    let mut lines: Vec<LyricLine> = Vec::new();
    let mut pos: usize = 0;
    let ghost mut acc: Seq<Timed> = Seq::empty();
    assert(s.skip(0) =~= s);
    assert(lines@.map_values(|l: LyricLine| l@) =~= sort_by_time(acc));
    loop
        invariant_except_break
            acc + entries_of_lines(split_lines(s.skip(pos as int))) == lrc_entries(s),
        invariant
            s == v@,
            s == content@,
            0 <= pos <= s.len(),
            forall|k: int| 0 <= k < acc.len() ==> #[trigger] acc[k].0 <= u64::MAX,
            lines@.map_values(|l: LyricLine| l@) == sort_by_time(acc),
        ensures
            acc == lrc_entries(s),
        decreases s.len() - pos,
    {
        let end = find_char_from(&v, '\n', pos);
        let raw = sub_chars(&v, pos, end);
        proof {
            lemma_split_step(s, pos as int, end as int);
        }
        let ghost ls = split_lines(s.skip(pos as int));
        assert(ls[0] == raw@);
        assert(entries_of_lines(ls) == line_entries(raw@) + entries_of_lines(ls.drop_first()));
        let ok = add_line(&raw, &mut lines, Ghost(acc));
        if !ok {
            proof {
                let ei = choose|k: int| 0 <= k < line_entries(raw@).len() && !(#[trigger] line_entries(raw@)[k].0 <= u64::MAX);
                assert(lrc_entries(s)[acc.len() + ei] == line_entries(raw@)[ei]);
            }
            return None;
        }
        let ghost new_acc = acc + line_entries(raw@);
        proof {
            assert forall|k: int| 0 <= k < new_acc.len() implies #[trigger] new_acc[k].0 <= u64::MAX by {
                if k >= acc.len() {
                    assert(new_acc[k] == line_entries(raw@)[k - acc.len()]);
                }
            }
            acc = new_acc;
        }
        if end == v.len() {
            assert(ls.drop_first() =~= Seq::<Seq<char>>::empty());
            assert(acc =~= lrc_entries(s));
            break ;
        }
        assert(ls.drop_first() =~= split_lines(s.skip(end + 1)));
        pos = end + 1;
    }
    Some(Lyrics { lines })
}

impl Lyrics {
    /// Whether the lines are in ascending time order.
    pub open spec fn wf(&self) -> bool {
        sorted_by_time(self@)
    }

    /// Parses the text of an LRC file. Each line's leading `[mm:ss.xx]` tags
    /// give one lyric line apiece carrying the trimmed remaining text;
    /// metadata tags such as `[ar:Artist]` give none. Lines come out in
    /// ascending time order, lines with equal times in file order.
    pub fn from_lrc(content: &str) -> (r: Self)
        requires
            lrc_fits(content@),
        ensures
            r@ == parse_lrc_spec(content@),
            r.wf(),
    {
        proof {
            lemma_sort_by_time_sorted(lrc_entries(content@));
        }
        match parse_lrc(content) {
            Some(l) => l,
            None => Lyrics { lines: Vec::new() },
        }
    }

    /// The lyrics of a track's `.lrc` file text; `None` when it holds no
    /// timed line.
    pub fn load_from(content: &str) -> (r: Option<Lyrics>)
        requires
            lrc_fits(content@),
        ensures
            match r {
                Some(l) => l@ == parse_lrc_spec(content@) && l@.len() > 0 && l.wf(),
                None => parse_lrc_spec(content@).len() == 0,
            },
    {
        let l = Lyrics::from_lrc(content);
        if l.lines.len() == 0 {
            None
        } else {
            Some(l)
        }
    }

    /// Whether `from_lrc` accepts `content`: every timestamp fits in 64 bits.
    pub fn fits(content: &str) -> (r: bool)
        ensures
            r == lrc_fits(content@),
    {
        parse_lrc(content).is_some()
    }

    /// Index of the active line at playback position `pos_ms`: the last line
    /// whose timestamp is at most `pos_ms`; `None` when there are no lines or
    /// the position is before the first line.
    pub fn current_idx(&self, pos_ms: u64) -> (r: Option<usize>)
        ensures
            self.wf() ==> match r {
                None => self@.len() == 0 || self@[0].0 > pos_ms,
                Some(i) => i < self@.len() && self@[i as int].0 <= pos_ms && (i + 1
                    == self@.len() || self@[i + 1].0 > pos_ms),
            },
            self.wf() ==> r == if upper(self@, pos_ms as int) == 0 {
                None::<usize>
            } else {
                Some((upper(self@, pos_ms as int) - 1) as usize)
            },
    {
        let ghost s = self@;
        if self.lines.len() == 0 {
            return None;
        }
        let mut idx: usize = 0;
        while idx < self.lines.len() && self.lines[idx].time_ms <= pos_ms
            invariant
                0 <= idx <= self.lines@.len(),
                s == self@,
                s.len() == self.lines@.len(),
                upper(s, pos_ms as int) == upper_from(s, pos_ms as int, idx as int),
            decreases self.lines@.len() - idx,
        {
            assert(s[idx as int] == self.lines@[idx as int]@);
            idx += 1;
        }
        proof {
            lemma_upper_from(s, pos_ms as int, idx as int);
            if idx < s.len() {
                assert(s[idx as int] == self.lines@[idx as int]@);
            }
        }
        if idx == 0 {
            None
        } else {
            proof {
                lemma_upper_from(s, pos_ms as int, 0);
            }
            Some(idx - 1)
        }
    }
}

/// The `.lrc` file that goes with a track: its path with extension `lrc`.
pub fn lrc_path(track_path: &str) -> (r: String)
    ensures
        r@ == crate::paths::path_with_extension(track_path@, "lrc"@),
{
    proof {
        reveal_strlit("lrc");
        assert(!"lrc"@.contains('/') && !"lrc"@.contains('\\')) by {
            assert("lrc"@ =~= seq!['l', 'r', 'c']);
        }
    }
    crate::paths::with_extension(track_path, "lrc")
}

} // verus!
