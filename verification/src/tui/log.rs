//! The log view: run logs (one JSON object per line) turned into rows.

use vstd::prelude::*;

use crate::text::{
    chars_of, find_char_from, find_from, get_bytes, join, join_spec, lemma_find_from_bounds, lemma_find_skip, push_str,
    str_eq, str_get, string_of_range, trim, trim_str,
};
use crate::tui::app::{App, LogEntry, LogLevel, View as Screen};

verus! {

/// A field of a log line: name, whether its value is a JSON string, and the
/// value's text (the string itself, else its JSON).
pub struct LogField {
    pub key: String,
    pub is_str: bool,
    pub text: String,
}

/// A log line as read by serde_json: the `ts` and `level` strings and the
/// members of the `fields` object, where present.
pub struct LogJson {
    pub ts: Option<String>,
    pub level: Option<String>,
    pub fields: Option<Vec<LogField>>,
}

/// A field as (name, is a string, text).
pub type FieldV = (Seq<char>, bool, Seq<char>);

/// A read log line as (ts, level, fields).
pub type LogJsonV = (Option<Seq<char>>, Option<Seq<char>>, Option<Seq<FieldV>>);

pub open spec fn opt_str(o: Option<String>) -> Option<Seq<char>> {
    match o {
        Some(s) => Some(s@),
        None => None,
    }
}

pub open spec fn fields_view(o: Option<Vec<LogField>>) -> Option<Seq<FieldV>> {
    match o {
        Some(v) => Some(v@.map_values(|f: LogField| (f.key@, f.is_str, f.text@))),
        None => None,
    }
}

pub open spec fn log_json_view(o: Option<LogJson>) -> Option<LogJsonV> {
    match o {
        Some(j) => Some((opt_str(j.ts), opt_str(j.level), fields_view(j.fields))),
        None => None,
    }
}

/// What serde_json reads from a log line; `None` where it is no JSON.
pub uninterp spec fn json_log_view(line: Seq<char>) -> Option<LogJsonV>;

/// Reads `line` with `serde_json::from_str::<serde_json::Value>` and takes
/// `ts` and `level` where they are strings and the members of `fields`
/// where it is an object (in serde_json's map order). The contract claims
/// only that the result is serde_json's reading, named by `json_log_view`.
#[verifier::external_body]
fn parse_log_json(line: &str) -> (r: Option<LogJson>)
    ensures
        log_json_view(r) == json_log_view(line@),
{
    let v: serde_json::Value = serde_json::from_str(line).ok()?;
    let field = |(k, val): (&String, &serde_json::Value)| LogField {
        key: k.clone(),
        is_str: val.is_string(),
        text: val.as_str().map_or_else(|| val.to_string(), |s| s.to_owned()),
    };
    Some(LogJson {
        ts: v["ts"].as_str().map(|s| s.to_owned()),
        level: v["level"].as_str().map(|s| s.to_owned()),
        fields: v["fields"].as_object().map(|m| m.iter().map(field).collect()),
    })
}

// ── Log rows ─────────────────────────────────────────────────────────────────

/// The clock time shown for timestamp `ts`: bytes 11 to 19 of an RFC 3339
/// timestamp (`HH:MM:SS`), else the whole of it.
pub open spec fn clock_of(ts: Seq<char>) -> Seq<char> {
    match str_get(ts, 11, 19) {
        Some(t) => t,
        None => ts,
    }
}

/// The level named `l`; `Other` for another name or none.
pub open spec fn level_of(l: Option<Seq<char>>) -> LogLevel {
    if l == Some("info"@) {
        LogLevel::Info
    } else if l == Some("warn"@) {
        LogLevel::Warn
    } else if l == Some("error"@) {
        LogLevel::Error
    } else {
        LogLevel::Other
    }
}

/// The `event` field's text when it is a string (the first such field).
pub open spec fn event_of(fs: Seq<FieldV>) -> Seq<char>
    decreases fs.len(),
{
    if fs.len() == 0 {
        Seq::empty()
    } else if fs[0].0 == "event"@ {
        if fs[0].1 {
            fs[0].2
        } else {
            Seq::empty()
        }
    } else {
        event_of(fs.drop_first())
    }
}

/// `name=value` for each field but `event`, in order.
pub open spec fn detail_parts(fs: Seq<FieldV>) -> Seq<Seq<char>>
    decreases fs.len(),
{
    if fs.len() == 0 {
        Seq::empty()
    } else {
        let rest = detail_parts(fs.drop_last());
        if fs.last().0 == "event"@ {
            rest
        } else {
            rest.push(fs.last().0 + "="@ + fs.last().2)
        }
    }
}

/// The row of a log line as serde_json read it (`None`: not JSON, shown as
/// is): time, level, event and the other fields.
pub open spec fn log_row(line: Seq<char>, j: Option<LogJsonV>) -> (Seq<char>, LogLevel, Seq<char>, Seq<char>) {
    match j {
        None => (Seq::empty(), LogLevel::Other, line, Seq::empty()),
        Some((ts, level, fields)) => (
            clock_of(
                match ts {
                    Some(t) => t,
                    None => Seq::empty(),
                },
            ),
            level_of(level),
            match fields {
                Some(fs) => event_of(fs),
                None => Seq::empty(),
            },
            match fields {
                Some(fs) => join_spec(detail_parts(fs), "  "@),
                None => Seq::empty(),
            },
        ),
    }
}

pub open spec fn entry_view(e: LogEntry) -> (Seq<char>, LogLevel, Seq<char>, Seq<char>) {
    (e.time@, e.level, e.event@, e.detail@)
}

fn level_from(l: &str) -> (r: LogLevel)
    ensures
        r == level_of(Some(l@)),
{
    if str_eq(l, "info") {
        LogLevel::Info
    } else if str_eq(l, "warn") {
        LogLevel::Warn
    } else if str_eq(l, "error") {
        LogLevel::Error
    } else {
        LogLevel::Other
    }
}

fn event_from(fs: &Vec<LogField>) -> (r: String)
    ensures
        r@ == event_of(fs@.map_values(|f: LogField| (f.key@, f.is_str, f.text@))),
{
    let ghost v = fs@.map_values(|f: LogField| (f.key@, f.is_str, f.text@));
    let mut i: usize = 0;
    assert(v.skip(0) =~= v);
    while i < fs.len()
        invariant
            0 <= i <= fs@.len(),
            v == fs@.map_values(|f: LogField| (f.key@, f.is_str, f.text@)),
            event_of(v) == event_of(v.skip(i as int)),
        decreases fs@.len() - i,
    {
        assert(v.skip(i as int)[0] == v[i as int]);
        assert(v.skip(i as int).drop_first() =~= v.skip(i as int + 1));
        if str_eq(fs[i].key.as_str(), "event") {
            return if fs[i].is_str {
                fs[i].text.clone()
            } else {
                String::new()
            };
        }
        i += 1;
    }
    String::new()
}

fn detail_from(fs: &Vec<LogField>) -> (r: String)
    ensures
        r@ == join_spec(detail_parts(fs@.map_values(|f: LogField| (f.key@, f.is_str, f.text@))), "  "@),
{
    let ghost v = fs@.map_values(|f: LogField| (f.key@, f.is_str, f.text@));
    let mut parts: Vec<String> = Vec::new();
    let mut i: usize = 0;
    assert(v.take(0) =~= Seq::<FieldV>::empty());
    while i < fs.len()
        invariant
            0 <= i <= fs@.len(),
            v == fs@.map_values(|f: LogField| (f.key@, f.is_str, f.text@)),
            parts@.map_values(|p: String| p@) == detail_parts(v.take(i as int)),
        decreases fs@.len() - i,
    {
        assert(v.take(i as int + 1).drop_last() =~= v.take(i as int));
        assert(v[i as int] == (fs@[i as int].key@, fs@[i as int].is_str, fs@[i as int].text@));
        if !str_eq(fs[i].key.as_str(), "event") {
            let mut p = fs[i].key.clone();
            push_str(&mut p, "=");
            push_str(&mut p, fs[i].text.as_str());
            let ghost o = parts@.map_values(|p: String| p@);
            parts.push(p);
            assert(parts@.map_values(|p: String| p@) =~= o.push(v[i as int].0 + "="@ + v[i as int].2));
        }
        i += 1;
    }
    assert(v.take(i as int) =~= v);
    join(parts.as_slice(), "  ")
}

/// The row of the log line `line`.
pub fn parse_jsonl_line(line: &str) -> (r: LogEntry)
    ensures
        entry_view(r) == log_row(line@, json_log_view(line@)),
{
    match parse_log_json(line) {
        None => LogEntry { time: String::new(), level: LogLevel::Other, event: line.to_owned(), detail: String::new() },
        Some(j) => {
            assert(log_json_view(Some(j)) == Some((opt_str(j.ts), opt_str(j.level), fields_view(j.fields))));
            let ts = match &j.ts {
                Some(t) => t.clone(),
                None => String::new(),
            };
            let time = match get_bytes(ts.as_str(), 11, 19) {
                Some(t) => t,
                None => ts,
            };
            let level = match &j.level {
                Some(l) => level_from(l.as_str()),
                None => LogLevel::Other,
            };
            let (event, detail) = match &j.fields {
                Some(fs) => (event_from(fs), detail_from(fs)),
                None => (String::new(), String::new()),
            };
            assert(json_log_view(line@) == Some((opt_str(j.ts), opt_str(j.level), fields_view(j.fields))));
            assert(time@ == clock_of(
                match opt_str(j.ts) {
                    Some(t) => t,
                    None => Seq::<char>::empty(),
                },
            ));
            LogEntry { time, level, event, detail }
        },
    }
}

// ── Lines ────────────────────────────────────────────────────────────────────

/// `l` without one trailing `\r`.
pub open spec fn strip_cr(l: Seq<char>) -> Seq<char> {
    if l.len() > 0 && l.last() == '\r' {
        l.drop_last()
    } else {
        l
    }
}

/// The lines of `s` as `str::lines` splits them: at each `\n`, dropping a
/// `\r` before it; a final line ending adds no empty line.
pub open spec fn lines_spec(s: Seq<char>) -> Seq<Seq<char>>
    decreases s.len(),
{
    let i = find_from(s, '\n', 0);
    if s.len() == 0 {
        Seq::empty()
    } else if i < 0 {
        seq![s]
    } else {
        proof {
            lemma_find_from_bounds(s, '\n', 0);
        }
        seq![strip_cr(s.take(i))] + lines_spec(s.skip(i + 1))
    }
}

/// The lines of `s` (`str::lines`).
pub fn split_lines(s: &str) -> (r: Vec<String>)
    ensures
        r@.map_values(|l: String| l@) == lines_spec(s@),
{
    let cs = chars_of(s);
    let mut out: Vec<String> = Vec::new();
    let mut pos: usize = 0;
    assert(cs@.skip(0) =~= cs@);
    while pos < cs.len()
        invariant
            0 <= pos <= cs@.len(),
            cs@ == s@,
            out@.map_values(|l: String| l@) + lines_spec(cs@.skip(pos as int)) == lines_spec(s@),
        decreases cs@.len() - pos,
    {
        let ghost rest = cs@.skip(pos as int);
        let e = find_char_from(&cs, '\n', pos);
        proof {
            lemma_find_skip(cs@, '\n', pos as int, 0);
            lemma_find_from_bounds(cs@, '\n', pos as int);
        }
        let mut end = e;
        if end > pos && cs[end - 1] == '\r' && e < cs.len() {
            end = end - 1;
        }
        let line = string_of_range(&cs, pos, end);
        let ghost o = out@.map_values(|l: String| l@);
        out.push(line);
        assert(out@.map_values(|l: String| l@) =~= o.push(line@));
        if e == cs.len() {
            assert(line@ =~= rest);
            assert(cs@.skip(cs@.len() as int) =~= Seq::<char>::empty());
            pos = e;
        } else {
            assert(rest.take(e - pos) =~= cs@.subrange(pos as int, e as int));
            assert(line@ =~= strip_cr(rest.take(e - pos)));
            assert(rest.skip(e - pos + 1) =~= cs@.skip(e as int + 1));
            pos = e + 1;
        }
        assert(seq![line@] + lines_spec(cs@.skip(pos as int)) =~= lines_spec(rest));
    }
    assert(cs@.skip(pos as int) =~= Seq::<char>::empty());
    assert(out@.map_values(|l: String| l@) =~= out@.map_values(|l: String| l@) + lines_spec(Seq::<char>::empty()));
    out
}

/// The rows of the non-blank lines of a run log.
pub open spec fn log_rows(lines: Seq<Seq<char>>) -> Seq<(Seq<char>, LogLevel, Seq<char>, Seq<char>)>
    decreases lines.len(),
{
    if lines.len() == 0 {
        Seq::empty()
    } else {
        let rest = log_rows(lines.drop_last());
        if trim(lines.last()).len() == 0 {
            rest
        } else {
            rest.push(log_row(lines.last(), json_log_view(lines.last())))
        }
    }
}

impl App {
    /// Shows run `run_id`'s log `content` on the log view, scrolled to the
    /// last row.
    pub fn show_log(&mut self, run_id: String, content: &str)
        ensures
            final(self).log_lines@.map_values(|e: LogEntry| entry_view(e)) == log_rows(lines_spec(content@)),
            final(self).log_scroll == if final(self).log_lines@.len() > 0 {
                final(self).log_lines@.len() - 1
            } else {
                0
            },
            *final(self) == (App {
                log_lines: final(self).log_lines,
                log_scroll: final(self).log_scroll,
                log_run_id: run_id,
                view: Screen::Log,
                ..*old(self)
            }),
    {
        let lines = split_lines(content);
        let ghost ls = lines@.map_values(|l: String| l@);
        let mut rows: Vec<LogEntry> = Vec::new();
        let mut i: usize = 0;
        assert(ls.take(0) =~= Seq::<Seq<char>>::empty());
        while i < lines.len()
            invariant
                0 <= i <= lines@.len(),
                ls == lines@.map_values(|l: String| l@),
                rows@.map_values(|e: LogEntry| entry_view(e)) == log_rows(ls.take(i as int)),
            decreases lines@.len() - i,
        {
            assert(ls.take(i as int + 1).drop_last() =~= ls.take(i as int));
            assert(ls[i as int] == lines@[i as int]@);
            let t = trim_str(lines[i].as_str());
            if !t.as_str().is_empty() {
                let ghost o = rows@.map_values(|e: LogEntry| entry_view(e));
                rows.push(parse_jsonl_line(lines[i].as_str()));
                assert(rows@.map_values(|e: LogEntry| entry_view(e)) =~= o.push(
                    log_row(ls[i as int], json_log_view(ls[i as int])),
                ));
            }
            i += 1;
        }
        assert(ls.take(i as int) =~= ls);
        self.log_scroll = if rows.len() > 0 {
            rows.len() - 1
        } else {
            0
        };
        self.log_lines = rows;
        self.log_run_id = run_id;
        self.view = Screen::Log;
    }

    /// No run has a log yet.
    pub fn log_missing(&mut self)
        ensures
            final(self).log_lines@.len() == 1,
            entry_view(final(self).log_lines@[0]) == (Seq::<char>::empty(), LogLevel::Warn, "no runs found"@, Seq::<char>::empty()),
            *final(self) == (App { log_lines: final(self).log_lines, log_run_id: final(self).log_run_id, log_scroll: 0, ..*old(self) }),
            final(self).log_run_id@.len() == 0,
    {
        self.log_lines = vec![LogEntry { time: String::new(), level: LogLevel::Warn, event: "no runs found".to_owned(), detail: String::new() }];
        self.log_run_id = String::new();
        self.log_scroll = 0;
    }

    /// The latest run log could not be read (`err`).
    pub fn log_unreadable(&mut self, err: &str)
        ensures
            final(self).log_lines@.len() == 1,
            entry_view(final(self).log_lines@[0]) == (Seq::<char>::empty(), LogLevel::Error, "cannot read log: "@ + err@, Seq::<char>::empty()),
            *final(self) == (App { log_lines: final(self).log_lines, ..*old(self) }),
    {
        let mut m = "cannot read log: ".to_owned();
        push_str(&mut m, err);
        self.log_lines = vec![LogEntry { time: String::new(), level: LogLevel::Error, event: m, detail: String::new() }];
    }
}

} // verus!
