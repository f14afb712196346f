//! The plan: what a sync would do to each path.

use vstd::prelude::*;

verus! {

#[derive(Debug, Clone, Copy, PartialEq, Eq, Structural)]
pub enum EntryKind {
    /// Present in source, absent in destination: will be copied.
    New,
    /// Present in both, but different: will be overwritten.
    Modified,
    /// Present in destination only: deleted in mirror mode.
    Orphan,
    /// Identical: no action.
    Same,
}

#[derive(Debug, Clone)]
pub struct Entry {
    pub kind: EntryKind,
    pub path: String,
    pub size_bytes: u64,
    /// When `Some`, the file is produced by transcoding a source file with
    /// this extension.
    pub transcode_from: Option<String>,
}

/// A plan entry as (kind, path, size, transcode source extension).
pub type Row = (EntryKind, Seq<char>, u64, Option<Seq<char>>);

pub open spec fn opt_view(o: Option<String>) -> Option<Seq<char>> {
    match o {
        Some(s) => Some(s@),
        None => None,
    }
}

impl View for Entry {
    type V = Row;

    open spec fn view(&self) -> Row {
        (self.kind, self.path@, self.size_bytes, opt_view(self.transcode_from))
    }
}

/// A copy of an optional string.
pub fn clone_opt(o: &Option<String>) -> (r: Option<String>)
    ensures
        r == *o,
        opt_view(r) == opt_view(*o),
{
    match o {
        Some(s) => Some(s.clone()),
        None => None,
    }
}

impl Entry {
    /// A copy of this entry.
    pub fn clone_entry(&self) -> (r: Entry)
        ensures
            r@ == self@,
    {
        Entry {
            kind: self.kind,
            path: self.path.clone(),
            size_bytes: self.size_bytes,
            transcode_from: clone_opt(&self.transcode_from),
        }
    }
}

#[derive(Debug, Clone, Copy, PartialEq, Eq, Structural)]
pub enum PathWarningKind {
    FilenameTooLong,
    PathTooLong,
}

/// A planned path that exceeds a limit of the destination filesystem.
#[derive(Debug, Clone)]
pub struct PathWarning {
    pub path: String,
    pub kind: PathWarningKind,
    pub length_bytes: usize,
    pub limit_bytes: u32,
}

impl PathWarning {
    /// A copy with equal fields.
    pub fn duplicate(&self) -> (r: PathWarning)
        ensures
            r == *self,
    {
        PathWarning {
            path: self.path.clone(),
            kind: self.kind,
            length_bytes: self.length_bytes,
            limit_bytes: self.limit_bytes,
        }
    }
}

/// Copies of `ws`, in order.
pub fn duplicate_warnings(ws: &Vec<PathWarning>) -> (r: Vec<PathWarning>)
    ensures
        r@ == ws@,
{
    let mut out: Vec<PathWarning> = Vec::new();
    let mut i: usize = 0;
    while i < ws.len()
        invariant
            0 <= i <= ws@.len(),
            out@ == ws@.take(i as int),
        decreases ws@.len() - i,
    {
        out.push(ws[i].duplicate());
        assert(out@ =~= ws@.take(i as int + 1));
        i += 1;
    }
    assert(ws@.take(i as int) =~= ws@);
    out
}

#[derive(Debug, Clone)]
pub struct Plan {
    pub entries: Vec<Entry>,
    pub warnings: Vec<PathWarning>,
}

impl View for Plan {
    type V = Seq<Row>;

    open spec fn view(&self) -> Seq<Row> {
        self.entries@.map_values(|e: Entry| e@)
    }
}

/// Number of entries of `kind`.
pub open spec fn count_kind(es: Seq<Row>, kind: EntryKind) -> nat
    decreases es.len(),
{
    if es.len() == 0 {
        0
    } else {
        count_kind(es.drop_last(), kind) + if es.last().0 == kind {
            1nat
        } else {
            0nat
        }
    }
}

/// Total size of the entries of `kind`.
pub open spec fn bytes_kind(es: Seq<Row>, kind: EntryKind) -> nat
    decreases es.len(),
{
    if es.len() == 0 {
        0
    } else {
        bytes_kind(es.drop_last(), kind) + if es.last().0 == kind {
            es.last().2 as nat
        } else {
            0nat
        }
    }
}

/// Bytes written by a sync of `es`: new and modified entries.
pub open spec fn transfer_spec(es: Seq<Row>) -> nat {
    bytes_kind(es, EntryKind::New) + bytes_kind(es, EntryKind::Modified)
}

pub proof fn lemma_bytes_kind_prefix(es: Seq<Row>, kind: EntryKind, i: int)
    requires
        0 <= i <= es.len(),
    ensures
        bytes_kind(es.take(i), kind) <= bytes_kind(es, kind),
    decreases es.len() - i,
{
    if i < es.len() {
        lemma_bytes_kind_prefix(es, kind, i + 1);
        assert(es.take(i + 1).drop_last() =~= es.take(i));
    } else {
        assert(es.take(i) =~= es);
    }
}

impl Plan {
    pub fn new(entries: Vec<Entry>) -> (r: Self)
        ensures
            r@ == entries@.map_values(|e: Entry| e@),
            r.warnings@.len() == 0,
    {
        Plan { entries, warnings: Vec::new() }
    }

    /// Number of entries of `kind`.
    pub fn count(&self, kind: EntryKind) -> (r: usize)
        ensures
            r == count_kind(self@, kind),
    {
        let mut n: usize = 0;
        let mut i: usize = 0;
        while i < self.entries.len()
            invariant
                0 <= i <= self@.len(),
                self@.len() == self.entries@.len(),
                n == count_kind(self@.take(i as int), kind),
                n <= i,
            decreases self@.len() - i,
        {
            assert(self@.take(i as int + 1).drop_last() =~= self@.take(i as int));
            assert(self@[i as int] == self.entries@[i as int]@);
            if self.entries[i].kind == kind {
                n += 1;
            }
            i += 1;
        }
        assert(self@.take(i as int) =~= self@);
        n
    }

    /// Total size in bytes of the entries of `kind`.
    pub fn total_bytes(&self, kind: EntryKind) -> (r: u64)
        requires
            bytes_kind(self@, kind) <= u64::MAX,
        ensures
            r == bytes_kind(self@, kind),
    {
        let mut n: u64 = 0;
        let mut i: usize = 0;
        while i < self.entries.len()
            invariant
                0 <= i <= self@.len(),
                self@.len() == self.entries@.len(),
                n == bytes_kind(self@.take(i as int), kind),
                bytes_kind(self@, kind) <= u64::MAX,
            decreases self@.len() - i,
        {
            assert(self@.take(i as int + 1).drop_last() =~= self@.take(i as int));
            proof {
                lemma_bytes_kind_prefix(self@, kind, i + 1);
            }
            assert(self@[i as int] == self.entries@[i as int]@);
            if self.entries[i].kind == kind {
                n = n + self.entries[i].size_bytes;
            }
            i += 1;
        }
        assert(self@.take(i as int) =~= self@);
        n
    }

    /// `total_bytes`, or `None` when the total does not fit in 64 bits.
    pub fn total_bytes_checked(&self, kind: EntryKind) -> (r: Option<u64>)
        ensures
            bytes_kind(self@, kind) <= u64::MAX ==> r == Some(bytes_kind(self@, kind) as u64),
            bytes_kind(self@, kind) > u64::MAX ==> r is None,
    {
        let mut n: u64 = 0;
        let mut i: usize = 0;
        while i < self.entries.len()
            invariant
                0 <= i <= self@.len(),
                self@.len() == self.entries@.len(),
                n == bytes_kind(self@.take(i as int), kind),
            decreases self@.len() - i,
        {
            assert(self@.take(i as int + 1).drop_last() =~= self@.take(i as int));
            proof {
                lemma_bytes_kind_prefix(self@, kind, i + 1);
            }
            assert(self@[i as int] == self.entries@[i as int]@);
            if self.entries[i].kind == kind {
                match n.checked_add(self.entries[i].size_bytes) {
                    Some(m) => n = m,
                    None => return None,
                }
            }
            i += 1;
        }
        assert(self@.take(i as int) =~= self@);
        Some(n)
    }

    /// `transfer_bytes`, or `None` when the total does not fit in 64 bits.
    pub fn transfer_bytes_checked(&self) -> (r: Option<u64>)
        ensures
            transfer_spec(self@) <= u64::MAX ==> r == Some(transfer_spec(self@) as u64),
            transfer_spec(self@) > u64::MAX ==> r is None,
    {
        match (self.total_bytes_checked(EntryKind::New), self.total_bytes_checked(EntryKind::Modified)) {
            (Some(a), Some(b)) => a.checked_add(b),
            _ => None,
        }
    }

    /// Bytes that will need to be written to the destination: the sizes of
    /// the new and modified entries.
    pub fn transfer_bytes(&self) -> (r: u64)
        requires
            transfer_spec(self@) <= u64::MAX,
        ensures
            r == transfer_spec(self@),
    {
        self.total_bytes(EntryKind::New) + self.total_bytes(EntryKind::Modified)
    }

    /// Rough ETA in seconds at `speed_bps` bytes per second; 0 when the speed
    /// is 0.
    pub fn eta_secs(&self, speed_bps: u64) -> (r: u64)
        requires
            transfer_spec(self@) <= u64::MAX,
        ensures
            speed_bps == 0 ==> r == 0,
            speed_bps > 0 ==> r == transfer_spec(self@) / (speed_bps as nat),
    {
        if speed_bps == 0 {
            return 0;
        }
        self.transfer_bytes() / speed_bps
    }
}

} // verus!
