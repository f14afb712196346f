//! Removable drives: identifying DAPs and resolving destinations.

use vstd::prelude::*;

use crate::diff::plan::clone_opt;
use crate::paths::{join, path_join};
use crate::text::{
    chars_of, contains, dec, fmt_u64, has_infix, has_prefix, push_str, starts_with, str_eq,
    string_of_range, to_uppercase, uppercase,
};

verus! {

/// A removable mount candidate.
#[derive(Debug, Clone)]
pub struct Mount {
    pub mount_point: String,
    pub label: Option<String>,
    pub filesystem: Option<String>,
    pub total_bytes: Option<u64>,
    pub free_bytes: Option<u64>,
}

/// A mount matched against a DAP profile id.
#[derive(Debug, Clone)]
pub struct IdentifiedDap {
    pub mount: Mount,
    pub dap_id: String,
    pub confidence: Confidence,
}

#[derive(Debug, Clone, Copy, PartialEq, Eq, Structural)]
pub enum Confidence {
    /// Label matched a known DAP exactly.
    Exact,
    /// Label or marker file strongly suggests this DAP.
    Heuristic,
    /// No strong signal; fell back to a generic profile.
    Fallback,
}

/// Removable drives, identified or not.
#[derive(Debug, Clone)]
pub struct ScanResult {
    pub identified: Vec<IdentifiedDap>,
    pub unidentified: Vec<Mount>,
}

/// What exists at the root of a mount.
#[derive(Debug, Clone, Copy)]
pub struct RootMarkers {
    /// `.database_uuid` (FiiO Android firmware).
    pub database_uuid: bool,
    /// `HiByMusic/`.
    pub hiby_music: bool,
    /// `.thumbnails/` (common on Android DAPs).
    pub thumbnails: bool,
    /// `Music/` or `MUSIC/`.
    pub music_dir: bool,
}

pub open spec fn opt_str(o: Option<String>) -> Seq<char> {
    match o {
        Some(s) => s@,
        None => Seq::empty(),
    }
}

/// The uppercased volume label, empty without one.
pub open spec fn label_up(m: Mount) -> Seq<char> {
    match m.label {
        Some(l) => uppercase(l@),
        None => Seq::empty(),
    }
}

pub open spec fn is_m11(l: Seq<char>) -> bool {
    l == "FIIO M11"@ || has_prefix(l, "M11"@) || has_infix(l, "M11 PLUS"@) || has_infix(
        l,
        "M11PLUS"@,
    ) || has_infix(l, "M11_PLUS"@) || has_infix(l, "M11 PRO"@) || has_infix(l, "M11S"@)
}

pub open spec fn audio_fs(m: Mount) -> bool {
    match m.filesystem {
        Some(f) => f@ == "EXFAT"@ || f@ == "FAT32"@ || f@ == "FAT"@ || f@ == "VFAT"@,
        None => false,
    }
}

/// Which DAP profile a mount looks like, strongest signal first: exact
/// labels, vendor or model words in the label, firmware marker files, and a
/// FAT/exFAT drive with a music folder.
pub open spec fn identify_spec(m: Mount, mk: RootMarkers) -> Option<(Seq<char>, Confidence)> {
    let l = label_up(m);
    if l == "FIIO M21"@ || l == "FIIO_M21"@ || l == "M21"@ {
        Some(("fiio-m21"@, Confidence::Exact))
    } else if is_m11(l) {
        Some(("generic"@, Confidence::Heuristic))
    } else if l == "AK SR35"@ || l == "AK_SR35"@ || l == "SR35"@ {
        Some(("ak-sr35"@, Confidence::Exact))
    } else if l == "HIBY R6"@ || l == "HIBY_R6"@ || l == "R6"@ || l == "HIBY R6 III"@ {
        Some(("hiby-r6"@, Confidence::Exact))
    } else if has_infix(l, "FIIO"@) {
        Some(("fiio-m21"@, Confidence::Heuristic))
    } else if has_infix(l, "ASTELL"@) || has_infix(l, "A&K"@) || has_infix(l, "AK"@) {
        Some(("ak-sr35"@, Confidence::Heuristic))
    } else if has_infix(l, "HIBY"@) {
        Some(("hiby-r6"@, Confidence::Heuristic))
    } else if has_infix(l, "SHANLING"@) || has_infix(l, "IBASSO"@) || has_infix(l, "CAYIN"@) {
        Some(("generic"@, Confidence::Heuristic))
    } else if mk.database_uuid {
        Some(("fiio-m21"@, Confidence::Heuristic))
    } else if mk.hiby_music {
        Some(("hiby-r6"@, Confidence::Heuristic))
    } else if mk.thumbnails {
        Some(("generic"@, Confidence::Heuristic))
    } else if audio_fs(m) && mk.music_dir {
        Some(("generic"@, Confidence::Fallback))
    } else {
        None
    }
}

/// The root markers decide only when the label does not: a mount whose
/// label identifies it (as it would with no markers at all) keeps that
/// answer whatever markers it has. Otherwise a `.database_uuid` file means
/// a FiiO, else a `HiByMusic` folder a HiBy, else a `.thumbnails` folder the
/// generic profile (all heuristic), else a FAT or exFAT drive with a music
/// folder the generic profile as a fallback, else nothing.
pub proof fn lemma_markers_after_label(m: Mount, mk: RootMarkers)
    ensures
        ({
            let none = RootMarkers { database_uuid: false, hiby_music: false, thumbnails: false, music_dir: false };
            let fat = m.filesystem matches Some(f) && (f@ == "EXFAT"@ || f@ == "FAT32"@ || f@ == "FAT"@ || f@
                == "VFAT"@);
            &&& identify_spec(m, none) is Some ==> identify_spec(m, mk) == identify_spec(m, none)
            &&& identify_spec(m, none) is None ==> identify_spec(m, mk) == if mk.database_uuid {
                Some(("fiio-m21"@, Confidence::Heuristic))
            } else if mk.hiby_music {
                Some(("hiby-r6"@, Confidence::Heuristic))
            } else if mk.thumbnails {
                Some(("generic"@, Confidence::Heuristic))
            } else if fat && mk.music_dir {
                Some(("generic"@, Confidence::Fallback))
            } else {
                None
            }
        }),
{
}

impl Mount {
    /// A copy with equal fields.
    pub fn duplicate(&self) -> (r: Mount)
        ensures
            r == *self,
    {
        Mount {
            mount_point: self.mount_point.clone(),
            label: clone_opt(&self.label),
            filesystem: clone_opt(&self.filesystem),
            total_bytes: self.total_bytes,
            free_bytes: self.free_bytes,
        }
    }
}

fn hit(mount: &Mount, dap_id: &str, confidence: Confidence) -> (r: IdentifiedDap)
    ensures
        r.mount == *mount,
        r.dap_id@ == dap_id@,
        r.confidence == confidence,
{
    IdentifiedDap { mount: mount.duplicate(), dap_id: dap_id.to_owned(), confidence }
}

/// Identifies the DAP on a mount from its label and root markers (see
/// `identify_spec`).
pub fn identify(mount: &Mount, markers: RootMarkers) -> (r: Option<IdentifiedDap>)
    ensures
        match identify_spec(*mount, markers) {
            None => r is None,
            Some((id, c)) => r matches Some(d) && d.mount == *mount && d.dap_id@ == id
                && d.confidence == c,
        },
{
    let l = match &mount.label {
        Some(s) => to_uppercase(s.as_str()),
        None => String::new(),
    };
    let l = l.as_str();
    if str_eq(l, "FIIO M21") || str_eq(l, "FIIO_M21") || str_eq(l, "M21") {
        return Some(hit(mount, "fiio-m21", Confidence::Exact));
    }
    if str_eq(l, "FIIO M11") || starts_with(l, "M11") || contains(l, "M11 PLUS") || contains(
        l,
        "M11PLUS",
    ) || contains(l, "M11_PLUS") || contains(l, "M11 PRO") || contains(l, "M11S") {
        return Some(hit(mount, "generic", Confidence::Heuristic));
    }
    if str_eq(l, "AK SR35") || str_eq(l, "AK_SR35") || str_eq(l, "SR35") {
        return Some(hit(mount, "ak-sr35", Confidence::Exact));
    }
    if str_eq(l, "HIBY R6") || str_eq(l, "HIBY_R6") || str_eq(l, "R6") || str_eq(l, "HIBY R6 III") {
        return Some(hit(mount, "hiby-r6", Confidence::Exact));
    }
    if contains(l, "FIIO") {
        return Some(hit(mount, "fiio-m21", Confidence::Heuristic));
    }
    if contains(l, "ASTELL") || contains(l, "A&K") || contains(l, "AK") {
        return Some(hit(mount, "ak-sr35", Confidence::Heuristic));
    }
    if contains(l, "HIBY") {
        return Some(hit(mount, "hiby-r6", Confidence::Heuristic));
    }
    if contains(l, "SHANLING") || contains(l, "IBASSO") || contains(l, "CAYIN") {
        return Some(hit(mount, "generic", Confidence::Heuristic));
    }
    if markers.database_uuid {
        return Some(hit(mount, "fiio-m21", Confidence::Heuristic));
    }
    if markers.hiby_music {
        return Some(hit(mount, "hiby-r6", Confidence::Heuristic));
    }
    if markers.thumbnails {
        return Some(hit(mount, "generic", Confidence::Heuristic));
    }
    let is_audio_fs = match &mount.filesystem {
        Some(f) => {
            let f = f.as_str();
            str_eq(f, "EXFAT") || str_eq(f, "FAT32") || str_eq(f, "FAT") || str_eq(f, "VFAT")
        },
        None => false,
    };
    if is_audio_fs && markers.music_dir {
        return Some(hit(mount, "generic", Confidence::Fallback));
    }
    None
}

/// Mounts split into those identified as a DAP, as (mount, DAP id,
/// confidence), and the rest, each in the given order.
pub open spec fn classify_spec(ms: Seq<(Mount, RootMarkers)>) -> (Seq<(Mount, Seq<char>, Confidence)>, Seq<Mount>)
    decreases ms.len(),
{
    if ms.len() == 0 {
        (Seq::empty(), Seq::empty())
    } else {
        let (a, b) = classify_spec(ms.drop_last());
        let (m, mk) = ms.last();
        match identify_spec(m, mk) {
            Some((id, c)) => (a.push((m, id, c)), b),
            None => (a, b.push(m)),
        }
    }
}

pub open spec fn identified_view(d: IdentifiedDap) -> (Mount, Seq<char>, Confidence) {
    (d.mount, d.dap_id@, d.confidence)
}

/// Splits mounts into those identified as a DAP and the rest, each in the
/// given order.
pub fn classify_mounts(mounts: Vec<(Mount, RootMarkers)>) -> (r: ScanResult)
    ensures
        r.identified@.map_values(|d: IdentifiedDap| identified_view(d)) == classify_spec(mounts@).0,
        r.unidentified@ == classify_spec(mounts@).1,
{
    let mut identified: Vec<IdentifiedDap> = Vec::new();
    let mut unidentified: Vec<Mount> = Vec::new();
    let mut i: usize = 0;
    while i < mounts.len()
        invariant
            0 <= i <= mounts@.len(),
            identified@.map_values(|d: IdentifiedDap| identified_view(d)) == classify_spec(mounts@.take(i as int)).0,
            unidentified@ == classify_spec(mounts@.take(i as int)).1,
        decreases mounts@.len() - i,
    {
        assert(mounts@.take(i as int + 1).drop_last() =~= mounts@.take(i as int));
        let (m, mk) = &mounts[i];
        let ghost pa = identified@.map_values(|d: IdentifiedDap| identified_view(d));
        let ghost pb = unidentified@;
        match identify(m, *mk) {
            Some(d) => {
                identified.push(d);
                assert(identified@.map_values(|d: IdentifiedDap| identified_view(d)) =~= pa.push(identified_view(identified@.last())));
            },
            None => {
                let c = m.duplicate();
                unidentified.push(c);
                assert(unidentified@ =~= pb.push(*m));
            },
        }
        i += 1;
    }
    assert(mounts@.take(i as int) =~= mounts@);
    ScanResult { identified, unidentified }
}

// ── Destinations ─────────────────────────────────────────────────────────────

/// The DAP id of an `auto:<dap-id>` destination; `None` for a literal path.
pub fn auto_dap_id(destination: &str) -> (r: Option<String>)
    ensures
        has_prefix(destination@, "auto:"@) ==> (r matches Some(id) && id@ == destination@.skip(5)),
        !has_prefix(destination@, "auto:"@) ==> r is None,
{
    proof {
        reveal_strlit("auto:");
    }
    if starts_with(destination, "auto:") {
        let cs = chars_of(destination);
        Some(string_of_range(&cs, 5, cs.len()))
    } else {
        None
    }
}

/// Leading `/` characters of `s` from `i` on.
pub open spec fn lead_slash(s: Seq<char>, i: int) -> int
    decreases s.len() - i,
{
    if 0 <= i < s.len() && s[i] == '/' {
        lead_slash(s, i + 1)
    } else {
        i
    }
}

/// Where a DAP's music lives on its mount: the mount point joined with the
/// profile's music root stripped of leading `/`, or the mount point itself
/// when nothing is left.
pub open spec fn dest_spec(mount_point: Seq<char>, music_root: Seq<char>) -> Seq<char> {
    let rel = music_root.skip(lead_slash(music_root, 0));
    if rel.len() == 0 {
        mount_point
    } else {
        path_join(mount_point, rel)
    }
}

pub fn dest_under_mount(mount_point: &str, music_root: &str) -> (r: String)
    ensures
        r@ == dest_spec(mount_point@, music_root@),
{
    let cs = chars_of(music_root);
    let mut lo: usize = 0;
    while lo < cs.len() && cs[lo] == '/'
        invariant
            0 <= lo <= cs@.len(),
            lead_slash(cs@, 0) == lead_slash(cs@, lo as int),
        decreases cs@.len() - lo,
    {
        lo += 1;
    }
    let rel = string_of_range(&cs, lo, cs.len());
    assert(rel@ =~= cs@.skip(lo as int));
    if rel.as_str().is_empty() {
        mount_point.to_owned()
    } else {
        join(mount_point, rel.as_str())
    }
}

// ── Sizes ────────────────────────────────────────────────────────────────────

/// `n / d` rounded to nearest, ties to even.
pub open spec fn round_half_even(n: nat, d: nat) -> nat
    recommends
        d > 0,
{
    let q = n / d;
    let r = n % d;
    if 2 * r > d || (2 * r == d && q % 2 == 1) {
        q + 1
    } else {
        q
    }
}

/// Number of bits of `n`.
pub open spec fn bit_len(n: nat) -> nat
    decreases n,
{
    if n == 0 {
        0
    } else {
        1 + bit_len(n / 2)
    }
}

pub open spec fn pow2(k: nat) -> nat
    decreases k,
{
    if k == 0 {
        1
    } else {
        2 * pow2((k - 1) as nat)
    }
}

/// `n` rounded to the nearest double (53 significant bits, ties to even),
/// which is what `n as f64` yields.
pub open spec fn as_double(n: nat) -> nat {
    if bit_len(n) <= 53 {
        n
    } else {
        let s = (bit_len(n) - 53) as nat;
        round_half_even(n, pow2(s)) * pow2(s)
    }
}

pub open spec fn gib() -> nat {
    1073741824
}

pub open spec fn mib() -> nat {
    1048576
}

/// A size for humans: `{:.1} GB` of binary gigabytes from 1 GiB on,
/// `{:.0} MB` of mebibytes below, with ties rounded to even.
pub open spec fn bytes_text(b: nat) -> Seq<char> {
    if b >= gib() {
        let t = round_half_even(as_double(b) * 10, gib());
        dec(t / 10) + "."@ + dec(t % 10) + " GB"@
    } else {
        dec(round_half_even(b, mib())) + " MB"@
    }
}

fn bit_len_exec(n: u64) -> (r: u64)
    ensures
        r == bit_len(n as nat),
        r <= 64,
{
    let mut m = n;
    let mut len: u64 = 0;
    proof {
        lemma_bit_len_u64(n as nat);
    }
    while m > 0
        invariant
            len + bit_len(m as nat) == bit_len(n as nat),
            len <= 64,
            m as nat <= u64::MAX,
            len + bit_len(m as nat) <= 64,
        decreases m,
    {
        m = m / 2;
        len = len + 1;
    }
    len
}

proof fn lemma_bit_len_u64(n: nat)
    requires
        n <= u64::MAX,
    ensures
        bit_len(n) <= 64,
{
    lemma_pow2_64();
    lemma_bit_len_bound(n, 64);
}

proof fn lemma_bit_len_bound(n: nat, k: nat)
    requires
        n < pow2(k),
    ensures
        bit_len(n) <= k,
    decreases n,
{
    if n > 0 {
        if k == 0 {
            assert(pow2(0) == 1);
        } else {
            assert(pow2(k) == 2 * pow2((k - 1) as nat));
            lemma_bit_len_bound(n / 2, (k - 1) as nat);
        }
    }
}

proof fn lemma_pow2_64()
    ensures
        pow2(64) == 0x1_0000_0000_0000_0000,
{
    reveal_with_fuel(pow2, 65);
}

proof fn lemma_pow2_pos(a: nat)
    ensures
        pow2(a) >= 1,
    decreases a,
{
    if a > 0 {
        lemma_pow2_pos((a - 1) as nat);
    }
}

fn pow2_exec(k: u64) -> (r: u128)
    requires
        k <= 64,
    ensures
        r == pow2(k as nat),
{
    let mut p: u128 = 1;
    let mut i: u64 = 0;
    proof {
        lemma_pow2_64();
        lemma_pow2_mono(0, 64);
    }
    while i < k
        invariant
            0 <= i <= k <= 64,
            p == pow2(i as nat),
            p <= pow2(64),
        decreases k - i,
    {
        proof {
            lemma_pow2_mono(i as nat + 1, 64);
            lemma_pow2_64();
        }
        p = p * 2;
        i = i + 1;
    }
    p
}

proof fn lemma_pow2_mono(a: nat, b: nat)
    requires
        a <= b,
    ensures
        pow2(a) <= pow2(b),
        pow2(a) >= 1,
    decreases b,
{
    lemma_pow2_pos(a);
    if a < b {
        lemma_pow2_mono(a, (b - 1) as nat);
    }
}

fn round_half_even_exec(n: u128, d: u128) -> (r: u128)
    requires
        d > 0,
        d <= 0x1_0000_0000_0000_0000,
        n <= 0x1_0000_0000_0000_0000_0000_0000,
    ensures
        r == round_half_even(n as nat, d as nat),
        r <= n / d + 1,
{
    let q = n / d;
    let rem = n % d;
    if 2 * rem > d || (2 * rem == d && q % 2 == 1) {
        q + 1
    } else {
        q
    }
}

/// Formats a byte count (see `bytes_text`).
pub fn fmt_bytes(bytes: u64) -> (r: String)
    ensures
        r@ == bytes_text(bytes as nat),
{
    if bytes >= 1073741824 {
        proof {
            lemma_bit_len_u64(bytes as nat);
            lemma_pow2_64();
        }
        let len = bit_len_exec(bytes);
        let d: u128 = if len <= 53 {
            bytes as u128
        } else {
            let p = pow2_exec(len - 53);
            proof {
                lemma_pow2_mono((len - 53) as nat, 64);
            }
            let q = round_half_even_exec(bytes as u128, p);
            assert(q <= bytes as u128 / p + 1);
            assert(q * p <= 0x2_0000_0000_0000_0000) by (nonlinear_arith)
                requires
                    q <= bytes as u128 / p + 1,
                    p >= 1,
                    p <= 0x1_0000_0000_0000_0000,
                    bytes <= u64::MAX,
            {
                assert((bytes as u128 / p) * p <= bytes as u128);
            }
            q * p
        };
        let t = round_half_even_exec(d * 10, 1073741824);
        assert(t <= d * 10 / 1073741824 + 1);
        let mut s = fmt_u64((t / 10) as u64);
        push_str(&mut s, ".");
        let f = fmt_u64((t % 10) as u64);
        push_str(&mut s, f.as_str());
        push_str(&mut s, " GB");
        s
    } else {
        let t = round_half_even_exec(bytes as u128, 1048576);
        assert(t <= bytes as u128 / 1048576 + 1);
        let mut s = fmt_u64(t as u64);
        push_str(&mut s, " MB");
        s
    }
}

} // verus!
