//! DAP (digital audio player) device profiles.

use vstd::prelude::*;

use crate::error::DapError;
use crate::order::{sorted_unique, strictly_sorted, strs};
use crate::text::str_eq;

verus! {

/// A DAP device profile.
#[derive(Debug, Clone)]
pub struct DapProfile {
    pub schema_version: u32,
    pub dap: DapHeader,
    pub filesystem: Filesystem,
    pub codecs: Codecs,
    pub layout: Layout,
    pub exclude: Exclude,
    pub quirks: Quirks,
}

#[derive(Debug, Clone)]
pub struct DapHeader {
    pub id: String,
    pub name: String,
    pub vendor: String,
    pub firmware_min: Option<String>,
    pub sources: Vec<String>,
}

/// Limits of the filesystem the DAP reads.
#[derive(Debug, Clone)]
pub struct Filesystem {
    pub preferred: String,
    pub supported: Vec<String>,
    pub max_filename_bytes: u32,
    pub max_path_bytes: u32,
    pub case_sensitive: bool,
}

#[derive(Debug, Clone)]
pub struct Codecs {
    pub lossless: Vec<String>,
    pub lossy: Vec<String>,
    pub max_sample_rate_hz: u32,
    pub max_bit_depth: u32,
    pub dsd: Vec<String>,
}

#[derive(Debug, Clone)]
pub struct Layout {
    pub music_root: String,
    pub prefers_artist_album_tree: bool,
}

#[derive(Debug, Clone)]
pub struct Exclude {
    pub globs: Vec<String>,
}

#[derive(Debug, Clone)]
pub struct Quirks {
    pub warn_on_embedded_art_mb: Option<u32>,
    pub normalize_unicode: Option<String>,
}

/// Ids of the builtin DAP profiles, ascending.
pub open spec fn builtin_ids_spec() -> Seq<Seq<char>> {
    seq![
        "ak-sr35"@,
        "fiio-m11"@,
        "fiio-m21"@,
        "generic"@,
        "hiby-r6"@,
        "ibasso-dx320"@,
        "shanling-m3ultra"@,
    ]
}

/// The ids of the builtin DAP profiles.
pub fn builtin_ids() -> (r: Vec<String>)
    ensures
        strs(r@) == builtin_ids_spec(),
{
    let mut r: Vec<String> = Vec::new();
    r.push("ak-sr35".to_owned());
    r.push("fiio-m11".to_owned());
    r.push("fiio-m21".to_owned());
    r.push("generic".to_owned());
    r.push("hiby-r6".to_owned());
    r.push("ibasso-dx320".to_owned());
    r.push("shanling-m3ultra".to_owned());
    assert(strs(r@) =~= builtin_ids_spec());
    r
}

/// All known DAP profile ids: the builtins and the stems of the user's
/// override files, each once, ascending.
pub fn list(override_stems: &Vec<String>) -> (r: Vec<String>)
    ensures
        strictly_sorted(strs(r@)),
        strs(r@).to_set() == builtin_ids_spec().to_set() + strs(override_stems@).to_set(),
{
    let mut all = builtin_ids();
    let ghost b = strs(all@);
    let mut i: usize = 0;
    while i < override_stems.len()
        invariant
            0 <= i <= override_stems@.len(),
            b == builtin_ids_spec(),
            strs(all@) == b + strs(override_stems@).take(i as int),
        decreases override_stems@.len() - i,
    {
        let ghost before = all@;
        let c = override_stems[i].clone();
        assert(c@ == override_stems@[i as int]@);
        all.push(c);
        assert(strs(all@) =~= strs(before).push(c@));
        assert(strs(override_stems@).take(i as int + 1) =~= strs(override_stems@).take(i as int).push(override_stems@[i as int]@));
        assert(strs(all@) =~= b + strs(override_stems@).take(i as int + 1));
        i += 1;
    }
    assert(strs(override_stems@).take(i as int) =~= strs(override_stems@));
    let r = sorted_unique(&all);
    proof {
        vstd::seq_lib::seq_to_set_distributes_over_add::<Seq<char>>(b, strs(override_stems@));
    }
    r
}

/// Where a DAP profile is read from.
#[derive(Debug, Clone, Copy, PartialEq, Eq, Structural)]
pub enum ProfileSource {
    /// The user's override file `<config>/profiles/<id>.toml`.
    UserOverride,
    /// The builtin profile at this index of `builtin_ids`.
    Builtin(usize),
}

/// Decides where DAP profile `id` is loaded from: a user override, when one
/// exists, wins over the builtin catalogue; an id that is in neither is
/// unknown.
pub fn load(id: &str, override_exists: bool) -> (r: Result<ProfileSource, DapError>)
    ensures
        override_exists ==> r == Ok::<ProfileSource, DapError>(ProfileSource::UserOverride),
        !override_exists ==> match r {
            Ok(ProfileSource::Builtin(k)) => k < builtin_ids_spec().len() && builtin_ids_spec()[k as int] == id@,
            Ok(ProfileSource::UserOverride) => false,
            Err(DapError::UnknownId { id: e }) => e@ == id@ && !builtin_ids_spec().contains(id@),
            Err(_) => false,
        },
{
    if override_exists {
        return Ok(ProfileSource::UserOverride);
    }
    let ids = builtin_ids();
    let mut k: usize = 0;
    while k < ids.len()
        invariant
            0 <= k <= ids@.len(),
            !override_exists,
            strs(ids@) == builtin_ids_spec(),
            forall|j: int| 0 <= j < k ==> builtin_ids_spec()[j] != id@,
        decreases ids@.len() - k,
    {
        assert(strs(ids@)[k as int] == ids@[k as int]@);
        if str_eq(ids[k].as_str(), id) {
            return Ok(ProfileSource::Builtin(k));
        }
        k += 1;
    }
    Err(DapError::UnknownId { id: id.to_owned() })
}

} // verus!
