//! Sync profiles: schema, validation, and the merged profile.

use vstd::prelude::*;

use crate::dap::DapProfile;
use crate::error::{ConfigError, ConfigErrorV};
use crate::paths::{join, path_join};
use crate::text::{trim, trim_chars, chars_of, push_str};

verus! {

/// A sync profile (`schema_version`, `[profile]`, `[filters]`, `[transfer]`,
/// `[transcode]`).
#[derive(Debug, Clone)]
pub struct SyncProfile {
    pub schema_version: u32,
    pub profile: ProfileHeader,
    pub filters: Filters,
    pub transfer: Transfer,
    pub transcode: Transcode,
}

#[derive(Debug, Clone)]
pub struct ProfileHeader {
    pub name: String,
    pub source: String,
    pub destination: String,
    pub dap_profile: String,
    pub mode: Mode,
}

#[derive(Debug, Clone, Copy, PartialEq, Eq, Structural)]
pub enum Mode {
    Additive,
    Mirror,
    Selective,
}

#[derive(Debug, Clone)]
pub struct Filters {
    pub include_globs: Vec<String>,
    pub exclude_globs: Vec<String>,
    /// Include only files whose artist tag matches one of these
    /// (case-insensitive); empty accepts all.
    pub include_artists: Vec<String>,
    pub exclude_artists: Vec<String>,
    pub include_genres: Vec<String>,
    pub exclude_genres: Vec<String>,
    /// Skip files with sample rate strictly below this value (Hz).
    pub min_sample_rate_hz: Option<u32>,
    /// Skip files with sample rate strictly above this value (Hz).
    pub max_sample_rate_hz: Option<u32>,
    /// Skip files with bit depth strictly below this value.
    pub min_bit_depth: Option<u8>,
}

#[derive(Debug, Clone)]
pub struct Transfer {
    pub verify: Verify,
    pub dry_run_default: bool,
    pub parallelism: usize,
}

/// How a sync decides that a destination file already matches its source.
#[derive(Debug, Clone, Copy, PartialEq, Eq, Structural)]
pub enum Verify {
    /// No check: paths present on both sides are taken as identical.
    Off,
    SizeMtime,
    Checksum,
}

/// One transcoding rule: files with extension `from` become `to` through
/// ffmpeg with `params`.
#[derive(Debug, Clone)]
pub struct TranscodeRule {
    pub from: String,
    pub to: String,
    pub params: String,
}

#[derive(Debug, Clone)]
pub struct Transcode {
    pub enabled: bool,
    pub rules: Vec<TranscodeRule>,
}

/// The `[selective]` section: album directories chosen for a selective sync.
#[derive(Debug, Clone)]
pub struct Selective {
    pub include_paths: Vec<String>,
}

pub fn default_verify() -> (r: Verify)
    ensures
        r == Verify::SizeMtime,
{
    Verify::SizeMtime
}

pub fn default_true() -> (r: bool)
    ensures
        r,
{
    true
}

pub fn default_parallelism() -> (r: usize)
    ensures
        r == 4,
{
    4
}

impl Transfer {
    /// Size+mtime verification, dry run by default, parallelism 4.
    pub fn default() -> (r: Self)
        ensures
            r.verify == Verify::SizeMtime,
            r.dry_run_default,
            r.parallelism == 4,
    {
        Transfer { verify: default_verify(), dry_run_default: default_true(), parallelism: default_parallelism() }
    }
}

impl Filters {
    /// No filter.
    pub fn empty() -> (r: Self)
        ensures
            r.include_globs@.len() == 0,
            r.exclude_globs@.len() == 0,
            r.include_artists@.len() == 0,
            r.exclude_artists@.len() == 0,
            r.include_genres@.len() == 0,
            r.exclude_genres@.len() == 0,
            r.min_sample_rate_hz is None,
            r.max_sample_rate_hz is None,
            r.min_bit_depth is None,
    {
        Filters {
            include_globs: Vec::new(),
            exclude_globs: Vec::new(),
            include_artists: Vec::new(),
            exclude_artists: Vec::new(),
            include_genres: Vec::new(),
            exclude_genres: Vec::new(),
            min_sample_rate_hz: None,
            max_sample_rate_hz: None,
            min_bit_depth: None,
        }
    }

    /// Whether any tag-based filter is configured (so audio headers must be
    /// read).
    pub fn tag_filters_active(&self) -> (r: bool)
        ensures
            r == (self.include_artists@.len() > 0 || self.exclude_artists@.len() > 0
                || self.include_genres@.len() > 0 || self.exclude_genres@.len() > 0
                || self.min_sample_rate_hz is Some || self.max_sample_rate_hz is Some
                || self.min_bit_depth is Some),
    {
        self.include_artists.len() > 0 || self.exclude_artists.len() > 0
            || self.include_genres.len() > 0 || self.exclude_genres.len() > 0
            || self.min_sample_rate_hz.is_some() || self.max_sample_rate_hz.is_some()
            || self.min_bit_depth.is_some()
    }
}

// ── Validation ───────────────────────────────────────────────────────────────

/// The message `globset::Glob::new` gives for `pattern`, or `None` when it
/// accepts the pattern.
pub uninterp spec fn glob_error(pattern: Seq<char>) -> Option<Seq<char>>;

/// Parses a glob with `globset::Glob::new`; the contract claims only that
/// acceptance and the error message are globset's, named by `glob_error`.
#[verifier::external_body]
pub(crate) fn check_glob(pattern: &str) -> (r: Result<(), String>)
    ensures
        r is Ok <==> glob_error(pattern@) is None,
        r matches Err(m) ==> glob_error(pattern@) == Some(m@),
{
    match globset::Glob::new(pattern) {
        Ok(_) => Ok(()),
        Err(e) => Err(e.to_string()),
    }
}

#[verifier::external_type_specification]
#[verifier::external_body]
pub struct ExGlobSet(globset::GlobSet);

/// The patterns a compiled `globset::GlobSet` was built from, in order.
pub uninterp spec fn set_patterns(s: globset::GlobSet) -> Seq<Seq<char>>;

/// Whether globset matches `path` against any of `patterns`.
pub uninterp spec fn globs_match(patterns: Seq<Seq<char>>, path: Seq<char>) -> bool;

/// Whether `GlobSet::new` accepts the globs of the valid `patterns` (it can
/// refuse only when the combined matcher outgrows globset's size limit,
/// which depends on the patterns alone).
pub uninterp spec fn globset_builds(patterns: Seq<Seq<char>>) -> bool;

/// Compiles `patterns` into a `globset::GlobSet` (`Glob::new` on each, then
/// `GlobSet::new`). The contract claims that a set is built from exactly
/// these patterns; that it is built exactly when every pattern is valid and
/// `GlobSet::new` accepts them (named by `globset_builds`), always for no
/// patterns; and that the first pattern `Glob::new` rejects makes it fail
/// with that error.
#[verifier::external_body]
fn compile_globs(patterns: &Vec<String>) -> (r: Result<globset::GlobSet, String>)
    ensures
        r matches Ok(s) ==> set_patterns(s) == views(patterns@),
        r is Ok <==> (first_bad_glob(views(patterns@), 0) == -1 && globset_builds(views(patterns@))),
        patterns@.len() == 0 ==> r is Ok,
        first_bad_glob(views(patterns@), 0) >= 0 ==> r is Err,
        r matches Err(m) ==> (first_bad_glob(views(patterns@), 0) >= 0 ==> glob_error(
            views(patterns@)[first_bad_glob(views(patterns@), 0)],
        ) == Some(m@)),
{
    let mut globs = Vec::new();
    for p in patterns {
        globs.push(globset::Glob::new(p).map_err(|e| e.to_string())?);
    }
    globset::GlobSet::new(globs.iter()).map_err(|e| e.to_string())
}

/// Whether `path` matches any pattern of `set` (`GlobSet::is_match`); the
/// contract claims that the answer is globset's for the set's patterns,
/// named by `globs_match`.
#[verifier::external_body]
pub(crate) fn set_is_match(set: &globset::GlobSet, path: &str) -> (r: bool)
    ensures
        r == globs_match(set_patterns(*set), path@),
{
    set.is_match(path)
}

/// Index of the first pattern globset rejects, or `-1`.
pub open spec fn first_bad_glob(gs: Seq<Seq<char>>, k: int) -> int
    decreases gs.len() - k,
{
    if k < 0 || k >= gs.len() {
        -1
    } else if glob_error(gs[k]) is Some {
        k
    } else {
        first_bad_glob(gs, k + 1)
    }
}

pub open spec fn views(v: Seq<String>) -> Seq<Seq<char>> {
    v.map_values(|s: String| s@)
}

/// What `validate` reports: unsupported version, then the first blank one of
/// name, source, destination and DAP profile, then the first invalid glob
/// among include globs followed by exclude globs.
pub open spec fn validate_spec(p: SyncProfile) -> Result<(), ConfigErrorV> {
    let globs = views(p.filters.include_globs@) + views(p.filters.exclude_globs@);
    let k = first_bad_glob(globs, 0);
    if p.schema_version != 1 {
        Err((1u8, Seq::empty(), Seq::empty(), p.schema_version, 1u32))
    } else if trim(p.profile.name@).len() == 0 {
        Err((0u8, "profile"@, "name"@, 0u32, 0u32))
    } else if trim(p.profile.source@).len() == 0 {
        Err((0u8, "profile"@, "source"@, 0u32, 0u32))
    } else if trim(p.profile.destination@).len() == 0 {
        Err((0u8, "profile"@, "destination"@, 0u32, 0u32))
    } else if trim(p.profile.dap_profile@).len() == 0 {
        Err((0u8, "profile"@, "dap_profile"@, 0u32, 0u32))
    } else if k >= 0 {
        Err((2u8, globs[k], glob_error(globs[k])->0, 0u32, 0u32))
    } else {
        Ok(())
    }
}

pub open spec fn result_view(r: Result<(), ConfigError>) -> Result<(), ConfigErrorV> {
    match r {
        Ok(()) => Ok(()),
        Err(e) => Err(e@),
    }
}

fn is_blank(s: &String) -> (r: bool)
    ensures
        r == (trim(s@).len() == 0),
{
    trim_chars(&chars_of(s.as_str())).len() == 0
}

fn missing_field(field: &str) -> (r: ConfigError)
    ensures
        r@ == (0u8, "profile"@, field@, 0u32, 0u32),
{
    ConfigError::MissingField { section: "profile".to_owned(), field: field.to_owned() }
}

/// Validates a parsed sync profile (see `validate_spec`).
pub fn validate(p: &SyncProfile) -> (r: Result<(), ConfigError>)
    ensures
        result_view(r) == validate_spec(*p),
{
    if p.schema_version != 1 {
        return Err(ConfigError::UnsupportedVersion { got: p.schema_version, expected: 1 });
    }
    if is_blank(&p.profile.name) {
        return Err(missing_field("name"));
    }
    if is_blank(&p.profile.source) {
        return Err(missing_field("source"));
    }
    if is_blank(&p.profile.destination) {
        return Err(missing_field("destination"));
    }
    if is_blank(&p.profile.dap_profile) {
        return Err(missing_field("dap_profile"));
    }
    let ghost globs = views(p.filters.include_globs@) + views(p.filters.exclude_globs@);
    let n1 = p.filters.include_globs.len();
    let mut k: usize = 0;
    while k < n1
        invariant
            0 <= k <= n1,
            n1 == p.filters.include_globs@.len(),
            globs == views(p.filters.include_globs@) + views(p.filters.exclude_globs@),
            first_bad_glob(globs, 0) == first_bad_glob(globs, k as int),
            validate_spec(*p) == (if first_bad_glob(globs, 0) >= 0 {
                Err((2u8, globs[first_bad_glob(globs, 0)], glob_error(globs[first_bad_glob(globs, 0)])->0, 0u32, 0u32))
            } else {
                Ok(())
            }),
        decreases n1 - k,
    {
        let g = &p.filters.include_globs[k];
        assert(g@ == globs[k as int]);
        match check_glob(g.as_str()) {
            Ok(()) => {},
            Err(reason) => {
                assert(first_bad_glob(globs, k as int) == k);
                return Err(ConfigError::InvalidGlob { pattern: g.clone(), reason });
            },
        }
        k += 1;
    }
    let n2 = p.filters.exclude_globs.len();
    let mut j: usize = 0;
    while j < n2
        invariant
            0 <= j <= n2,
            n1 == p.filters.include_globs@.len(),
            n2 == p.filters.exclude_globs@.len(),
            globs == views(p.filters.include_globs@) + views(p.filters.exclude_globs@),
            first_bad_glob(globs, 0) == first_bad_glob(globs, n1 + j),
            validate_spec(*p) == (if first_bad_glob(globs, 0) >= 0 {
                Err((2u8, globs[first_bad_glob(globs, 0)], glob_error(globs[first_bad_glob(globs, 0)])->0, 0u32, 0u32))
            } else {
                Ok(())
            }),
        decreases n2 - j,
    {
        let g = &p.filters.exclude_globs[j];
        assert(g@ == globs[n1 + j]);
        match check_glob(g.as_str()) {
            Ok(()) => {},
            Err(reason) => {
                assert(first_bad_glob(globs, n1 + j) == n1 + j);
                return Err(ConfigError::InvalidGlob { pattern: g.clone(), reason });
            },
        }
        j += 1;
    }
    assert(first_bad_glob(globs, n1 + j) == -1);
    Ok(())
}

proof fn lemma_views_push(s: Seq<String>, x: String)
    ensures
        views(s.push(x)) == views(s).push(x@),
{
    assert(views(s.push(x)) =~= views(s).push(x@));
}

/// A sync profile and its DAP profile, fully resolved.
#[derive(Debug, Clone)]
pub struct ResolvedProfile {
    pub sync: SyncProfile,
    pub dap: DapProfile,
}

impl ResolvedProfile {
    /// Exclusion globs: the DAP profile's first, then the sync profile's.
    pub fn all_exclude_globs(&self) -> (r: Vec<String>)
        ensures
            views(r@) == views(self.dap.exclude.globs@) + views(self.sync.filters.exclude_globs@),
    {
        let mut r: Vec<String> = Vec::new();
        let mut i: usize = 0;
        while i < self.dap.exclude.globs.len()
            invariant
                0 <= i <= self.dap.exclude.globs@.len(),
                views(r@) == views(self.dap.exclude.globs@.take(i as int)),
            decreases self.dap.exclude.globs@.len() - i,
        {
            let ghost prev = r@;
            let g = self.dap.exclude.globs[i].clone();
            r.push(g);
            proof {
                lemma_views_push(prev, g);
                assert(self.dap.exclude.globs@.take(i as int + 1) =~= self.dap.exclude.globs@.take(i as int).push(g));
                lemma_views_push(self.dap.exclude.globs@.take(i as int), g);
            }
            i += 1;
        }
        assert(self.dap.exclude.globs@.take(i as int) =~= self.dap.exclude.globs@);
        let mut j: usize = 0;
        while j < self.sync.filters.exclude_globs.len()
            invariant
                0 <= j <= self.sync.filters.exclude_globs@.len(),
                views(r@) == views(self.dap.exclude.globs@) + views(
                    self.sync.filters.exclude_globs@.take(j as int),
                ),
            decreases self.sync.filters.exclude_globs@.len() - j,
        {
            let ghost prev = r@;
            let g = self.sync.filters.exclude_globs[j].clone();
            r.push(g);
            proof {
                lemma_views_push(prev, g);
                assert(self.sync.filters.exclude_globs@.take(j as int + 1) =~= self.sync.filters.exclude_globs@.take(j as int).push(g));
                lemma_views_push(self.sync.filters.exclude_globs@.take(j as int), g);
                assert(views(self.dap.exclude.globs@) + views(self.sync.filters.exclude_globs@.take(j as int)).push(g@)
                    =~= (views(self.dap.exclude.globs@) + views(self.sync.filters.exclude_globs@.take(j as int))).push(g@));
            }
            j += 1;
        }
        assert(self.sync.filters.exclude_globs@.take(j as int) =~= self.sync.filters.exclude_globs@);
        r
    }

    /// Compiles the exclusion globs (DAP profile's, then sync profile's); the
    /// first pattern globset rejects makes it fail with globset's message.
    pub fn build_exclude_set(&self) -> (r: Result<globset::GlobSet, String>)
        ensures
            r matches Ok(s) ==> set_patterns(s) == views(self.dap.exclude.globs@) + views(self.sync.filters.exclude_globs@),
            first_bad_glob(views(self.dap.exclude.globs@) + views(self.sync.filters.exclude_globs@), 0) >= 0
                ==> r is Err,
            ({
                let globs = views(self.dap.exclude.globs@) + views(self.sync.filters.exclude_globs@);
                r is Ok <==> (first_bad_glob(globs, 0) == -1 && globset_builds(globs))
            }),
            self.dap.exclude.globs@.len() + self.sync.filters.exclude_globs@.len() == 0 ==> r is Ok,
            ({
                let globs = views(self.dap.exclude.globs@) + views(self.sync.filters.exclude_globs@);
                r matches Err(m) ==> (first_bad_glob(globs, 0) >= 0 ==> glob_error(globs[first_bad_glob(globs, 0)])
                    == Some(m@))
            }),
    {
        let all = self.all_exclude_globs();
        compile_globs(&all)
    }

    /// Compiles the inclusion globs of the sync profile; `None` when there
    /// are none (everything is included).
    pub fn build_include_set(&self) -> (r: Result<Option<globset::GlobSet>, String>)
        ensures
            self.sync.filters.include_globs@.len() == 0 ==> r matches Ok(None),
            r matches Ok(Some(s)) ==> set_patterns(s) == views(self.sync.filters.include_globs@),
            first_bad_glob(views(self.sync.filters.include_globs@), 0) >= 0 ==> r is Err,
            self.sync.filters.include_globs@.len() > 0 ==> (r is Ok <==> (first_bad_glob(
                views(self.sync.filters.include_globs@),
                0,
            ) == -1 && globset_builds(views(self.sync.filters.include_globs@)))),
            ({
                let globs = views(self.sync.filters.include_globs@);
                r matches Err(m) ==> (first_bad_glob(globs, 0) >= 0 ==> glob_error(globs[first_bad_glob(globs, 0)])
                    == Some(m@))
            }),
    {
        if self.sync.filters.include_globs.len() == 0 {
            return Ok(None);
        }
        match compile_globs(&self.sync.filters.include_globs) {
            Ok(s) => Ok(Some(s)),
            Err(e) => Err(e),
        }
    }
}

/// Where the sync profile the user named is read from.
#[derive(Debug, Clone, Copy, PartialEq, Eq, Structural)]
pub enum ProfileLocation {
    /// The name is itself the path of an existing file.
    Path,
    /// `<profiles dir>/<name>.toml` exists (see `profile_candidate`).
    ConfigDir,
}

/// The file that stands for sync profile `name` in the profiles directory
/// `dir`: `<dir>/<name>.toml`.
pub fn profile_candidate(dir: &str, name: &str) -> (r: String)
    ensures
        r@ == path_join(dir@, name@ + ".toml"@),
{
    let mut file = name.to_owned();
    push_str(&mut file, ".toml");
    join(dir, file.as_str())
}

/// Finds a sync profile by name or path: an existing file of that path
/// first, then `profile_candidate` in the profiles directory; otherwise the
/// profile is not found.
pub fn find(name_or_path: &str, path_exists: bool, candidate_exists: bool) -> (r: Result<ProfileLocation, ConfigError>)
    ensures
        path_exists ==> r == Ok::<ProfileLocation, ConfigError>(ProfileLocation::Path),
        !path_exists && candidate_exists ==> r == Ok::<ProfileLocation, ConfigError>(ProfileLocation::ConfigDir),
        !path_exists && !candidate_exists ==> (r matches Err(e) && e@ == (6u8, name_or_path@, Seq::<char>::empty(), 0u32, 0u32)),
{
    if path_exists {
        Ok(ProfileLocation::Path)
    } else if candidate_exists {
        Ok(ProfileLocation::ConfigDir)
    } else {
        Err(ConfigError::NotFound { name: name_or_path.to_owned() })
    }
}

// ── Saved selection ──────────────────────────────────────────────────────────

/// What toml_edit writes for the document `content` once its
/// `[selective] include_paths` is set to `paths`; `None` when `content` is
/// not TOML or its `selective` key is neither a table nor an inline table.
pub uninterp spec fn toml_with_selective(content: Seq<char>, paths: Seq<Seq<char>>) -> Option<Seq<char>>;

/// Parses `content` as a `toml_edit::DocumentMut`, inserts a `selective`
/// table when there is none, sets its `include_paths` to the array of
/// `paths` and prints the document again. The contract claims only that
/// the outcome is toml_edit's for these arguments, named by
/// `toml_with_selective`.
#[verifier::external_body]
fn set_selective_include(content: &str, paths: &Vec<String>) -> (r: Option<String>)
    ensures
        match toml_with_selective(content@, views(paths@)) {
            Some(t) => r matches Some(s) && s@ == t,
            None => r is None,
        },
{
    let mut doc: toml_edit::DocumentMut = content.parse().ok()?;
    let array: toml_edit::Array = paths.iter().map(|p| p.as_str()).collect();
    let sel = doc.entry("selective").or_insert(toml_edit::table());
    let table = sel.as_table_like_mut()?;
    table.insert("include_paths", toml_edit::value(array));
    Some(doc.to_string())
}

/// The profile file `path`, read as `content`, with its saved selection
/// (`[selective] include_paths`) replaced by `paths` and everything else
/// kept as written; a parse error for `path` when that cannot be done.
pub fn with_selective_paths(path: &str, content: &str, paths: &Vec<String>) -> (r: Result<String, ConfigError>)
    ensures
        match toml_with_selective(content@, views(paths@)) {
            Some(t) => r matches Ok(s) && s@ == t,
            None => r matches Err(e) && e@ == (5u8, path@, "not a TOML document whose [selective] is a table"@, 0u32, 0u32),
        },
{
    match set_selective_include(content, paths) {
        Some(t) => Ok(t),
        None => {
            let reason = "not a TOML document whose [selective] is a table".to_owned();
            Err(ConfigError::Parse { path: path.to_owned(), reason })
        },
    }
}

} // verus!
