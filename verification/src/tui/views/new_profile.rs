//! The new-profile wizard: file names and the text of new profiles.

use vstd::prelude::*;

use crate::scan::ScanResult;
use crate::text::{
    alphanumeric, chars_of, is_alphanumeric, lowercase, push_char, push_replaced, push_str, replace_char, string_of_range,
    to_lowercase, trim, trim_str,
};
use crate::tui::app::{wizard_destination, wizard_mode, NewProfileState};

verus! {

/// `c` kept when alphanumeric, `-` or `_`, otherwise replaced by `-`.
pub open spec fn name_char(c: char) -> char {
    if alphanumeric(c) || c == '-' || c == '_' {
        c
    } else {
        '-'
    }
}

/// Leading `-` characters of `s` from `i` on.
pub open spec fn lead_dash(s: Seq<char>, i: int) -> int
    decreases s.len() - i,
{
    if 0 <= i < s.len() && s[i] == '-' {
        lead_dash(s, i + 1)
    } else {
        i
    }
}

pub open spec fn trail_dash(s: Seq<char>, lo: int, j: int) -> int
    decreases j - lo,
{
    if lo < j && j <= s.len() && s[j - 1] == '-' {
        trail_dash(s, lo, j - 1)
    } else {
        j
    }
}

/// `s` without leading and trailing `-`.
pub open spec fn trim_dashes(s: Seq<char>) -> Seq<char> {
    let lo = lead_dash(s, 0);
    s.subrange(lo, trail_dash(s, lo, s.len() as int))
}

/// The file name used for a profile called `s`: other characters than
/// alphanumerics, `-` and `_` become `-`, dashes are trimmed from both ends,
/// and the result is lowercased.
pub open spec fn sanitize_spec(s: Seq<char>) -> Seq<char> {
    lowercase(trim_dashes(s.map_values(|c: char| name_char(c))))
}

pub fn sanitize_name(s: &str) -> (r: String)
    ensures
        r@ == sanitize_spec(s@),
{
    let cs = chars_of(s);
    let mut mapped: Vec<char> = Vec::new();
    let mut i: usize = 0;
    while i < cs.len()
        invariant
            0 <= i <= cs@.len(),
            mapped@ == cs@.take(i as int).map_values(|c: char| name_char(c)),
        decreases cs@.len() - i,
    {
        let c = cs[i];
        let k = if is_alphanumeric(c) || c == '-' || c == '_' {
            c
        } else {
            '-'
        };
        mapped.push(k);
        assert(mapped@ =~= cs@.take(i as int + 1).map_values(|c: char| name_char(c)));
        i += 1;
    }
    assert(cs@.take(i as int) =~= cs@);
    let mut lo: usize = 0;
    while lo < mapped.len() && mapped[lo] == '-'
        invariant
            0 <= lo <= mapped@.len(),
            lead_dash(mapped@, 0) == lead_dash(mapped@, lo as int),
        decreases mapped@.len() - lo,
    {
        lo += 1;
    }
    let mut hi: usize = mapped.len();
    while hi > lo && mapped[hi - 1] == '-'
        invariant
            lo <= hi <= mapped@.len(),
            trail_dash(mapped@, lo as int, mapped@.len() as int) == trail_dash(
                mapped@,
                lo as int,
                hi as int,
            ),
        decreases hi - lo,
    {
        hi -= 1;
    }
    let trimmed = string_of_range(&mapped, lo, hi);
    to_lowercase(trimmed.as_str())
}


/// `s` with each `\` doubled, for a TOML basic string.
pub open spec fn toml_escape(s: Seq<char>) -> Seq<char> {
    replace_char(s, '\\', "\\\\"@)
}

/// The TOML text of a new profile: the given header, no filters, and
/// size/mtime verification with dry runs by default.
pub open spec fn profile_text(
    name: Seq<char>,
    source: Seq<char>,
    destination: Seq<char>,
    dap: Seq<char>,
    mode: Seq<char>,
) -> Seq<char> {
    "schema_version = 1\n\n[profile]\nname        = \""@ + name + "\"\nsource      = \""@ + toml_escape(source)
        + "\"\ndestination = \""@ + toml_escape(destination) + "\"\ndap_profile = \""@ + dap
        + "\"\nmode        = \""@ + mode
        + "\"\n\n[filters]\ninclude_globs = []\nexclude_globs = []\n\n[transfer]\nverify          = \"size_mtime\"\ndry_run_default = true\nparallelism     = 4\n"@
}

/// A profile the wizard is about to write.
pub struct ProfileDraft {
    /// The profile name (trimmed).
    pub name: String,
    /// The file name without `.toml` (see `sanitize_name`).
    pub file_stem: String,
    /// The TOML text.
    pub text: String,
}

/// The profile the wizard describes: name (trimmed), source, destination,
/// the generic DAP profile and the chosen mode; an error when the name,
/// the source or the destination is empty, checked in that order.
pub fn draft_profile(wiz: &NewProfileState, scan: &ScanResult) -> (r: Result<ProfileDraft, String>)
    ensures
        ({
            let name = trim(wiz.name@);
            let source = wiz.source_browser.current@;
            let dest = wizard_destination(*wiz, *scan);
            if name.len() == 0 {
                r matches Err(e) && e@ == "name is empty"@
            } else if source.len() == 0 {
                r matches Err(e) && e@ == "source is empty"@
            } else if dest.len() == 0 {
                r matches Err(e) && e@ == "destination is empty"@
            } else {
                r matches Ok(d) && d.name@ == name && d.file_stem@ == sanitize_spec(name) && d.text@
                    == profile_text(name, source, dest, "generic"@, wizard_mode(wiz.mode_choice))
            }
        }),
{
    let name = trim_str(wiz.name.as_str());
    let source = wiz.source();
    let destination = wiz.destination(scan);
    let dap = wiz.selected_dap();
    let mode = wiz.selected_mode();
    if name.as_str().is_empty() {
        return Err("name is empty".to_owned());
    }
    if source.as_str().is_empty() {
        return Err("source is empty".to_owned());
    }
    if destination.as_str().is_empty() {
        return Err("destination is empty".to_owned());
    }
    let file_stem = sanitize_name(name.as_str());
    let mut text = "schema_version = 1\n\n[profile]\nname        = \"".to_owned();
    push_str(&mut text, name.as_str());
    push_str(&mut text, "\"\nsource      = \"");
    push_replaced(&mut text, source.as_str(), '\\', "\\\\");
    push_str(&mut text, "\"\ndestination = \"");
    push_replaced(&mut text, destination.as_str(), '\\', "\\\\");
    push_str(&mut text, "\"\ndap_profile = \"");
    push_str(&mut text, dap);
    push_str(&mut text, "\"\nmode        = \"");
    push_str(&mut text, mode);
    push_str(
        &mut text,
        "\"\n\n[filters]\ninclude_globs = []\nexclude_globs = []\n\n[transfer]\nverify          = \"size_mtime\"\ndry_run_default = true\nparallelism     = 4\n",
    );
    Ok(ProfileDraft { name, file_stem, text })
}

} // verus!
