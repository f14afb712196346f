//! Export of a profile's file list as an M3U playlist.

use vstd::prelude::*;

use crate::diff::walker::Entry;
use crate::text::{push_replaced, push_str, replace_char, trim_end_slashes, trim_end_slashes_str};

verus! {

/// The playlist line of one file: the DAP's music root without trailing
/// `/`, a `/`, and the relative path with `\` turned into `/`.
pub open spec fn m3u_line(root: Seq<char>, rel: Seq<char>) -> Seq<char> {
    trim_end_slashes(root) + "/"@ + replace_char(rel, '\\', "/"@) + "\n"@
}

/// The lines of the first `n` entries.
pub open spec fn m3u_lines(root: Seq<char>, rels: Seq<Seq<char>>, n: nat) -> Seq<char>
    decreases n,
{
    if n == 0 {
        Seq::empty()
    } else {
        m3u_lines(root, rels, (n - 1) as nat) + m3u_line(root, rels[n - 1])
    }
}

/// The relative paths of walk entries.
pub open spec fn rels_of(entries: Seq<Entry>) -> Seq<Seq<char>> {
    entries.map_values(|e: Entry| e.rel@)
}

/// The M3U playlist of `entries` (what a sync would copy, in walk order)
/// for a DAP whose music folder is `music_root`: the `#EXTM3U` header, then
/// one line per entry.
pub fn generate(music_root: &str, entries: &Vec<Entry>) -> (r: String)
    ensures
        r@ == "#EXTM3U\n"@ + m3u_lines(music_root@, rels_of(entries@), entries@.len()),
{
    let root = trim_end_slashes_str(music_root);
    let mut out = "#EXTM3U\n".to_owned();
    let ghost head = out@;
    let mut i: usize = 0;
    while i < entries.len()
        invariant
            0 <= i <= entries@.len(),
            root@ == trim_end_slashes(music_root@),
            out@ == head + m3u_lines(music_root@, rels_of(entries@), i as nat),
        decreases entries@.len() - i,
    {
        push_str(&mut out, root.as_str());
        push_str(&mut out, "/");
        push_replaced(&mut out, entries[i].rel.as_str(), '\\', "/");
        push_str(&mut out, "\n");
        assert(rels_of(entries@)[i as int] == entries@[i as int].rel@);
        assert(out@ =~= head + m3u_lines(music_root@, rels_of(entries@), (i + 1) as nat));
        i += 1;
    }
    out
}

} // verus!
