//! Transcoding: the cache key of a transcoded file and where the cache keeps
//! it, the ffmpeg command line and the version line that `ffmpeg -version`
//! prints.

use vstd::prelude::*;

use crate::config::TranscodeRule;
use crate::paths::{ext_ok, join, path_join, path_with_extension, with_extension};
use crate::text::{
    chars_of, find_char, find_char_from, has_prefix, lemma_find_from_bounds, lowercase, push_char, push_str,
    split_whitespace, starts_with, string_of_range, to_lowercase, utf8_width, utf8_width_of, words,
};

verus! {

/// The blake3 digest of `data`.
pub uninterp spec fn blake3_digest(data: Seq<u8>) -> Seq<u8>;

/// blake3 of `data` (`blake3::hash`, its 32 bytes). The contract claims that
/// the result is blake3's, named by `blake3_digest`, and 32 bytes long.
#[verifier::external_body]
fn blake3_hash(data: &[u8]) -> (r: [u8; 32])
    ensures
        r@ == blake3_digest(data@),
{
    *blake3::hash(data).as_bytes()
}

/// Lowercase hexadecimal digit of `d < 16`.
pub open spec fn hex_digit(d: nat) -> char {
    if d < 10 {
        ('0' as nat + d) as char
    } else {
        ('a' as nat + (d - 10)) as char
    }
}

/// Lowercase hexadecimal of `bytes`, two digits per byte, high nibble first.
pub open spec fn hex(bytes: Seq<u8>) -> Seq<char>
    decreases bytes.len(),
{
    if bytes.len() == 0 {
        Seq::empty()
    } else {
        hex(bytes.drop_last()) + seq![
            hex_digit((bytes.last() / 16) as nat),
            hex_digit((bytes.last() % 16) as nat),
        ]
    }
}

fn hex_char(d: u8) -> (r: char)
    requires
        d < 16,
    ensures
        r == hex_digit(d as nat),
{
    if d < 10 {
        ((48u8 + d) as char)
    } else {
        ((97u8 + (d - 10)) as char)
    }
}

/// `bytes` in lowercase hexadecimal.
pub fn to_hex(bytes: &[u8]) -> (r: String)
    ensures
        r@ == hex(bytes@),
{
    let mut r = String::new();
    let mut i: usize = 0;
    while i < bytes.len()
        invariant
            0 <= i <= bytes@.len(),
            r@ == hex(bytes@.take(i as int)),
        decreases bytes@.len() - i,
    {
        assert(bytes@.take(i as int + 1).drop_last() =~= bytes@.take(i as int));
        let b = bytes[i];
        push_char(&mut r, hex_char(b / 16));
        push_char(&mut r, hex_char(b % 16));
        assert(r@ =~= hex(bytes@.take(i as int + 1)));
        i += 1;
    }
    assert(bytes@.take(i as int) =~= bytes@);
    r
}

/// The cache key of a transcoded file: the hex of blake3 over the source
/// file's blake3 digest followed by the ffmpeg parameters' UTF-8 bytes.
/// Changing either the source content or the parameters changes the key.
pub open spec fn cache_key_spec(src_hash: Seq<u8>, params: Seq<char>) -> Seq<char> {
    hex(blake3_digest(src_hash + vstd::utf8::encode_utf8(params)))
}

/// The cache key for a source whose content hashes to `src_hash`, transcoded
/// with `params`.
pub fn cache_key(src_hash: &[u8; 32], params: &str) -> (r: String)
    ensures
        r@ == cache_key_spec(src_hash@, params@),
{
    let mut data: Vec<u8> = Vec::new();
    let mut i: usize = 0;
    while i < 32
        invariant
            0 <= i <= 32,
            src_hash@.len() == 32,
            data@ == src_hash@.take(i as int),
        decreases 32 - i,
    {
        data.push(src_hash[i]);
        assert(data@ =~= src_hash@.take(i as int + 1));
        i += 1;
    }
    let pb = params.as_bytes();
    let mut j: usize = 0;
    while j < pb.len()
        invariant
            0 <= j <= pb@.len(),
            src_hash@.len() == 32,
            data@ == src_hash@ + pb@.take(j as int),
        decreases pb@.len() - j,
    {
        data.push(pb[j]);
        assert(data@ =~= src_hash@ + pb@.take(j as int + 1));
        j += 1;
    }
    assert(pb@.take(j as int) =~= pb@);
    assert(src_hash@.take(32) =~= src_hash@);
    let digest = blake3_hash(data.as_slice());
    to_hex(&digest)
}

/// What `ffmpeg -version` reported.
#[derive(Debug, Clone)]
pub struct FfmpegInfo {
    /// Version string, e.g. `"7.0"`, or `"unknown"`.
    pub version: String,
}

/// The first line of `s` without its line ending (`str::lines().next()`),
/// `None` for an empty `s`.
pub open spec fn first_line(s: Seq<char>) -> Option<Seq<char>> {
    if s.len() == 0 {
        None
    } else {
        let e = find_char(s, '\n');
        if e < 0 {
            Some(s)
        } else if e > 0 && s[e - 1] == '\r' {
            Some(s.take(e - 1))
        } else {
            Some(s.take(e))
        }
    }
}

/// The version in the banner of `ffmpeg -version`: the first word after
/// `ffmpeg version ` on its first line, or `unknown`.
pub open spec fn banner_version(stdout: Seq<char>) -> Seq<char> {
    match first_line(stdout) {
        Some(line) => if has_prefix(line, "ffmpeg version "@) && words(
            line.skip("ffmpeg version "@.len() as int),
        ).len() > 0 {
            words(line.skip("ffmpeg version "@.len() as int))[0]
        } else {
            "unknown"@
        },
        None => "unknown"@,
    }
}

/// Reads the version from the output of `ffmpeg -version`.
pub fn version_from_banner(stdout: &str) -> (r: FfmpegInfo)
    ensures
        r.version@ == banner_version(stdout@),
{
    let cs = chars_of(stdout);
    if cs.len() == 0 {
        return FfmpegInfo { version: "unknown".to_owned() };
    }
    let e = find_char_from(&cs, '\n', 0);
    proof {
        lemma_find_from_bounds(cs@, '\n', 0);
    }
    let end = if e < cs.len() && e > 0 && cs[e - 1] == '\r' {
        e - 1
    } else {
        e
    };
    let line = string_of_range(&cs, 0, end);
    assert(first_line(stdout@) == Some(line@)) by {
        assert(cs@.take(cs@.len() as int) =~= cs@);
    }
    let prefix = "ffmpeg version ";
    if !starts_with(line.as_str(), prefix) {
        return FfmpegInfo { version: "unknown".to_owned() };
    }
    let lc = chars_of(line.as_str());
    let plen = chars_of(prefix).len();
    assert(has_prefix(line@, prefix@));
    let rest = string_of_range(&lc, plen, lc.len());
    assert(rest@ =~= line@.skip(prefix@.len() as int));
    let ws = split_whitespace(rest.as_str());
    if ws.len() > 0 {
        assert(ws@.map_values(|w: String| w@)[0] == ws@[0]@);
        FfmpegInfo { version: ws[0].clone() }
    } else {
        FfmpegInfo { version: "unknown".to_owned() }
    }
}

/// The arguments of the ffmpeg run that transcodes `src` to `out`:
/// `-i <src>`, the rule's parameters split at whitespace, `-y <out>`.
pub open spec fn ffmpeg_args_spec(src: Seq<char>, params: Seq<char>, out: Seq<char>) -> Seq<Seq<char>> {
    seq!["-i"@, src] + words(params) + seq!["-y"@, out]
}

pub fn ffmpeg_args(src: &str, params: &str, out: &str) -> (r: Vec<String>)
    ensures
        r@.map_values(|a: String| a@) == ffmpeg_args_spec(src@, params@, out@),
{
    let mut r: Vec<String> = Vec::new();
    r.push("-i".to_owned());
    r.push(src.to_owned());
    let extra = split_whitespace(params);
    let ghost head = r@.map_values(|a: String| a@);
    assert(head =~= seq!["-i"@, src@]);
    let mut i: usize = 0;
    while i < extra.len()
        invariant
            0 <= i <= extra@.len(),
            r@.map_values(|a: String| a@) == head + extra@.map_values(|w: String| w@).take(i as int),
        decreases extra@.len() - i,
    {
        let ghost before = r@.map_values(|a: String| a@);
        let w = extra[i].clone();
        assert(w@ == extra@[i as int]@);
        r.push(w);
        assert(r@.map_values(|a: String| a@) =~= before.push(extra@[i as int]@));
        assert(r@.map_values(|a: String| a@) =~= head + extra@.map_values(|w: String| w@).take(i as int + 1));
        i += 1;
    }
    assert(extra@.map_values(|w: String| w@).take(i as int) =~= words(params@));
    r.push("-y".to_owned());
    r.push(out.to_owned());
    assert(r@.map_values(|a: String| a@) =~= ffmpeg_args_spec(src@, params@, out@));
    r
}


// ── Cache of transcoded files ────────────────────────────────────────────────

/// The shard directory of a cache key: its first two bytes (all of it when
/// shorter); `None` where those bytes end inside a character.
pub open spec fn shard_of(k: Seq<char>) -> Option<Seq<char>> {
    if k.len() == 0 {
        Some(k)
    } else if utf8_width(k[0]) == 1 {
        if k.len() == 1 {
            Some(k)
        } else if utf8_width(k[1]) == 1 {
            Some(k.take(2))
        } else {
            None
        }
    } else if utf8_width(k[0]) == 2 {
        Some(k.take(1))
    } else {
        None
    }
}

/// The cache of transcoded files: the entry for a key and an extension is
/// `<dir>/<first two bytes of key>/<key>.<ext lowercased>`.
pub struct Cache {
    pub dir: String,
}

/// Transcoding settings of a sync run: the rules and the cache.
pub struct TranscodeOpts {
    pub rules: Vec<TranscodeRule>,
    pub cache: Cache,
}

impl Cache {
    pub fn new(dir: String) -> (r: Self)
        ensures
            r.dir == dir,
    {
        Cache { dir }
    }

    /// Where the entry for `key` and `ext` lives.
    pub fn entry_path(&self, key: &str, ext: &str) -> (r: String)
        requires
            shard_of(key@) is Some,
        ensures
            r@ == path_join(path_join(self.dir@, shard_of(key@)->0), key@ + "."@ + lowercase(ext@)),
    {
        let cs = chars_of(key);
        let n: usize = if cs.len() == 0 {
            0
        } else if utf8_width_of(cs[0]) == 1 {
            if cs.len() == 1 {
                1
            } else {
                2
            }
        } else {
            1
        };
        let shard = string_of_range(&cs, 0, n);
        assert(shard@ =~= shard_of(key@)->0);
        let mut name = key.to_owned();
        push_str(&mut name, ".");
        push_str(&mut name, to_lowercase(ext).as_str());
        join(join(self.dir.as_str(), shard.as_str()).as_str(), name.as_str())
    }

    /// The temporary file an entry is written to before it is renamed into
    /// place: the entry path with extension `<ext>.tmp`.
    pub fn store_tmp_path(&self, key: &str, ext: &str) -> (r: String)
        requires
            shard_of(key@) is Some,
            ext_ok(ext@),
        ensures
            r@ == path_with_extension(
                path_join(path_join(self.dir@, shard_of(key@)->0), key@ + "."@ + lowercase(ext@)),
                ext@ + ".tmp"@,
            ),
    {
        let dest = self.entry_path(key, ext);
        let mut e = ext.to_owned();
        push_str(&mut e, ".tmp");
        proof {
            reveal_strlit(".tmp");
            let t = ".tmp"@;
            assert(t =~= seq!['.', 't', 'm', 'p']);
            assert forall|k: int| 0 <= k < e@.len() implies e@[k] != '/' && e@[k] != '\\' by {
                if k < ext@.len() {
                    assert(e@[k] == ext@[k]);
                    if ext@[k] == '/' || ext@[k] == '\\' {
                        assert(ext@.contains(ext@[k]));
                    }
                } else {
                    assert(e@[k] == t[k - ext@.len()]);
                }
            }
        }
        with_extension(dest.as_str(), e.as_str())
    }
}

} // verus!
