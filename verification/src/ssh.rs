//! SSH sources: `ssh://[user@]host[:port]/path` URIs and remote commands.

use vstd::prelude::*;

use crate::text::{
    chars_of, dec, dec_i, find_char, find_char_from, fmt_i64, fmt_u64, has_prefix,
    lemma_find_from_bounds, lemma_find_skip, lemma_rfind_bounds, parse_u64, parse_u64_spec, push_replaced, push_str,
    replace_char, rfind, rfind_char, starts_with, string_of_range, sub_chars, trim_end_slashes,
    trim_end_slashes_str,
};

verus! {

/// Parsed SSH source URI.
#[derive(Debug, Clone)]
pub struct SshUri {
    pub user: String,
    pub host: String,
    pub port: u16,
    /// Absolute path on the remote host (always starts with `/`).
    pub path: String,
}

/// Why a string is not a usable SSH URI.
#[derive(Debug, Clone, Copy, PartialEq, Eq, Structural)]
pub enum SshUriError {
    /// It does not start with `ssh://`.
    NotSsh,
    /// The part after the last `:` of the host is not a port number.
    InvalidPort,
}

/// What `u16::from_str` accepts: like `parse_u64_spec`, at most 65535.
pub open spec fn parse_u16_spec(s: Seq<char>) -> Option<u16> {
    match parse_u64_spec(s) {
        Some(v) => if v <= 65535 {
            Some(v as u16)
        } else {
            None
        },
        None => None,
    }
}

/// The parse of an SSH URI as (user, host, port, path); `fallback_user`
/// stands in when the URI names no user.
pub open spec fn parse_spec(s: Seq<char>, fallback_user: Seq<char>) -> Result<
    (Seq<char>, Seq<char>, u16, Seq<char>),
    SshUriError,
> {
    if !has_prefix(s, "ssh://"@) {
        Err(SshUriError::NotSsh)
    } else {
        let rest = s.skip(6);
        let sl = find_char(rest, '/');
        let userhost = if sl < 0 { rest } else { rest.take(sl) };
        let path = if sl < 0 { seq!['/'] } else { seq!['/'] + rest.skip(sl + 1) };
        let at = rfind(userhost, '@');
        let user = if at < 0 { fallback_user } else { userhost.take(at) };
        let hostport = if at < 0 { userhost } else { userhost.skip(at + 1) };
        let co = rfind(hostport, ':');
        if co < 0 {
            Ok((user, hostport, 22u16, path))
        } else {
            match parse_u16_spec(hostport.skip(co + 1)) {
                Some(p) => Ok((user, hostport.take(co), p, path)),
                None => Err(SshUriError::InvalidPort),
            }
        }
    }
}

impl SshUri {
    /// Parses `ssh://[user@]host[:port]/absolute/path`. Without `user@` the
    /// user is `fallback_user` (the caller's login name); without `:port` the
    /// port is 22.
    pub fn parse(s: &str, fallback_user: &str) -> (r: Result<Self, SshUriError>)
        ensures
            match parse_spec(s@, fallback_user@) {
                Ok((u, h, p, path)) => r matches Ok(x) && x.user@ == u && x.host@ == h
                    && x.port == p && x.path@ == path,
                Err(e) => r == Err::<Self, SshUriError>(e),
            },
    {
        proof {
            reveal_strlit("ssh://");
        }
        if !starts_with(s, "ssh://") {
            return Err(SshUriError::NotSsh);
        }
        let cs = chars_of(s);
        let rest = sub_chars(&cs, 6, cs.len());
        assert(rest@ =~= s@.skip(6));
        let sl = find_char_from(&rest, '/', 0);
        let userhost = sub_chars(&rest, 0, sl);
        let mut path = String::new();
        push_str(&mut path, "/");
        proof {
            reveal_strlit("/");
        }
        if sl < rest.len() {
            let tail = string_of_range(&rest, sl + 1, rest.len());
            push_str(&mut path, tail.as_str());
            assert(path@ =~= seq!['/'] + rest@.skip(sl + 1));
        } else {
            assert(userhost@ =~= rest@);
            assert(path@ =~= seq!['/']);
        }
        if sl < rest.len() {
            assert(userhost@ =~= rest@.take(sl as int));
        }
        let at = rfind_char(&userhost, '@');
        let (user, hostport) = if at < userhost.len() {
            (string_of_range(&userhost, 0, at), sub_chars(&userhost, at + 1, userhost.len()))
        } else {
            (fallback_user.to_owned(), sub_chars(&userhost, 0, userhost.len()))
        };
        proof {
            if at < userhost@.len() {
                assert(user@ =~= userhost@.take(at as int));
                assert(hostport@ =~= userhost@.skip(at + 1));
            } else {
                assert(hostport@ =~= userhost@);
            }
        }
        let co = rfind_char(&hostport, ':');
        if co == hostport.len() {
            return Ok(SshUri { user, host: string_of_range(&hostport, 0, hostport.len()), port: 22, path });
        }
        let digits = sub_chars(&hostport, co + 1, hostport.len());
        assert(digits@ =~= hostport@.skip(co + 1));
        let port = match parse_u64(&digits) {
            Some(v) => {
                if v <= 65535 {
                    v as u16
                } else {
                    return Err(SshUriError::InvalidPort);
                }
            },
            None => return Err(SshUriError::InvalidPort),
        };
        let host = string_of_range(&hostport, 0, co);
        assert(host@ =~= hostport@.take(co as int));
        Ok(SshUri { user, host, port, path })
    }

    /// Whether a source string names an SSH location.
    pub fn is_ssh(s: &str) -> (r: bool)
        ensures
            r == has_prefix(s@, "ssh://"@),
    {
        starts_with(s, "ssh://")
    }
}

/// A verified SSH source. The connection itself is opened per operation by
/// running `ssh`.
#[derive(Debug, Clone)]
pub struct SshSession {
    pub user: String,
    pub host: String,
    pub port: u16,
    /// Absolute path on the remote host used as the walk/download root.
    pub remote_root: String,
}

impl SshSession {
    /// Turns the outcome of the reachability probe (`ssh … true`) into a
    /// session: the URI's endpoint when the probe succeeded, otherwise the
    /// message naming the endpoint and the exit code (-1 without one).
    pub fn connect(uri: &SshUri, probe_succeeded: bool, exit_code: Option<i32>) -> (r: Result<
        Self,
        String,
    >)
        ensures
            probe_succeeded ==> (r matches Ok(s) && s.user@ == uri.user@ && s.host@ == uri.host@
                && s.port == uri.port && s.remote_root@ == uri.path@),
            !probe_succeeded ==> (r matches Err(m) && m@ == "SSH connection to "@ + uri.user@
                + "@"@ + uri.host@ + ":"@ + dec(uri.port as nat) + " failed (exit "@ + dec_i(
                match exit_code {
                    Some(c) => c as int,
                    None => -1,
                },
            ) + "). Ensure your public key is in the remote's authorized_keys and the host is reachable."@),
    {
        if probe_succeeded {
            return Ok(
                SshSession {
                    user: uri.user.clone(),
                    host: uri.host.clone(),
                    port: uri.port,
                    remote_root: uri.path.clone(),
                },
            );
        }
        let code: i64 = match exit_code {
            Some(c) => c as i64,
            None => -1,
        };
        let mut m = "SSH connection to ".to_owned();
        push_str(&mut m, uri.user.as_str());
        push_str(&mut m, "@");
        push_str(&mut m, uri.host.as_str());
        push_str(&mut m, ":");
        let p = fmt_u64(uri.port as u64);
        push_str(&mut m, p.as_str());
        push_str(&mut m, " failed (exit ");
        let c = fmt_i64(code);
        push_str(&mut m, c.as_str());
        push_str(
            &mut m,
            "). Ensure your public key is in the remote's authorized_keys and the host is reachable.",
        );
        Err(m)
    }

    /// Arguments of the `ssh` command reaching this session.
    pub fn ssh_args(&self) -> (r: Vec<String>)
        ensures
            r@.len() == 7,
            r@[1]@ == dec(self.port as nat),
            r@[6]@ == self.user@ + "@"@ + self.host@,
    {
        ssh_args(self.user.as_str(), self.host.as_str(), self.port)
    }

    /// Path of `rel_path` on the remote host: the root without trailing `/`,
    /// a `/`, then `rel_path`.
    pub fn remote_path(&self, rel_path: &str) -> (r: String)
        ensures
            r@ == trim_end_slashes(self.remote_root@) + "/"@ + rel_path@,
    {
        let mut r = trim_end_slashes_str(self.remote_root.as_str());
        push_str(&mut r, "/");
        push_str(&mut r, rel_path);
        r
    }
}

/// Arguments for `ssh`: the port, host key acceptance on first use, batch
/// mode (never prompt), and `user@host`.
pub fn ssh_args(user: &str, host: &str, port: u16) -> (r: Vec<String>)
    ensures
        r@.len() == 7,
        r@[0]@ == "-p"@,
        r@[1]@ == dec(port as nat),
        r@[2]@ == "-o"@,
        r@[3]@ == "StrictHostKeyChecking=accept-new"@,
        r@[4]@ == "-o"@,
        r@[5]@ == "BatchMode=yes"@,
        r@[6]@ == user@ + "@"@ + host@,
{
    let mut target = user.to_owned();
    push_str(&mut target, "@");
    push_str(&mut target, host);
    let mut r: Vec<String> = Vec::new();
    r.push("-p".to_owned());
    r.push(fmt_u64(port as u64));
    r.push("-o".to_owned());
    r.push("StrictHostKeyChecking=accept-new".to_owned());
    r.push("-o".to_owned());
    r.push("BatchMode=yes".to_owned());
    r.push(target);
    r
}

/// POSIX single-quote escaping: `s` wrapped in `'…'`, each `'` written as
/// `'\''`.
pub open spec fn shell_quote_spec(s: Seq<char>) -> Seq<char> {
    seq!['\''] + replace_char(s, '\'', "'\\\''"@) + seq!['\'']
}

pub fn shell_quote(s: &str) -> (r: String)
    ensures
        r@ == shell_quote_spec(s@),
{
    let mut r = String::new();
    crate::text::push_char(&mut r, '\'');
    push_replaced(&mut r, s, '\'', "'\\\''");
    crate::text::push_char(&mut r, '\'');
    assert(r@ =~= shell_quote_spec(s@));
    r
}

/// The remote command listing a tree: relative path, size and mtime of each
/// file, tab-separated.
pub fn find_command(root: &str) -> (r: String)
    ensures
        r@ == "find "@ + shell_quote_spec(root@) + " -type f -printf '%P\\\\t%s\\\\t%T@\\\\n'"@,
{
    let mut r = "find ".to_owned();
    let q = shell_quote(root);
    push_str(&mut r, q.as_str());
    push_str(&mut r, " -type f -printf '%P\\\\t%s\\\\t%T@\\\\n'");
    r
}

/// The remote command streaming one file.
pub fn cat_command(remote_path: &str) -> (r: String)
    ensures
        r@ == "cat "@ + shell_quote_spec(remote_path@),
{
    let mut r = "cat ".to_owned();
    let q = shell_quote(remote_path);
    push_str(&mut r, q.as_str());
    r
}

/// One line of the remote `find -printf '%P\t%s\t%T@\n'` listing as
/// (relative path with `\` turned into `/`, size, modification time text):
/// the line is cut at its first two tabs; a size that does not parse counts
/// as 0; a line with fewer than two tabs is skipped (`None`).
pub open spec fn find_line_spec(line: Seq<char>) -> Option<(Seq<char>, u64, Seq<char>)> {
    let i = find_char(line, '\t');
    if i < 0 {
        None
    } else {
        let rest = line.skip(i + 1);
        let j = find_char(rest, '\t');
        if j < 0 {
            None
        } else {
            let size = match parse_u64_spec(rest.take(j)) {
                Some(v) => v,
                None => 0u64,
            };
            Some((replace_char(line.take(i), '\\', "/"@), size, rest.skip(j + 1)))
        }
    }
}

pub fn parse_find_line(line: &str) -> (r: Option<(String, u64, String)>)
    ensures
        match find_line_spec(line@) {
            None => r is None,
            Some((rel, size, mtime)) => r matches Some(x) && x.0@ == rel && x.1 == size && x.2@ == mtime,
        },
{
    let cs = chars_of(line);
    let i = find_char_from(&cs, '\t', 0);
    if i == cs.len() {
        return None;
    }
    let j = find_char_from(&cs, '\t', i + 1);
    if j == cs.len() {
        proof {
            lemma_find_skip(cs@, '\t', i + 1, 0);
        }
        return None;
    }
    proof {
        lemma_find_skip(cs@, '\t', i + 1, 0);
        lemma_find_from_bounds(cs@, '\t', 0);
        lemma_find_from_bounds(cs@, '\t', i + 1);
    }
    let rel_raw = string_of_range(&cs, 0, i);
    let mut rel = String::new();
    push_replaced(&mut rel, rel_raw.as_str(), '\\', "/");
    let size_cs = sub_chars(&cs, i + 1, j);
    let size = match parse_u64(&size_cs) {
        Some(v) => v,
        None => 0,
    };
    let mtime = string_of_range(&cs, j + 1, cs.len());
    let ghost rest = cs@.skip(i + 1);
    assert(rest.take(j - (i + 1)) =~= size_cs@);
    assert(rest.skip(j - (i + 1) + 1) =~= mtime@);
    assert(rel_raw@ =~= cs@.take(i as int));
    assert(rel@ =~= replace_char(cs@.take(i as int), '\\', "/"@));
    Some((rel, size, mtime))
}

} // verus!
