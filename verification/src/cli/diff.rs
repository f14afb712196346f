//! `dapctl diff <profile>`.

use vstd::prelude::*;

use crate::text::{dec, fmt_u64, push_str};

verus! {

#[derive(Debug, Clone)]
pub struct Args {
    /// Name of the sync profile.
    pub profile: String,
    /// Emit JSON instead of the human table.
    pub json: bool,
}

/// Conservative write speed assumed for ETA estimates (30 MiB/s to microSD).
pub const ESTIMATED_SPEED_BPS: u64 = 31457280;

/// `n` as two or more digits (`{n:02}`).
pub open spec fn pad2(n: nat) -> Seq<char> {
    if n < 10 {
        seq!['0'] + dec(n)
    } else {
        dec(n)
    }
}

/// An ETA for humans: `< 1s`, `42s`, `3m 07s` or `2h 05m`.
pub open spec fn eta_text(secs: nat) -> Seq<char> {
    if secs == 0 {
        "< 1s"@
    } else if secs < 60 {
        dec(secs) + "s"@
    } else if secs / 60 < 60 {
        dec(secs / 60) + "m "@ + pad2(secs % 60) + "s"@
    } else {
        dec(secs / 3600) + "h "@ + pad2((secs / 60) % 60) + "m"@
    }
}

fn push_pad2(s: &mut String, n: u64)
    ensures
        final(s)@ == old(s)@ + pad2(n as nat),
{
    if n < 10 {
        push_str(s, "0");
        let d = fmt_u64(n);
        push_str(s, d.as_str());
        proof {
            reveal_strlit("0");
        }
        assert(final(s)@ =~= old(s)@ + pad2(n as nat));
    } else {
        let d = fmt_u64(n);
        push_str(s, d.as_str());
    }
}

/// Formats an ETA (see `eta_text`).
pub fn fmt_eta(secs: u64) -> (r: String)
    ensures
        r@ == eta_text(secs as nat),
{
    if secs == 0 {
        return "< 1s".to_owned();
    }
    if secs < 60 {
        let mut r = fmt_u64(secs);
        push_str(&mut r, "s");
        return r;
    }
    let m = secs / 60;
    let s = secs % 60;
    if m < 60 {
        let mut r = fmt_u64(m);
        push_str(&mut r, "m ");
        push_pad2(&mut r, s);
        push_str(&mut r, "s");
        return r;
    }
    let h = m / 60;
    let mm = m % 60;
    assert(h == secs / 3600) by {
        vstd::arithmetic::div_mod::lemma_div_denominator(secs as int, 60, 60);
    }
    let mut r = fmt_u64(h);
    push_str(&mut r, "h ");
    push_pad2(&mut r, mm);
    push_str(&mut r, "m");
    r
}

} // verus!
