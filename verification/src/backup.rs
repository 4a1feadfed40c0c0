//! The pull-backup command's verifiable pieces.
//!
//! The per-host backup loop itself does nothing but sequence filesystem
//! and process work, so it lives outside the library; what it reports —
//! the elapsed-time rendering — is specified and checked here.

use vstd::prelude::*;

use crate::strutil::{spec_dec, spec_dec_pad2, u64_to_string, u64_to_string_pad2};

verus! {

/// The command that backs up one host (or, with `all`, every host).
#[derive(Debug)]
pub struct PullBackupCmd {
    /// Back up all hosts in the configuration rather than one named
    /// with `--host`.
    pub all: bool,
}

/// How a duration of `secs` seconds is reported: hours unpadded when
/// present, then minutes and seconds, each two digits wide whenever a
/// larger unit precedes them.
pub open spec fn spec_fmt_duration(secs: nat) -> Seq<char> {
    if secs >= 3600 {
        spec_dec(secs / 3600) + seq!['h'] + spec_dec_pad2((secs % 3600) / 60) + seq!['m']
            + spec_dec_pad2(secs % 60) + seq!['s']
    } else if secs >= 60 {
        spec_dec(secs / 60) + seq!['m'] + spec_dec_pad2(secs % 60) + seq!['s']
    } else {
        spec_dec(secs) + seq!['s']
    }
}

/// Renders a duration of `secs` seconds as `1h02m01s`, `59m59s` or
/// `9s`.
pub fn fmt_duration(secs: u64) -> (r: String)
    ensures
        r@ == spec_fmt_duration(secs as nat),
{
    if secs >= 3600 {
        let mut out = u64_to_string(secs / 3600);
        out.append("h");
        let minutes = u64_to_string_pad2((secs % 3600) / 60);
        out.append(minutes.as_str());
        out.append("m");
        let seconds = u64_to_string_pad2(secs % 60);
        out.append(seconds.as_str());
        out.append("s");
        proof {
            reveal_strlit("h");
            reveal_strlit("m");
            reveal_strlit("s");
            assert(out@ =~= spec_fmt_duration(secs as nat));
        }
        out
    } else if secs >= 60 {
        let mut out = u64_to_string(secs / 60);
        out.append("m");
        let seconds = u64_to_string_pad2(secs % 60);
        out.append(seconds.as_str());
        out.append("s");
        proof {
            reveal_strlit("m");
            reveal_strlit("s");
            assert(out@ =~= spec_fmt_duration(secs as nat));
        }
        out
    } else {
        let mut out = u64_to_string(secs);
        out.append("s");
        proof {
            reveal_strlit("s");
            assert(out@ =~= spec_fmt_duration(secs as nat));
        }
        out
    }
}

} // verus!
