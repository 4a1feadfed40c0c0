//! The snapshot command's verifiable pieces.
//!
//! Rotating snapshots means probing the filesystem for a free name and
//! invoking the snapshot tool, which stays outside the library; the
//! names probed and the exact invocation handed to the tool are
//! specified and checked here.

use vstd::prelude::*;

use crate::pathmodel::join_spec;
use crate::pathmodel::path_join;
use crate::strutil::{push_char, spec_dec_pad2, u64_to_string_pad2};

verus! {

/// The command that makes one dated, read-only snapshot of the live
/// backup directory.
#[derive(Debug)]
pub struct MakeSnapshotCmd {
    /// The snapshot's date, already rendered as the eight digits
    /// `YYYYMMDD`; today when absent.
    pub date: Option<String>,
}

/// The directory name tried for a snapshot of day `ymd` with collision
/// counter `counter`: `<ymd>.<counter padded to two digits>`, under the
/// snapshot root.
pub open spec fn spec_snapshot_candidate(snapshots: Seq<char>, ymd: Seq<char>, counter: nat) -> Seq<
    char,
> {
    join_spec(snapshots, ymd + seq!['.'] + spec_dec_pad2(counter))
}

impl MakeSnapshotCmd {
    /// The path tried for snapshot number `counter` of day `ymd`.  The
    /// caller probes candidates in counter order and keeps the first
    /// that does not exist yet.
    pub fn candidate_path(snapshots: &str, ymd: &str, counter: u64) -> (r: String)
        ensures
            r@ == spec_snapshot_candidate(snapshots@, ymd@, counter as nat),
    {
        let mut name = String::from_str(ymd);
        push_char(&mut name, '.');
        let counter_str = u64_to_string_pad2(counter);
        name.append(counter_str.as_str());
        assert(name@ =~= ymd@ + seq!['.'] + spec_dec_pad2(counter as nat));
        path_join(snapshots, name.as_str())
    }

    /// The exact invocation of the snapshot tool: a read-only subvolume
    /// snapshot of `old` at `new`.
    pub fn get_command(&self, btrfs: &str, old: &str, new: &str) -> (r: Vec<String>)
        ensures
            r.deep_view() == seq![btrfs@, "subvolume"@, "snapshot"@, "-r"@, old@, new@],
    {
        let mut r: Vec<String> = Vec::new();
        r.push(String::from_str(btrfs));
        r.push(String::from_str("subvolume"));
        r.push(String::from_str("snapshot"));
        r.push(String::from_str("-r"));
        r.push(String::from_str(old));
        r.push(String::from_str(new));
        assert(r.deep_view() =~= seq![btrfs@, "subvolume"@, "snapshot"@, "-r"@, old@, new@]);
        r
    }
}

} // verus!
