//! Trusted wrappers around the few filesystem and search-path calls the
//! guard cannot avoid.
//!
//! Canonicalization, directory/file probes and executable lookup all
//! depend on the state of the machine, so which answer comes back cannot
//! be promised — only the documented shape of a successful answer (a
//! canonical path is absolute and traversal-free); the verified callers
//! state what holds whatever the answer was.  Each wrapper holds exactly
//! one outside call.

use std::path::Path;

use vstd::prelude::*;

use crate::pathmodel::canonical_shaped;

verus! {

/// Relies on `std::path::Path::canonicalize`: on success the result is
/// the canonical, absolute form of the path, with all components
/// normalized and symbolic links resolved — so no `.` or `..` segment
/// survives in it.  It fails when the path does not exist (or cannot be
/// traversed).  Which answer comes back depends on the filesystem, so
/// only that canonical shape is stated.
#[verifier::external_body]
pub fn canonicalize_path(s: &str) -> (r: Option<String>)
    ensures
        r matches Option::Some(p) ==> canonical_shaped(p@),
{
    match Path::new(s).canonicalize() {
        Ok(p) => Some(p.to_string_lossy().into_owned()),
        Err(_) => None,
    }
}

/// Relies on `std::path::Path::is_dir`: whether the path currently names
/// a directory.  The answer depends on the filesystem; nothing is
/// stated.
#[verifier::external_body]
pub fn path_is_dir(s: &str) -> bool {
    Path::new(s).is_dir()
}

/// Relies on `std::path::Path::is_file`: whether the path currently
/// names a regular file.  The answer depends on the filesystem; nothing
/// is stated.
#[verifier::external_body]
pub fn path_is_file(s: &str) -> bool {
    Path::new(s).is_file()
}

/// Relies on `pathsearch::find_executable_in_path`: the first executable
/// named `name` in the process's search path, if any.  The answer
/// depends on the environment and the filesystem; nothing is stated.
#[verifier::external_body]
pub fn find_in_path(name: &str) -> Option<String> {
    pathsearch::find_executable_in_path(name).map(|p| p.to_string_lossy().into_owned())
}

} // verus!
