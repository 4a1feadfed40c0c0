//! The guard's rejection taxonomy.
//!
//! Every rejection is terminal for the invocation that raised it: a
//! rejected command is never partially honored.  The kinds mirror the
//! decisions the guard makes, not the transport that delivered the command.

use vstd::prelude::*;

verus! {

/// Why the guard refused to act.
///
/// Path-carrying variants keep the offending path so the caller can log
/// enough context for a later audit.
#[derive(Debug)]
pub enum DoppelbackError {
    /// The command string held no tokens at all.
    MissingArguments,
    /// Fewer tokens than an rsync server invocation can legally have.
    TooFewArguments,
    /// A fixed-position token (`--server`, `--sender`) was not in place.
    UnexpectedShape,
    /// A path or executable was absent: an unknown backup source, a path
    /// that does not canonicalize, or a program missing from the search
    /// path.
    NotFound,
    /// A path that had to be absolute or canonical was not.
    InvalidPath(String),
    /// A directory the configuration relies on is missing.
    MissingDir(String),
    /// The requested program or sub-verb is not one the guard ever runs.
    PermissionDenied,
    /// A self-referential invocation failed re-validation against the
    /// command-line grammar.
    InvalidArguments,
}

impl View for DoppelbackError {
    type V = SpecError;

    open spec fn view(&self) -> SpecError {
        match self {
            DoppelbackError::MissingArguments => SpecError::MissingArguments,
            DoppelbackError::TooFewArguments => SpecError::TooFewArguments,
            DoppelbackError::UnexpectedShape => SpecError::UnexpectedShape,
            DoppelbackError::NotFound => SpecError::NotFound,
            DoppelbackError::InvalidPath(p) => SpecError::InvalidPath(p@),
            DoppelbackError::MissingDir(p) => SpecError::MissingDir(p@),
            DoppelbackError::PermissionDenied => SpecError::PermissionDenied,
            DoppelbackError::InvalidArguments => SpecError::InvalidArguments,
        }
    }
}

/// Mathematical image of `DoppelbackError`.
pub enum SpecError {
    MissingArguments,
    TooFewArguments,
    UnexpectedShape,
    NotFound,
    InvalidPath(Seq<char>),
    MissingDir(Seq<char>),
    PermissionDenied,
    InvalidArguments,
}

} // verus!
