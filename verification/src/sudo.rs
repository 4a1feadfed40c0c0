//! The Escalation Guard: the second, independently-enforced validation
//! stage.
//!
//! After the first stage approves a root-required command, the process
//! re-enters itself through the privilege-escalation wrapper and lands
//! here, now privileged.  The arguments were produced by this same
//! program moments earlier, but this stage re-validates them from
//! scratch: a bug or policy gap in the first stage must not be enough
//! by itself to obtain root-level execution.  Unlike the first stage it
//! never searches for executables — the first argument must already be
//! an absolute path, so there is no ambiguity about which program runs
//! as root.

use vstd::prelude::*;

use crate::errors::{DoppelbackError, SpecError};
use crate::pathmodel::{file_name_spec, is_abs_path, is_absolute, path_file_name};
use crate::rsync_util::{
    check_source_path, filter_args, first_abs_token, source_path_checked, spec_filter_args,
};
use crate::strutil::{clone_tail, str_eq};

verus! {

/// The command invoked as `sudo <this program> sudo -- <argv>`.
#[derive(Debug)]
pub struct SudoCmd {
    /// Everything after the `--` separator: the absolute program path
    /// followed by its arguments.
    pub args: Vec<String>,
}

/// Mathematical image of [`SudoCmd`].
pub struct SpecSudoCmd {
    pub args: Seq<Seq<char>>,
}

impl View for SudoCmd {
    type V = SpecSudoCmd;

    open spec fn view(&self) -> SpecSudoCmd {
        SpecSudoCmd { args: self.args.deep_view() }
    }
}

/// The basename the guard dispatches on: the path's final component, or
/// empty when it has none.
pub open spec fn basename_of(p: Seq<char>) -> Seq<char> {
    match file_name_spec(p) {
        Option::Some(n) => n,
        Option::None => Seq::empty(),
    }
}

impl SudoCmd {
    /// Validates the escalated command line and rebuilds the argument
    /// vector to execute.
    ///
    /// `cli_args_valid` is the command-line grammar collaborator's
    /// verdict on the full argument list; it is consulted only for a
    /// self-referential invocation, where the grammar (which lives with
    /// the unverified command-line layer) decides syntactic validity.
    ///
    /// Whatever the collaborator or the filesystem say, an empty list
    /// is rejected as `MissingArguments`, and a first argument that is
    /// not an absolute path is rejected as `InvalidPath` — feeding this
    /// guard a relative path directly, bypassing the first stage, still
    /// fails.  An `rsync` basename re-runs the source-path check and
    /// the argument filter, so success means the transfer's source
    /// token is component-equal to a canonically shaped path — no
    /// traversal sequence survives into the escalated command; a
    /// self-referential basename passes the arguments through exactly
    /// when the grammar accepted them; any other program is refused
    /// outright.
    pub fn get_command(&self, cli_args_valid: bool) -> (r: Result<Vec<String>, DoppelbackError>)
        ensures
            self@.args.len() == 0 ==> (r matches Result::Err(e) && e@
                == SpecError::MissingArguments),
            self@.args.len() > 0 && !is_abs_path(self@.args[0]) ==> (r matches Result::Err(e)
                && e@ == SpecError::InvalidPath(self@.args[0])),
            r is Ok ==> self@.args.len() > 0 && is_abs_path(self@.args[0]),
            ({
                let args = self@.args;
                (args.len() > 0 && is_abs_path(args[0]) && basename_of(args[0]) == "rsync"@)
                    ==> (match r {
                    Result::Ok(v) => (spec_filter_args(args.drop_first()) matches Result::Ok(f)
                        && v.deep_view() == seq![args[0]] + f) && first_abs_token(
                        args.drop_first(),
                    ) is Some && source_path_checked(args.drop_first()),
                    Result::Err(_) => true,
                })
            }),
            ({
                let args = self@.args;
                (args.len() > 0 && is_abs_path(args[0]) && basename_of(args[0]) == "rsync"@
                    && first_abs_token(args.drop_first()) is None) ==> (r matches Result::Err(e)
                    && e@ == SpecError::NotFound)
            }),
            ({
                let args = self@.args;
                (args.len() > 0 && is_abs_path(args[0]) && basename_of(args[0]) == "rsync"@
                    && spec_filter_args(args.drop_first()) is Err) ==> r is Err
            }),
            ({
                let args = self@.args;
                (args.len() > 0 && is_abs_path(args[0]) && basename_of(args[0]) == "doppelback"@)
                    ==> (match r {
                    Result::Ok(v) => cli_args_valid && v.deep_view() == args,
                    Result::Err(e) => !cli_args_valid && e@ == SpecError::InvalidArguments,
                })
            }),
            ({
                let args = self@.args;
                (args.len() > 0 && is_abs_path(args[0]) && basename_of(args[0]) != "rsync"@
                    && basename_of(args[0]) != "doppelback"@) ==> (r matches Result::Err(e) && e@
                    == SpecError::PermissionDenied)
            }),
    {
        if self.args.len() == 0 {
            return Result::Err(DoppelbackError::MissingArguments);
        }
        assert(self@.args[0] == self.args@[0]@);
        if !is_absolute(self.args[0].as_str()) {
            return Result::Err(DoppelbackError::InvalidPath(self.args[0].clone()));
        }
        let cmd_name = match path_file_name(self.args[0].as_str()) {
            Option::Some(n) => n,
            Option::None => String::new(),
        };
        assert(cmd_name@ == basename_of(self@.args[0]));
        proof {
            reveal_strlit("rsync");
            reveal_strlit("doppelback");
            assert("rsync"@.len() == 5);
            assert("doppelback"@.len() == 10);
            assert("rsync"@ != "doppelback"@);
        }
        if str_eq(cmd_name.as_str(), "rsync") {
            let tail = clone_tail(&self.args, 1);
            proof {
                assert(tail.deep_view() =~= self@.args.drop_first());
            }
            match check_source_path(&tail) {
                Result::Err(e) => {
                    return Result::Err(e);
                },
                Result::Ok(_) => {},
            }
            match filter_args(&tail) {
                Result::Err(e) => Result::Err(e),
                Result::Ok(filtered) => {
                    let mut full: Vec<String> = Vec::new();
                    full.push(self.args[0].clone());
                    let ghost filtered_view = filtered.deep_view();
                    let mut rest = filtered;
                    full.append(&mut rest);
                    proof {
                        assert(full.deep_view() =~= seq![self@.args[0]] + filtered_view);
                    }
                    Result::Ok(full)
                },
            }
        } else if str_eq(cmd_name.as_str(), "doppelback") {
            if cli_args_valid {
                let out = clone_tail(&self.args, 0);
                proof {
                    assert(out.deep_view() =~= self@.args);
                }
                Result::Ok(out)
            } else {
                Result::Err(DoppelbackError::InvalidArguments)
            }
        } else {
            Result::Err(DoppelbackError::PermissionDenied)
        }
    }
}

} // verus!
