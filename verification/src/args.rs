//! The command-line surface of the program, as the library models it.
//!
//! Parsing argv belongs to the unverified command-line layer; what is
//! specified here is the data it produces — the global settings and the
//! chosen subcommand — and the one computation the guard relies on:
//! re-serializing the global settings so a nested invocation of the
//! program observes exactly the settings of the current one.

use vstd::prelude::*;

use crate::backup::PullBackupCmd;
use crate::config::ConfigTestCmd;
use crate::rsync_cmd::RsyncCmd;
use crate::snapshots::MakeSnapshotCmd;
use crate::ssh::SshCmd;
use crate::sudo::SudoCmd;

verus! {

/// The settings every subcommand shares.
///
/// The command-line layer resolves `log` and `config` to absolute paths
/// before handing them in, so that re-serializing them for a nested
/// invocation does not depend on the working directory.
#[derive(Debug)]
pub struct GlobalArgs {
    /// Verbose logging.
    pub verbose: bool,
    /// Report what would run instead of running it.
    pub dry_run: bool,
    /// Log file path, when logging to a file.
    pub log: Option<String>,
    /// Configuration file path; empty when none was given.
    pub config: String,
    /// The host this invocation concerns, when one was named.
    pub host: Option<String>,
}

/// Mathematical image of [`GlobalArgs`].
pub struct SpecGlobalArgs {
    pub verbose: bool,
    pub dry_run: bool,
    pub log: Option<Seq<char>>,
    pub config: Seq<char>,
    pub host: Option<Seq<char>>,
}

impl View for GlobalArgs {
    type V = SpecGlobalArgs;

    open spec fn view(&self) -> SpecGlobalArgs {
        SpecGlobalArgs {
            verbose: self.verbose,
            dry_run: self.dry_run,
            log: self.log.deep_view(),
            config: self.config@,
            host: self.host.deep_view(),
        }
    }
}

impl Default for GlobalArgs {
    fn default() -> (r: Self)
        ensures
            !r@.verbose,
            !r@.dry_run,
            r@.log is None,
            r@.config.len() == 0,
            r@.host is None,
    {
        GlobalArgs {
            verbose: false,
            dry_run: false,
            log: Option::None,
            config: String::new(),
            host: Option::None,
        }
    }
}

/// The re-serialized form of the global settings: one token per set
/// option, in a fixed order, with path-valued options spelled
/// `--name=value`.
pub open spec fn spec_cli_args(a: SpecGlobalArgs) -> Seq<Seq<char>> {
    (if a.verbose {
        seq!["--verbose"@]
    } else {
        Seq::<Seq<char>>::empty()
    }) + (if a.dry_run {
        seq!["--dry_run"@]
    } else {
        Seq::<Seq<char>>::empty()
    }) + (match a.log {
        Option::Some(l) => seq!["--log="@ + l],
        Option::None => Seq::<Seq<char>>::empty(),
    }) + (if a.config.len() > 0 {
        seq!["--config="@ + a.config]
    } else {
        Seq::<Seq<char>>::empty()
    }) + (match a.host {
        Option::Some(h) => seq!["--host="@ + h],
        Option::None => Seq::<Seq<char>>::empty(),
    })
}

impl GlobalArgs {
    /// Re-serializes these settings for a nested invocation of the
    /// program, exactly as [`spec_cli_args`] lays them out.
    pub fn as_cli_args(&self) -> (r: Vec<String>)
        ensures
            r.deep_view() == spec_cli_args(self@),
    {
        let mut args: Vec<String> = Vec::new();
        if self.verbose {
            args.push(String::from_str("--verbose"));
        }
        if self.dry_run {
            args.push(String::from_str("--dry_run"));
        }
        match &self.log {
            Option::Some(log) => {
                let mut log_arg = String::from_str("--log=");
                log_arg.append(log.as_str());
                args.push(log_arg);
            },
            Option::None => {},
        }
        if !self.config.as_str().is_empty() {
            let mut cfg_arg = String::from_str("--config=");
            cfg_arg.append(self.config.as_str());
            args.push(cfg_arg);
        }
        match &self.host {
            Option::Some(host) => {
                let mut host_arg = String::from_str("--host=");
                host_arg.append(host.as_str());
                args.push(host_arg);
            },
            Option::None => {},
        }
        assert(args.deep_view() =~= spec_cli_args(self@));
        args
    }
}

/// The subcommands the program accepts.
#[derive(Debug)]
pub enum Command {
    /// Parse the configuration, check its contents, and report.
    ConfigTest(ConfigTestCmd),
    /// First-stage guard for forced ssh commands.
    Ssh(SshCmd),
    /// Second-stage guard entered through the escalation wrapper.
    Sudo(SudoCmd),
    /// Pull one backup source.
    Rsync(RsyncCmd),
    /// Make a new dated snapshot of the live directory.
    MakeSnapshot(MakeSnapshotCmd),
    /// Run all the backups for a host, or for every host.
    PullBackup(PullBackupCmd),
}

/// The name a subcommand is invoked by.
pub open spec fn spec_command_name(c: &Command) -> Seq<char> {
    match c {
        Command::ConfigTest(_) => "config-test"@,
        Command::MakeSnapshot(_) => "make-snapshot"@,
        Command::PullBackup(_) => "pull-backup"@,
        Command::Rsync(_) => "rsync"@,
        Command::Ssh(_) => "ssh"@,
        Command::Sudo(_) => "sudo"@,
    }
}

impl Command {
    /// The subcommand's name, for messages.
    pub fn name(&self) -> (r: String)
        ensures
            r@ == spec_command_name(self),
    {
        match self {
            Command::ConfigTest(_) => String::from_str("config-test"),
            Command::MakeSnapshot(_) => String::from_str("make-snapshot"),
            Command::PullBackup(_) => String::from_str("pull-backup"),
            Command::Rsync(_) => String::from_str("rsync"),
            Command::Ssh(_) => String::from_str("ssh"),
            Command::Sudo(_) => String::from_str("sudo"),
        }
    }
}

/// A full parsed command line: the shared settings and the subcommand.
#[derive(Debug)]
pub struct CliArgs {
    /// The global settings.
    pub args: GlobalArgs,
    /// The subcommand and its arguments.
    pub cmd: Command,
}

} // verus!
