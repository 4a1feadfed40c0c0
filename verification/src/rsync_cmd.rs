//! The client side of a single-source backup: checking the request
//! against the configuration and building the exact rsync invocation.
//!
//! Running rsync, creating the destination directory and reading the
//! environment stay outside the library; everything that decides what
//! the invocation looks like is specified here.

use vstd::prelude::*;

use crate::config::{spec_get_host, spec_get_source, BackupHost, Config};
use crate::errors::DoppelbackError;
use crate::fsops::path_is_file;
use crate::pathmodel::{
    is_abs_path, is_absolute, join_spec, path_eq, path_join, path_with_extension,
    trim_slashes, trim_slashes_spec, with_extension_spec,
};
use crate::strutil::{push_char, replace_char, spec_dec, spec_replace, u64_to_string};

verus! {

/// The command that pulls one configured source from one host.
#[derive(Debug)]
pub struct RsyncCmd {
    /// Name of the remote host; must match a configured host.
    pub host: String,
    /// Path on that host; must match a configured source.
    pub source: String,
}

/// Mathematical image of [`RsyncCmd`].
pub struct SpecRsyncCmd {
    pub host: Seq<char>,
    pub source: Seq<char>,
}

impl View for RsyncCmd {
    type V = SpecRsyncCmd;

    open spec fn view(&self) -> SpecRsyncCmd {
        SpecRsyncCmd { host: self.host@, source: self.source@ }
    }
}

/// The directory name a source path is stored under on the client:
/// slashes trimmed, the empty result named `rootfs`, the remaining
/// slashes replaced by underscores (dots are kept here).
pub open spec fn spec_safe_name(path: Seq<char>) -> Seq<char> {
    let t = trim_slashes_spec(path);
    if t.len() == 0 {
        "rootfs"@
    } else {
        spec_replace(t, '/', '_')
    }
}

/// Computes [`spec_safe_name`].
pub fn get_safe_name(original: &str) -> (r: String)
    ensures
        r@ == spec_safe_name(original@),
{
    let trimmed = trim_slashes(original);
    if trimmed.as_str().is_empty() {
        String::from_str("rootfs")
    } else {
        replace_char(trimmed.as_str(), '/', '_')
    }
}

/// The `--rsh` argument: ssh with agent forwarding and X11 off,
/// identities pinned to `key`, plus the port when non-zero.
pub open spec fn spec_rsh_arg(key: Seq<char>, port: u16) -> Seq<char> {
    "--rsh=ssh -a -x -oIdentitiesOnly=true -i "@ + key + (if port > 0 {
        " -p "@ + spec_dec(port as nat)
    } else {
        Seq::<char>::empty()
    })
}

/// The flags every pull uses, in order.
pub open spec fn spec_fixed_flags() -> Seq<Seq<char>> {
    seq![
        "--archive"@,
        "--hard-links"@,
        "--acls"@,
        "--xattrs"@,
        "--one-file-system"@,
        "--max-size=10G"@,
        "--delete"@,
        "--delete-excluded"@,
        "--inplace"@,
        "--sparse"@,
        "--no-W"@,
        "-M--no-W"@,
        "--preallocate"@,
        "--fake-super"@,
        "--exclude=lost+found"@,
        "--exclude=**/.cache"@,
        "--exclude=.*.swp"@,
        "--exclude=.viminfo"@,
    ]
}

/// The remote location pulled from: `user@host:source/`.
pub open spec fn spec_remote_source(user: Seq<char>, host: Seq<char>, source: Seq<char>) -> Seq<
    char,
> {
    user + "@"@ + host + ":"@ + source + seq!['/']
}

/// The full rsync invocation for one source.  `has_exclude` says
/// whether a per-source exclude file sat beside the destination when
/// the command was built.
pub open spec fn spec_rsync_command(
    cmd: SpecRsyncCmd,
    rsync: Seq<char>,
    user: Seq<char>,
    port: u16,
    key: Seq<char>,
    dest: Seq<char>,
    has_exclude: bool,
) -> Seq<Seq<char>> {
    seq![rsync, spec_rsh_arg(key, port)] + spec_fixed_flags() + (if has_exclude {
        seq!["--exclude-from="@ + with_extension_spec(dest, "exclude"@)]
    } else {
        Seq::<Seq<char>>::empty()
    }) + seq![spec_remote_source(user, cmd.host, cmd.source), dest]
}

impl RsyncCmd {
    /// A command for one host/source pair.
    pub fn new(host: &str, source: &str) -> (r: Self)
        ensures
            r@.host == host@,
            r@.source == source@,
    {
        RsyncCmd { host: String::from_str(host), source: String::from_str(source) }
    }

    /// Checks the request against the configuration: the snapshot
    /// directory must be usable, the host must be configured, and the
    /// source must be among that host's sources.
    pub fn check_config<'a>(&self, config: &'a Config) -> (r: Result<
        &'a BackupHost,
        DoppelbackError,
    >)
        ensures
            match r {
                Result::Ok(h) => spec_get_host(config@.hosts, self@.host) == Option::Some(h@)
                    && spec_get_source(h@.sources, self@.source) is Some && is_abs_path(
                    config@.snapshots,
                ) && !path_eq(config@.snapshots, "~"@),
                Result::Err(_) => true,
            },
            spec_get_host(config@.hosts, self@.host) is None ==> r is Err,
            (match spec_get_host(config@.hosts, self@.host) {
                Option::Some(h) => spec_get_source(h.sources, self@.source) is None,
                Option::None => false,
            }) ==> r is Err,
    {
        match config.snapshot_dir_valid() {
            Result::Err(e) => {
                return Result::Err(e);
            },
            Result::Ok(_) => {},
        }
        let host = match config.get_host(self.host.as_str()) {
            Option::None => {
                return Result::Err(DoppelbackError::NotFound);
            },
            Option::Some(h) => h,
        };
        match host.get_source(self.source.as_str()) {
            Option::None => Result::Err(DoppelbackError::NotFound),
            Option::Some(_) => Result::Ok(host),
        }
    }

    /// Resolves the ssh key for this pull: the name itself when
    /// absolute, otherwise under `.ssh` in the home directory; `Some`
    /// only when a file is there.
    pub fn find_ssh_key(&self, key_name: &str, home_dir: &str) -> (r: Option<String>)
        ensures
            match r {
                Option::Some(p) => p@ == BackupHost::spec_key_candidate(key_name@, home_dir@),
                Option::None => true,
            },
    {
        let candidate = if is_absolute(key_name) {
            String::from_str(key_name)
        } else {
            let ssh_dir = path_join(home_dir, ".ssh");
            path_join(ssh_dir.as_str(), key_name)
        };
        if path_is_file(candidate.as_str()) {
            Option::Some(candidate)
        } else {
            Option::None
        }
    }

    /// The destination directory this source is pulled into:
    /// `<snapshots>/live/<host>/<safe name>`.  The caller creates it
    /// before running the command.
    pub fn dest_dir(&self, snapshots: &str) -> (r: String)
        ensures
            r@ == join_spec(
                join_spec(join_spec(snapshots@, "live"@), self@.host),
                spec_safe_name(self@.source),
            ),
    {
        let live = path_join(snapshots, "live");
        let host_dir = path_join(live.as_str(), self.host.as_str());
        let name = get_safe_name(self.source.as_str());
        path_join(host_dir.as_str(), name.as_str())
    }

    /// Builds the exact rsync invocation: the resolved rsync binary,
    /// the `--rsh` argument, the fixed flag set, the per-source exclude
    /// file when one is present beside the destination, then the remote
    /// source and the destination.
    pub fn get_command(
        &self,
        rsync: String,
        user: &str,
        port: u16,
        ssh_key: &str,
        dest: &str,
    ) -> (r: Result<Vec<String>, DoppelbackError>)
        ensures
            match r {
                Result::Ok(v) => exists|has_exclude: bool|
                    v.deep_view() == spec_rsync_command(
                        self@,
                        rsync@,
                        user@,
                        port,
                        ssh_key@,
                        dest@,
                        has_exclude,
                    ),
                Result::Err(_) => false,
            },
    {
        let mut rsh = String::from_str("--rsh=ssh -a -x -oIdentitiesOnly=true -i ");
        rsh.append(ssh_key);
        if port > 0 {
            rsh.append(" -p ");
            let port_str = u64_to_string(port as u64);
            rsh.append(port_str.as_str());
        }
        assert(rsh@ == spec_rsh_arg(ssh_key@, port));

        let mut command: Vec<String> = Vec::new();
        command.push(rsync);
        command.push(rsh);
        command.push(String::from_str("--archive"));
        command.push(String::from_str("--hard-links"));
        command.push(String::from_str("--acls"));
        command.push(String::from_str("--xattrs"));
        command.push(String::from_str("--one-file-system"));
        command.push(String::from_str("--max-size=10G"));
        command.push(String::from_str("--delete"));
        command.push(String::from_str("--delete-excluded"));
        command.push(String::from_str("--inplace"));
        command.push(String::from_str("--sparse"));
        command.push(String::from_str("--no-W"));
        command.push(String::from_str("-M--no-W"));
        command.push(String::from_str("--preallocate"));
        command.push(String::from_str("--fake-super"));
        command.push(String::from_str("--exclude=lost+found"));
        command.push(String::from_str("--exclude=**/.cache"));
        command.push(String::from_str("--exclude=.*.swp"));
        command.push(String::from_str("--exclude=.viminfo"));
        assert(command.deep_view() =~= seq![rsync@, spec_rsh_arg(ssh_key@, port)]
            + spec_fixed_flags());

        let exclude_from = path_with_extension(dest, "exclude");
        let has_exclude = path_is_file(exclude_from.as_str());
        if has_exclude {
            let mut exclude_arg = String::from_str("--exclude-from=");
            exclude_arg.append(exclude_from.as_str());
            command.push(exclude_arg);
        }
        let ghost mid = command.deep_view();
        proof {
            if has_exclude {
                assert(mid =~= seq![rsync@, spec_rsh_arg(ssh_key@, port)] + spec_fixed_flags()
                    + seq!["--exclude-from="@ + with_extension_spec(dest@, "exclude"@)]);
            }
        }

        let mut source = String::from_str(user);
        source.append("@");
        source.append(self.host.as_str());
        source.append(":");
        source.append(self.source.as_str());
        source.append("/");
        proof {
            reveal_strlit("/");
            assert("/"@ =~= seq!['/']);
            assert(source@ == spec_remote_source(user@, self@.host, self@.source));
        }
        command.push(source);
        command.push(String::from_str(dest));
        proof {
            assert(command.deep_view() =~= mid + seq![
                spec_remote_source(user@, self@.host, self@.source),
                dest@,
            ]);
            assert(command.deep_view() =~= spec_rsync_command(
                self@,
                rsync@,
                user@,
                port,
                ssh_key@,
                dest@,
                has_exclude,
            ));
        }
        Result::Ok(command)
    }
}

} // verus!
