//! The policy store: the read-only view of the loaded configuration
//! that the guard consults.
//!
//! One `BackupHost` per remote host name, each with its login user, an
//! optional port, a key-material reference and an ordered list of
//! permitted backup sources.  The store is built once at startup by the
//! unverified loader and only read here; every lookup the guard performs
//! is specified against the mathematical image of these records.

use vstd::prelude::*;

use crate::errors::{DoppelbackError, SpecError};
use crate::fsops::{path_is_dir, path_is_file};
use crate::pathmodel::{
    is_abs_path, is_absolute, join_spec, path_eq, path_join, paths_equal, trim_slashes,
    trim_slashes_spec,
};
use crate::strutil::{push_char, replace_char, spec_dec, spec_replace, str_eq, u64_to_string};

verus! {

/// One permitted backup source: a directory tree root on the source
/// host, and whether pulling it needs elevated privilege.
#[derive(Debug)]
pub struct BackupSource {
    /// Canonical filesystem path of the source on its host.  Policy
    /// entries are compared against canonicalized request paths by
    /// exact component equality, never by prefix.
    pub path: String,
    /// Whether this source may only be read as the superuser.
    pub root: bool,
}

/// Mathematical image of [`BackupSource`].
pub struct SpecSource {
    pub path: Seq<char>,
    pub root: bool,
}

impl View for BackupSource {
    type V = SpecSource;

    open spec fn view(&self) -> SpecSource {
        SpecSource { path: self.path@, root: self.root }
    }
}

impl DeepView for BackupSource {
    type V = SpecSource;

    open spec fn deep_view(&self) -> SpecSource {
        self.view()
    }
}

impl BackupSource {
    /// A copy that models the same source.
    pub fn duplicate(&self) -> (r: BackupSource)
        ensures
            r@ == self@,
    {
        BackupSource { path: self.path.clone(), root: self.root }
    }
}

impl Default for BackupSource {
    fn default() -> (r: Self)
        ensures
            r@.path.len() == 0,
            r@.root == false,
    {
        BackupSource { path: String::new(), root: false }
    }
}

/// The policy for one remote host.
#[derive(Debug)]
pub struct BackupHost {
    /// Login user on the remote host; never empty and never the
    /// superuser for a valid record.
    pub user: String,
    /// Optional TCP port; `None` or `0` mean the default.
    pub port: Option<u16>,
    /// Key-material reference: an absolute path, or a name resolved
    /// under the invoking user's key store.
    pub key: String,
    /// The permitted sources, in configuration order.
    pub sources: Vec<BackupSource>,
}

/// Mathematical image of [`BackupHost`].
pub struct SpecHost {
    pub user: Seq<char>,
    pub port: Option<u16>,
    pub key: Seq<char>,
    pub sources: Seq<SpecSource>,
}

impl View for BackupHost {
    type V = SpecHost;

    open spec fn view(&self) -> SpecHost {
        SpecHost {
            user: self.user@,
            port: self.port,
            key: self.key@,
            sources: self.sources.deep_view(),
        }
    }
}

impl Default for BackupHost {
    fn default() -> (r: Self)
        ensures
            r@.user.len() == 0,
            r@.port is None,
            r@.key.len() == 0,
            r@.sources.len() == 0,
    {
        BackupHost { user: String::new(), port: Option::None, key: String::new(), sources: Vec::new() }
    }
}

/// One named host entry of the configuration.
#[derive(Debug)]
pub struct HostEntry {
    /// The host's name: the key the entry is looked up by.
    pub name: String,
    /// The host's policy.
    pub host: BackupHost,
}

/// The loaded configuration the guard reads.
#[derive(Debug)]
pub struct Config {
    /// Where snapshots live; must be an absolute, existing directory
    /// with a `live` subdirectory.
    pub snapshots: String,
    /// The configured hosts.  Names are unique: the loader builds this
    /// from a name-keyed mapping.
    pub hosts: Vec<HostEntry>,
}

/// Mathematical image of [`Config`]: the snapshot directory and the
/// name-to-policy association list.
pub struct SpecConfig {
    pub snapshots: Seq<char>,
    pub hosts: Seq<(Seq<char>, SpecHost)>,
}

impl View for HostEntry {
    type V = (Seq<char>, SpecHost);

    open spec fn view(&self) -> (Seq<char>, SpecHost) {
        (self.name@, self.host@)
    }
}

impl DeepView for HostEntry {
    type V = (Seq<char>, SpecHost);

    open spec fn deep_view(&self) -> (Seq<char>, SpecHost) {
        self.view()
    }
}

impl View for Config {
    type V = SpecConfig;

    open spec fn view(&self) -> SpecConfig {
        SpecConfig { snapshots: self.snapshots@, hosts: self.hosts.deep_view() }
    }
}

impl Default for Config {
    fn default() -> (r: Self)
        ensures
            r@.snapshots.len() == 0,
            r@.hosts.len() == 0,
    {
        Config { snapshots: String::new(), hosts: Vec::new() }
    }
}

/// The first host entry named `name`, if any.
pub open spec fn spec_get_host(hosts: Seq<(Seq<char>, SpecHost)>, name: Seq<char>) -> Option<
    SpecHost,
>
    decreases hosts.len(),
{
    if hosts.len() == 0 {
        Option::None
    } else if hosts[0].0 == name {
        Option::Some(hosts[0].1)
    } else {
        spec_get_host(hosts.drop_first(), name)
    }
}

/// The first source whose path equals `path` component-wise, if any.
pub open spec fn spec_get_source(sources: Seq<SpecSource>, path: Seq<char>) -> Option<SpecSource>
    decreases sources.len(),
{
    if sources.len() == 0 {
        Option::None
    } else if path_eq(sources[0].path, path) {
        Option::Some(sources[0])
    } else {
        spec_get_source(sources.drop_first(), path)
    }
}

impl Config {
    /// Checks that the snapshot directory is usable: spelled as a real
    /// absolute path (the loader renders an empty setting as `~`), and
    /// currently a directory with a `live` subdirectory.
    ///
    /// The path-shape rejections are exact; whether the directories
    /// exist depends on the filesystem, so those two rejections are
    /// only characterized by the path they report.
    pub fn snapshot_dir_valid(&self) -> (r: Result<(), DoppelbackError>)
        ensures
            (path_eq(self@.snapshots, "~"@) || !is_abs_path(self@.snapshots)) <==> (match r {
                Result::Err(e) => e@ == SpecError::InvalidPath(self@.snapshots),
                Result::Ok(_) => false,
            }),
            (match r {
                Result::Err(e) => match e@ {
                    SpecError::MissingDir(d) => d == self@.snapshots || d == join_spec(
                        self@.snapshots,
                        "live"@,
                    ),
                    SpecError::InvalidPath(p) => p == self@.snapshots,
                    _ => false,
                },
                Result::Ok(_) => true,
            }),
    {
        if paths_equal(self.snapshots.as_str(), "~") {
            return Result::Err(DoppelbackError::InvalidPath(self.snapshots.clone()));
        }
        if !is_absolute(self.snapshots.as_str()) {
            return Result::Err(DoppelbackError::InvalidPath(self.snapshots.clone()));
        }
        if !path_is_dir(self.snapshots.as_str()) {
            return Result::Err(DoppelbackError::MissingDir(self.snapshots.clone()));
        }
        let live = path_join(self.snapshots.as_str(), "live");
        if !path_is_dir(live.as_str()) {
            return Result::Err(DoppelbackError::MissingDir(live));
        }
        Result::Ok(())
    }

    /// The policy for `name`, if the configuration has one.
    pub fn get_host(&self, name: &str) -> (r: Option<&BackupHost>)
        ensures
            match r {
                Option::Some(h) => spec_get_host(self@.hosts, name@) == Option::Some(h@),
                Option::None => spec_get_host(self@.hosts, name@) is None,
            },
    {
        let ghost hosts = self@.hosts;
        let mut i: usize = 0;
        proof {
            assert(hosts.skip(0) =~= hosts);
        }
        while i < self.hosts.len()
            invariant
                i <= self.hosts@.len(),
                hosts == self@.hosts,
                hosts.len() == self.hosts@.len(),
                forall|k: int|
                    0 <= k < self.hosts@.len() ==> hosts[k] == #[trigger] self.hosts@[k]@,
                spec_get_host(hosts, name@) == spec_get_host(hosts.skip(i as int), name@),
                forall|k: int| 0 <= k < i ==> #[trigger] hosts[k].0 != name@,
            decreases self.hosts@.len() - i,
        {
            proof {
                assert(hosts.skip(i as int)[0] == hosts[i as int]);
                assert(hosts.skip(i as int).drop_first() =~= hosts.skip(i as int + 1));
            }
            if str_eq(self.hosts[i].name.as_str(), name) {
                return Option::Some(&self.hosts[i].host);
            }
            i = i + 1;
        }
        proof {
            assert(hosts.skip(self.hosts@.len() as int) =~= Seq::<(Seq<char>, SpecHost)>::empty());
        }
        Option::None
    }
}

impl BackupHost {
    /// Whether the configured login user can be used at all: non-empty,
    /// not the loader's rendering of an empty setting (`~`), and never
    /// the superuser — the guard is meant to gain root only through its
    /// own escalation path.
    pub fn is_user_valid(&self) -> (r: bool)
        ensures
            r == (self@.user.len() > 0 && self@.user != "~"@ && self@.user != "root"@),
    {
        !self.user.as_str().is_empty() && !str_eq(self.user.as_str(), "~") && !str_eq(
            self.user.as_str(),
            "root",
        )
    }

    /// Where the host's key material would live: the configured path
    /// itself when absolute, otherwise under `.ssh` in the given home
    /// directory.
    pub open spec fn spec_key_candidate(key: Seq<char>, home: Seq<char>) -> Seq<char> {
        if is_abs_path(key) {
            key
        } else {
            join_spec(join_spec(home, ".ssh"@), key)
        }
    }

    /// Resolves the host's key reference against `home_dir`.
    ///
    /// An unset reference (empty, or the loader's `~`) yields `None`.
    /// Otherwise the candidate location is fixed by
    /// [`Self::spec_key_candidate`]; whether a file is there depends on
    /// the filesystem, so `Some` is characterized but not promised.
    pub fn find_ssh_key(&self, home_dir: &str) -> (r: Option<String>)
        ensures
            (self@.key.len() == 0 || path_eq(self@.key, "~"@)) ==> r is None,
            match r {
                Option::Some(p) => p@ == Self::spec_key_candidate(self@.key, home_dir@),
                Option::None => true,
            },
    {
        if self.key.as_str().is_empty() || paths_equal(self.key.as_str(), "~") {
            return Option::None;
        }
        let candidate = if is_absolute(self.key.as_str()) {
            self.key.clone()
        } else {
            let ssh_dir = path_join(home_dir, ".ssh");
            path_join(ssh_dir.as_str(), self.key.as_str())
        };
        if path_is_file(candidate.as_str()) {
            Option::Some(candidate)
        } else {
            Option::None
        }
    }

    /// The first configured source whose path names the same location
    /// as `path`.
    pub fn get_source(&self, path: &str) -> (r: Option<&BackupSource>)
        ensures
            match r {
                Option::Some(s) => spec_get_source(self@.sources, path@) == Option::Some(s@),
                Option::None => spec_get_source(self@.sources, path@) is None,
            },
    {
        let ghost sources = self@.sources;
        let mut i: usize = 0;
        proof {
            assert(sources.skip(0) =~= sources);
        }
        while i < self.sources.len()
            invariant
                i <= self.sources@.len(),
                sources == self@.sources,
                sources.len() == self.sources@.len(),
                forall|k: int|
                    0 <= k < self.sources@.len() ==> sources[k] == #[trigger] self.sources@[k]@,
                spec_get_source(sources, path@) == spec_get_source(sources.skip(i as int), path@),
            decreases self.sources@.len() - i,
        {
            proof {
                assert(sources.skip(i as int)[0] == sources[i as int]);
                assert(sources.skip(i as int).drop_first() =~= sources.skip(i as int + 1));
            }
            if paths_equal(self.sources[i].path.as_str(), path) {
                return Option::Some(&self.sources[i]);
            }
            i = i + 1;
        }
        proof {
            assert(sources.skip(self.sources@.len() as int) =~= Seq::<SpecSource>::empty());
        }
        Option::None
    }

    /// The ssh argument list used to reach this host with `key` as the
    /// identity file: agent forwarding and X11 off, identities pinned,
    /// plus the port when one is configured and non-zero.
    pub open spec fn spec_ssh_args(host: SpecHost, ssh: Seq<char>, key: Seq<char>) -> Seq<
        Seq<char>,
    > {
        let base = seq![ssh, "-a"@, "-x"@, "-oIdentitiesOnly=true"@, "-i"@, key];
        match host.port {
            Option::Some(p) => if p > 0 {
                base + seq!["-p"@, spec_dec(p as nat)]
            } else {
                base
            },
            Option::None => base,
        }
    }

    /// Builds the ssh invocation for this host, with the key resolved
    /// against `home`.  `None` exactly when no key file was found.
    pub fn ssh_args(&self, ssh: &str, home: &str) -> (r: Option<Vec<String>>)
        ensures
            (self@.key.len() == 0 || path_eq(self@.key, "~"@)) ==> r is None,
            match r {
                Option::Some(v) => v.deep_view() == Self::spec_ssh_args(
                    self@,
                    ssh@,
                    Self::spec_key_candidate(self@.key, home@),
                ),
                Option::None => true,
            },
    {
        let key = match self.find_ssh_key(home) {
            Option::None => {
                return Option::None;
            },
            Option::Some(k) => k,
        };
        let mut args: Vec<String> = Vec::new();
        args.push(String::from_str(ssh));
        args.push(String::from_str("-a"));
        args.push(String::from_str("-x"));
        args.push(String::from_str("-oIdentitiesOnly=true"));
        args.push(String::from_str("-i"));
        args.push(key);
        match self.port {
            Option::Some(p) => {
                if p > 0 {
                    args.push(String::from_str("-p"));
                    args.push(u64_to_string(p as u64));
                    assert(args.deep_view() =~= Self::spec_ssh_args(
                        self@,
                        ssh@,
                        Self::spec_key_candidate(self@.key, home@),
                    ));
                } else {
                    assert(args.deep_view() =~= Self::spec_ssh_args(
                        self@,
                        ssh@,
                        Self::spec_key_candidate(self@.key, home@),
                    ));
                }
            },
            Option::None => {
                assert(args.deep_view() =~= Self::spec_ssh_args(
                    self@,
                    ssh@,
                    Self::spec_key_candidate(self@.key, home@),
                ));
            },
        }
        Option::Some(args)
    }
}

/// Where one source's pulled data lives under the snapshot root.
#[derive(Debug)]
pub struct BackupDest {
    dest_dir: String,
}

impl View for BackupDest {
    type V = Seq<char>;

    closed spec fn view(&self) -> Seq<char> {
        self.dest_dir@
    }
}

/// The filesystem-safe directory name a source path is stored under:
/// slashes trimmed, the empty result named `rootfs`, and the remaining
/// slashes and dots replaced by underscores.
pub open spec fn spec_safe_name(path: Seq<char>) -> Seq<char> {
    let t = trim_slashes_spec(path);
    if t.len() == 0 {
        "rootfs"@
    } else {
        spec_replace(spec_replace(t, '/', '_'), '.', '_')
    }
}

impl BackupDest {
    /// The backup directory for `source` of `host` under `root`:
    /// `root/live/<host>/<safe name>`.
    pub fn new(root: &str, host: &str, source: &BackupSource) -> (r: Self)
        ensures
            r@ == join_spec(
                join_spec(join_spec(root@, "live"@), host@),
                spec_safe_name(source@.path),
            ),
    {
        let dest_name = Self::get_safe_name(source.path.as_str());
        let live = path_join(root, "live");
        let host_dir = path_join(live.as_str(), host);
        let dest_dir = path_join(host_dir.as_str(), dest_name.as_str());
        Self { dest_dir }
    }

    /// The directory backups of this source are written into.
    pub fn backup_dir(&self) -> (r: &str)
        ensures
            r@ == self@,
    {
        self.dest_dir.as_str()
    }

    /// The sibling file `<backup dir>.<name>` that carries per-source
    /// metadata (an exclude list, the snapshot name).  The safe name
    /// never contains a dot, so this appends an extension rather than
    /// replacing one.
    pub fn get_companion_file(&self, name: &str) -> (r: String)
        ensures
            r@ == self@ + seq!['.'] + name@,
    {
        let mut r = self.dest_dir.clone();
        push_char(&mut r, '.');
        r.append(name);
        assert(r@ =~= self@ + seq!['.'] + name@);
        r
    }

    /// Computes [`spec_safe_name`].
    pub fn get_safe_name(original: &str) -> (r: String)
        ensures
            r@ == spec_safe_name(original@),
    {
        let trimmed = trim_slashes(original);
        if trimmed.as_str().is_empty() {
            String::from_str("rootfs")
        } else {
            let no_slash = replace_char(trimmed.as_str(), '/', '_');
            replace_char(no_slash.as_str(), '.', '_')
        }
    }
}

/// What kind of configuration test a `config-test` invocation asks
/// for.
#[derive(Debug, PartialEq, Eq, Structural)]
pub enum ConfigTestType {
    /// Check the whole host configuration, reaching out to every
    /// remote; never allowed when requested remotely.
    Host,
    /// Check a single source directory on this machine.
    Source,
    /// Check reachability remotely.
    Remote,
}

/// The parsed form of a `config-test` sub-invocation.
#[derive(Debug)]
pub struct ConfigTestCmd {
    /// The source path the test is about, when one was named.
    pub source: Option<String>,
    /// Which test to run.
    pub test_type: ConfigTestType,
}

} // verus!
