use doppelback::config::{BackupHost, BackupSource, Config, HostEntry};
use doppelback::errors::DoppelbackError;
use tempdir::TempDir;

#[test]
fn snapshots_must_be_present() {
    let cfg = Config { ..Config::default() };
    assert!(cfg.snapshot_dir_valid().is_err());
}

#[test]
fn snapshots_must_be_present_yaml() {
    let cfg = Config { snapshots: "~".to_string(), ..Config::default() };
    assert!(cfg.snapshot_dir_valid().is_err());
}

#[test]
fn snapshots_must_be_dir() {
    let cfg = Config { snapshots: "/dev/null".to_string(), ..Config::default() };
    assert!(cfg.snapshot_dir_valid().is_err());

    let dir = TempDir::new("snapshots").unwrap();
    let cfg = Config {
        snapshots: dir.path().to_str().unwrap().to_string(),
        ..Config::default()
    };
    let err = cfg.snapshot_dir_valid();
    assert!(err.is_err());
    match err {
        Err(DoppelbackError::MissingDir(d)) => assert!(d.contains("live")),
        _ => assert!(false),
    }
}

#[test]
fn snapshots_relative_path_is_invalid() {
    let cfg = Config { snapshots: "snapshots".to_string(), ..Config::default() };
    match cfg.snapshot_dir_valid() {
        Err(DoppelbackError::InvalidPath(p)) => assert_eq!(p, "snapshots"),
        _ => assert!(false),
    }
}

#[test]
fn backuphost_user_is_nonempty() {
    let cfg = BackupHost { user: String::from(""), ..BackupHost::default() };
    assert!(!cfg.is_user_valid());
}

#[test]
fn backuphost_user_is_nonempty_yaml() {
    let cfg = BackupHost { user: String::from("~"), ..BackupHost::default() };
    assert!(!cfg.is_user_valid());
}

#[test]
fn backuphost_user_is_not_root() {
    let cfg = BackupHost { user: String::from("root"), ..BackupHost::default() };
    assert!(!cfg.is_user_valid());
}

#[test]
fn backuphost_user_is_ok() {
    let cfg = BackupHost { user: String::from("backupuser"), ..BackupHost::default() };
    assert!(cfg.is_user_valid());
}

#[test]
fn config_find_ssh_key_absolute_path() {
    // An absolute key reference is used as-is when the file exists.
    let cfg = BackupHost { key: "/etc/passwd".to_string(), ..BackupHost::default() };
    assert_eq!(cfg.find_ssh_key("/nosuch"), Some("/etc/passwd".to_string()));
}

#[test]
fn config_find_ssh_key_relative_resolves_under_home() {
    // A relative key reference resolves under <home>/.ssh; missing file
    // means None.
    let cfg = BackupHost { key: "keyfile".to_string(), ..BackupHost::default() };
    assert_eq!(cfg.find_ssh_key("/nosuch"), None);
}

#[test]
fn ssh_args_no_empty_key() {
    let cfg = BackupHost::default();
    assert!(cfg.ssh_args("/usr/bin/ssh", "/tmp").is_none());
}

#[test]
fn ssh_args_missing_key() {
    let cfg = BackupHost { key: "/nosuch".to_string(), ..BackupHost::default() };
    assert!(cfg.ssh_args("/usr/bin/ssh", "/tmp").is_none());
}

#[test]
fn ssh_args_no_port() {
    let cfg = BackupHost { key: "/etc/passwd".to_string(), ..BackupHost::default() };
    let expected = vec![
        "/opt/bin/ssh".to_string(),
        "-a".to_string(),
        "-x".to_string(),
        "-oIdentitiesOnly=true".to_string(),
        "-i".to_string(),
        "/etc/passwd".to_string(),
    ];
    assert_eq!(cfg.ssh_args("/opt/bin/ssh", "/tmp").unwrap(), expected);
}

#[test]
fn ssh_args_zero_port() {
    let cfg = BackupHost {
        key: "/etc/passwd".to_string(),
        port: Some(0),
        ..BackupHost::default()
    };
    let expected = vec![
        "/opt/bin/ssh".to_string(),
        "-a".to_string(),
        "-x".to_string(),
        "-oIdentitiesOnly=true".to_string(),
        "-i".to_string(),
        "/etc/passwd".to_string(),
    ];
    assert_eq!(cfg.ssh_args("/opt/bin/ssh", "/tmp").unwrap(), expected);
}

#[test]
fn ssh_args_nonzero_port() {
    let cfg = BackupHost {
        key: "/etc/passwd".to_string(),
        port: Some(2221),
        ..BackupHost::default()
    };
    let expected = vec![
        "/opt/bin/ssh".to_string(),
        "-a".to_string(),
        "-x".to_string(),
        "-oIdentitiesOnly=true".to_string(),
        "-i".to_string(),
        "/etc/passwd".to_string(),
        "-p".to_string(),
        "2221".to_string(),
    ];
    assert_eq!(cfg.ssh_args("/opt/bin/ssh", "/tmp").unwrap(), expected);
}

#[test]
fn get_host_matches_by_name() {
    let config = Config {
        snapshots: String::new(),
        hosts: vec![
            HostEntry {
                name: "host1".to_string(),
                host: BackupHost { user: "u1".to_string(), ..BackupHost::default() },
            },
            HostEntry {
                name: "host2".to_string(),
                host: BackupHost { user: "u2".to_string(), ..BackupHost::default() },
            },
        ],
    };
    assert_eq!(config.get_host("host2").unwrap().user, "u2");
    assert!(config.get_host("host3").is_none());
}

#[test]
fn get_source_matches_by_path_components() {
    let cfg = BackupHost {
        sources: vec![
            BackupSource { path: "/data/a".to_string(), root: false },
            BackupSource { path: "/data/b".to_string(), root: true },
        ],
        ..BackupHost::default()
    };
    assert!(cfg.get_source("/data/b").unwrap().root);
    // A trailing slash names the same directory.
    assert!(cfg.get_source("/data/b/").unwrap().root);
    // A parent traversal does not.
    assert!(cfg.get_source("/data/b/..").is_none());
    assert!(cfg.get_source("/data/c").is_none());
}
