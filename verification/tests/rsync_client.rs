use doppelback::config::{BackupHost, BackupSource, Config, HostEntry};
use doppelback::rsync_cmd::RsyncCmd;

#[test]
fn get_command_no_exclude() {
    let dir = "/backups/snapshots/live/host1.example.com/opt_backups";

    let rsync = RsyncCmd {
        host: String::from("host1.example.com"),
        source: String::from("/opt/backups"),
    };
    let command = rsync
        .get_command(
            "/opt/bin/rsync".to_string(),
            "backupuser",
            0,
            "/opt/sshkey",
            dir,
        )
        .unwrap();

    assert_eq!(command[0], "/opt/bin/rsync");
    assert!(command.contains(&"backupuser@host1.example.com:/opt/backups/".to_string()));
    assert!(command
        .iter()
        .any(|arg| arg.starts_with("--rsh=") && arg.contains("-i /opt/sshkey")));
    assert!(!command.iter().any(|arg| arg.starts_with("--exclude-from=")));
    assert_eq!(command.last().unwrap(), dir);
}

#[test]
fn get_command_no_port() {
    let dir = "/backups/snapshots/live/host1.example.com/opt_backups";

    let rsync = RsyncCmd {
        host: String::from("host1.example.com"),
        source: String::from("/opt/backups"),
    };
    let command = rsync
        .get_command(
            "/opt/bin/rsync".to_string(),
            "backupuser",
            0,
            "/opt/sshkey",
            dir,
        )
        .unwrap();

    assert!(command.iter().all(|arg| !arg.contains(" -p ")));
}

#[test]
fn get_command_nonzero_port() {
    let dir = "/backups/snapshots/live/host1.example.com/opt_backups";

    let rsync = RsyncCmd {
        host: String::from("host1.example.com"),
        source: String::from("/opt/backups"),
    };
    let command = rsync
        .get_command(
            "/opt/bin/rsync".to_string(),
            "backupuser",
            5555,
            "/opt/sshkey",
            dir,
        )
        .unwrap();

    assert!(command
        .iter()
        .any(|arg| arg.starts_with("--rsh=") && arg.contains(" -p 5555")));
    assert!(command.contains(&"backupuser@host1.example.com:/opt/backups/".to_string()));
    assert_eq!(command.last().unwrap(), dir);
}

#[test]
fn dest_dir_layout() {
    let rsync = RsyncCmd { host: String::from("host"), source: String::from("/backup") };
    assert_eq!(rsync.dest_dir("/snapshots"), "/snapshots/live/host/backup");
}

#[test]
fn rsync_find_ssh_key_absolute_path() {
    let rsync = RsyncCmd { host: String::from("example.com"), source: String::from("/tmp") };
    assert_eq!(
        rsync.find_ssh_key("/etc/passwd", "/nosuch"),
        Some("/etc/passwd".to_string())
    );
    assert_eq!(rsync.find_ssh_key("/no/such/key", "/nosuch"), None);
}

#[test]
fn check_config_requires_known_host_and_source() {
    let host = BackupHost {
        user: "backupuser".to_string(),
        sources: vec![BackupSource { path: "/opt/backups".to_string(), root: false }],
        ..BackupHost::default()
    };
    let config = Config {
        snapshots: "/tmp".to_string(),
        hosts: vec![HostEntry { name: "host1".to_string(), host }],
    };

    let unknown_host = RsyncCmd { host: "other".to_string(), source: "/opt/backups".to_string() };
    assert!(unknown_host.check_config(&config).is_err());

    let unknown_source = RsyncCmd { host: "host1".to_string(), source: "/elsewhere".to_string() };
    assert!(unknown_source.check_config(&config).is_err());
}
