use doppelback::args::{Command, GlobalArgs};
use doppelback::backup::PullBackupCmd;
use doppelback::snapshots::MakeSnapshotCmd;
use doppelback::ssh::SshCmd;
use doppelback::sudo::SudoCmd;

#[test]
fn default_args_are_empty() {
    let args = GlobalArgs::default();
    assert_eq!(args.as_cli_args(), Vec::<String>::new());
}

#[test]
fn verbose_is_added() {
    let args = GlobalArgs { verbose: true, ..GlobalArgs::default() };
    let cli_args: Vec<_> = args
        .as_cli_args()
        .iter()
        .filter(|a| *a == "--verbose")
        .cloned()
        .collect();
    assert_eq!(cli_args.len(), 1);
}

#[test]
fn dry_run_is_added() {
    let args = GlobalArgs { dry_run: true, ..GlobalArgs::default() };
    let cli_args: Vec<_> = args
        .as_cli_args()
        .iter()
        .filter(|a| *a == "--dry_run")
        .cloned()
        .collect();
    assert_eq!(cli_args.len(), 1);
}

#[test]
fn log_is_serialized() {
    let args = GlobalArgs {
        log: Some("/work/log.txt".to_string()),
        ..GlobalArgs::default()
    };
    assert_eq!(args.as_cli_args(), vec!["--log=/work/log.txt".to_string()]);
}

#[test]
fn config_is_serialized() {
    let args = GlobalArgs {
        config: "/work/config.yaml".to_string(),
        ..GlobalArgs::default()
    };
    assert_eq!(args.as_cli_args(), vec!["--config=/work/config.yaml".to_string()]);
}

#[test]
fn host_is_added() {
    let args = GlobalArgs { host: Some(String::from("localhost")), ..GlobalArgs::default() };
    let cli_args: Vec<_> = args
        .as_cli_args()
        .iter()
        .filter(|a| *a == "--host=localhost")
        .cloned()
        .collect();
    assert_eq!(cli_args.len(), 1);
}

#[test]
fn all_args_keep_a_fixed_order() {
    let args = GlobalArgs {
        verbose: true,
        dry_run: true,
        log: Some("/l".to_string()),
        config: "/c".to_string(),
        host: Some("h".to_string()),
    };
    assert_eq!(
        args.as_cli_args(),
        vec![
            "--verbose".to_string(),
            "--dry_run".to_string(),
            "--log=/l".to_string(),
            "--config=/c".to_string(),
            "--host=h".to_string(),
        ]
    );
}

#[test]
fn command_names() {
    let ssh = Command::Ssh(SshCmd { original_cmd: String::new() });
    assert_eq!(ssh.name(), "ssh");
    let sudo = Command::Sudo(SudoCmd { args: Vec::new() });
    assert_eq!(sudo.name(), "sudo");
    let snap = Command::MakeSnapshot(MakeSnapshotCmd { date: None });
    assert_eq!(snap.name(), "make-snapshot");
    let pull = Command::PullBackup(PullBackupCmd { all: false });
    assert_eq!(pull.name(), "pull-backup");
}

#[test]
fn snapshot_candidate_names() {
    assert_eq!(
        MakeSnapshotCmd::candidate_path("/snapshots", "20210704", 0),
        "/snapshots/20210704.00"
    );
    assert_eq!(
        MakeSnapshotCmd::candidate_path("/snapshots", "20210704", 2),
        "/snapshots/20210704.02"
    );
    let cmd = MakeSnapshotCmd { date: None };
    assert_eq!(
        cmd.get_command("/sbin/btrfs", "/snapshots/live", "/snapshots/20210704.00"),
        vec![
            "/sbin/btrfs".to_string(),
            "subvolume".to_string(),
            "snapshot".to_string(),
            "-r".to_string(),
            "/snapshots/live".to_string(),
            "/snapshots/20210704.00".to_string(),
        ]
    );
}
