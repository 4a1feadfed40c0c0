use doppelback::config::{BackupHost, BackupSource};
use doppelback::errors::DoppelbackError;
use doppelback::ssh::SshCmd;
use tempdir::TempDir;

#[test]
fn get_rsync_min_args() {
    let cmd = SshCmd { original_cmd: String::from("rsync -a /tmp .") };
    let host_config = BackupHost::default();
    assert!(cmd.get_command(&host_config).is_err());
}

#[test]
fn get_rsync_requires_server() {
    let cmd = SshCmd { original_cmd: String::from("rsync -a 2 3 4 5") };
    let host_config = BackupHost::default();
    assert!(cmd.get_command(&host_config).is_err());
}

#[test]
fn get_rsync_requires_sender() {
    let cmd = SshCmd { original_cmd: String::from("rsync --server 2 3 4 5") };
    let host_config = BackupHost::default();
    assert!(cmd.get_command(&host_config).is_err());
}

#[test]
fn get_rsync_requires_existing_directory() {
    // Directory doesn't exist.
    let cmd = SshCmd { original_cmd: String::from("rsync --server --sender 3 4 /no/such/") };
    let host_config = BackupHost::default();
    let result = cmd.get_command(&host_config);
    assert!(matches!(result.unwrap_err(), DoppelbackError::NotFound));
}

#[test]
fn get_rsync_requires_matching_source() {
    // Directory exists but isn't in config.
    let dir = TempDir::new("test").unwrap();
    let cmd = SshCmd {
        original_cmd: format!("rsync --server --sender 3 4 {}/", dir.path().display()),
    };
    let host_config = BackupHost::default();
    let result = cmd.get_command(&host_config);
    assert!(matches!(result.unwrap_err(), DoppelbackError::NotFound));
}

#[test]
fn ssh_dangerous_rsync_args_are_filtered() {
    let dir = TempDir::new("test").unwrap();

    let cmd = SshCmd {
        original_cmd: format!(
            "rsync --server --sender --remove-sent-files --remove-source-files . {}/",
            dir.path().display()
        ),
    };
    let source = BackupSource {
        path: dir.path().to_str().unwrap().to_string(),
        root: false,
    };
    let host_config = BackupHost { sources: vec![source], ..BackupHost::default() };
    let parsed = cmd.get_command(&host_config).unwrap();
    assert_eq!(parsed.command, "rsync".to_string());
    assert_eq!(
        parsed.args,
        vec![
            "--server".to_string(),
            "--sender".to_string(),
            ".".to_string(),
            format!("{}/", dir.path().display()),
        ]
    );
    assert!(!parsed.sudo);
}

#[test]
fn rsync_escalation_follows_matched_source() {
    let dir = TempDir::new("test").unwrap();
    let cmd = SshCmd {
        original_cmd: format!("rsync --server --sender -a . {}/", dir.path().display()),
    };
    let source = BackupSource {
        path: dir.path().to_str().unwrap().to_string(),
        root: true,
    };
    let host_config = BackupHost { sources: vec![source], ..BackupHost::default() };
    let parsed = cmd.get_command(&host_config).unwrap();
    assert!(parsed.sudo);
    assert!(parsed.source.unwrap().root);
}

#[test]
fn invalid_doppelback_subcommand_rejected() {
    let ssh = SshCmd { original_cmd: String::from("doppelback invalid") };

    let host_config = BackupHost::default();

    let parsed = ssh.get_command(&host_config).unwrap_err();
    assert!(matches!(parsed, DoppelbackError::PermissionDenied));
}

#[test]
fn invalid_doppelback_argument_rejected() {
    let ssh = SshCmd { original_cmd: String::from("doppelback config-test --invalid") };

    let host_config = BackupHost::default();

    let parsed = ssh.get_command(&host_config).unwrap_err();
    assert!(matches!(parsed, DoppelbackError::InvalidArguments));
}

#[test]
fn config_test_host_type_rejected_remotely() {
    let ssh = SshCmd { original_cmd: String::from("doppelback config-test --type=host") };
    let host_config = BackupHost::default();
    assert!(matches!(
        ssh.get_command(&host_config).unwrap_err(),
        DoppelbackError::InvalidArguments
    ));
}

#[test]
fn config_test_default_type_is_host_and_rejected() {
    let ssh = SshCmd { original_cmd: String::from("doppelback config-test") };
    let host_config = BackupHost::default();
    assert!(matches!(
        ssh.get_command(&host_config).unwrap_err(),
        DoppelbackError::InvalidArguments
    ));
}

#[test]
fn config_test_source_type_passes_tokens_through() {
    let ssh = SshCmd {
        original_cmd: String::from("doppelback config-test --type=source --source /data"),
    };
    let source = BackupSource { path: "/data".to_string(), root: true };
    let host_config = BackupHost { sources: vec![source], ..BackupHost::default() };
    let parsed = ssh.get_command(&host_config).unwrap();
    assert_eq!(parsed.command, "doppelback".to_string());
    assert_eq!(
        parsed.args,
        vec![
            "config-test".to_string(),
            "--type=source".to_string(),
            "--source".to_string(),
            "/data".to_string(),
        ]
    );
    assert!(parsed.sudo);
}

#[test]
fn config_test_type_is_case_insensitive() {
    let ssh = SshCmd { original_cmd: String::from("doppelback config-test --type=SOURCE") };
    let host_config = BackupHost::default();
    let parsed = ssh.get_command(&host_config).unwrap();
    assert_eq!(parsed.command, "doppelback".to_string());
    assert!(!parsed.sudo);
}

#[test]
fn empty_command_is_rejected() {
    let ssh = SshCmd { original_cmd: String::from("   ") };
    let host_config = BackupHost::default();
    assert!(matches!(
        ssh.get_command(&host_config).unwrap_err(),
        DoppelbackError::MissingArguments
    ));
}
