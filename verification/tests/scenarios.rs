//! End-to-end runs of the guard: parse an untrusted request, then
//! resolve it with injected search-path answers.

use doppelback::config::{BackupHost, BackupSource};
use doppelback::errors::DoppelbackError;
use doppelback::ssh::SshCmd;

fn strings(tokens: &[&str]) -> Vec<String> {
    tokens.iter().map(|t| t.to_string()).collect()
}

fn tmp_host(root: bool) -> BackupHost {
    BackupHost {
        sources: vec![BackupSource { path: "/tmp".to_string(), root }],
        ..BackupHost::default()
    }
}

#[test]
fn rsync_pull_is_filtered_and_not_escalated() {
    let ssh = SshCmd {
        original_cmd: String::from(
            "rsync --server --sender --remove-sent-files --remove-source-files . /tmp/",
        ),
    };
    let parsed = ssh.get_command(&tmp_host(false)).unwrap();
    assert!(!parsed.sudo);

    let resolved = ssh
        .resolve_with(
            parsed,
            strings(&["/path/to/doppelback"]),
            Some("/usr/bin/rsync".to_string()),
            None,
        )
        .unwrap();
    let tail = &resolved[resolved.len() - 4..];
    assert_eq!(tail, &strings(&["--server", "--sender", ".", "/tmp/"])[..]);
    assert!(!resolved.iter().any(|t| t.starts_with("--remove-")));
}

#[test]
fn root_required_pull_takes_the_escalation_shape() {
    let ssh = SshCmd {
        original_cmd: String::from(
            "rsync --server --sender --remove-sent-files --remove-source-files . /tmp/",
        ),
    };
    let parsed = ssh.get_command(&tmp_host(true)).unwrap();
    assert!(parsed.sudo);

    let resolved = ssh
        .resolve_with(
            parsed,
            strings(&["/path/to/doppelback"]),
            Some("/usr/bin/rsync".to_string()),
            Some("/usr/bin/sudo".to_string()),
        )
        .unwrap();
    assert_eq!(
        &resolved[..4],
        &strings(&["/usr/bin/sudo", "--", "/path/to/doppelback", "sudo"])[..]
    );
    assert_eq!(resolved[4], "--");
    assert_eq!(
        &resolved[5..],
        &strings(&["/usr/bin/rsync", "--server", "--sender", ".", "/tmp/"])[..]
    );
}

#[test]
fn final_command_composes_parse_and_resolve() {
    // A self-referential request needs no search-path lookup, so the
    // whole pipeline runs deterministically.
    let ssh = SshCmd { original_cmd: String::from("doppelback config-test --type=source") };
    let args = doppelback::args::GlobalArgs {
        verbose: true,
        ..doppelback::args::GlobalArgs::default()
    };
    let command = ssh
        .final_command(&args, &tmp_host(false), "/path/to/doppelback".to_string())
        .unwrap();
    assert_eq!(
        command,
        strings(&[
            "/path/to/doppelback",
            "--verbose",
            "config-test",
            "--type=source",
        ])
    );
}

#[test]
fn unrecognized_program_is_refused() {
    let ssh = SshCmd { original_cmd: String::from("evil --server --sender . /tmp/") };
    let err = ssh.get_command(&tmp_host(false)).unwrap_err();
    assert!(matches!(err, DoppelbackError::PermissionDenied));
}
