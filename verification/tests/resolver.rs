use doppelback::ssh::{ParsedCmd, SshCmd};

fn strings(tokens: &[&str]) -> Vec<String> {
    tokens.iter().map(|t| t.to_string()).collect()
}

#[test]
fn non_root_command_resolves() {
    let parsed = ParsedCmd {
        command: "rsync".to_string(),
        args: strings(&["--server", "--sender", ".", "/tmp/"]),
        source: None,
        sudo: false,
    };
    let ssh = SshCmd {
        original_cmd: String::from(
            "rsync --server --sender --remove-sent-files --remove-source-files . /tmp/",
        ),
    };

    let self_args = strings(&["/path/to/doppelback"]);
    let expected = strings(&["/fake/bin/rsync", "--server", "--sender", ".", "/tmp/"]);

    let resolved = ssh
        .resolve_with(parsed, self_args, Some("/fake/bin/rsync".to_string()), None)
        .unwrap();
    assert_eq!(resolved, expected);
}

#[test]
fn root_command_resolves() {
    let parsed = ParsedCmd {
        command: "rsync".to_string(),
        args: strings(&["--server", "--sender", ".", "/tmp/"]),
        source: None,
        sudo: true,
    };
    let ssh = SshCmd {
        original_cmd: String::from(
            "rsync --server --sender --remove-sent-files --remove-source-files . /tmp/",
        ),
    };

    let self_args = strings(&["/path/to/doppelback", "--arg"]);
    let expected = strings(&[
        "/fake/bin/sudo",
        "--",
        "/path/to/doppelback",
        "--arg",
        "sudo",
        "--",
        "/fake/bin/rsync",
        "--server",
        "--sender",
        ".",
        "/tmp/",
    ]);

    let resolved = ssh
        .resolve_with(
            parsed,
            self_args,
            Some("/fake/bin/rsync".to_string()),
            Some("/fake/bin/sudo".to_string()),
        )
        .unwrap();
    assert_eq!(resolved, expected);
}

#[test]
fn non_root_self_resolves() {
    let parsed = ParsedCmd {
        command: "doppelback".to_string(),
        args: strings(&["config-test"]),
        source: None,
        sudo: false,
    };
    let ssh = SshCmd { original_cmd: String::from("doppelback config-test") };

    let self_args = strings(&["/path/to/doppelback", "--arg"]);
    let expected = strings(&["/path/to/doppelback", "--arg", "config-test"]);

    let resolved = ssh.resolve_with(parsed, self_args, None, None).unwrap();
    assert_eq!(resolved, expected);
}

#[test]
fn root_self_resolves() {
    let parsed = ParsedCmd {
        command: "doppelback".to_string(),
        args: strings(&["config-test"]),
        source: None,
        sudo: true,
    };
    let ssh = SshCmd { original_cmd: String::from("doppelback config-test") };

    let self_args = strings(&["/path/to/doppelback", "--arg"]);
    let expected = strings(&[
        "/fake/bin/sudo",
        "--",
        "/path/to/doppelback",
        "--arg",
        "sudo",
        "--",
        "/path/to/doppelback",
        "--arg",
        "config-test",
    ]);

    let resolved = ssh
        .resolve_with(parsed, self_args, None, Some("/fake/bin/sudo".to_string()))
        .unwrap();
    assert_eq!(resolved, expected);
}

#[test]
fn missing_program_fails_resolution() {
    let parsed = ParsedCmd {
        command: "rsync".to_string(),
        args: strings(&["--server", "--sender", ".", "/tmp/"]),
        source: None,
        sudo: false,
    };
    let ssh = SshCmd { original_cmd: String::new() };
    assert!(ssh
        .resolve_with(parsed, strings(&["/path/to/doppelback"]), None, None)
        .is_err());
}

#[test]
fn missing_escalation_exe_fails_resolution() {
    let parsed = ParsedCmd {
        command: "rsync".to_string(),
        args: strings(&["--server", "--sender", ".", "/tmp/"]),
        source: None,
        sudo: true,
    };
    let ssh = SshCmd { original_cmd: String::new() };
    assert!(ssh
        .resolve_with(
            parsed,
            strings(&["/path/to/doppelback"]),
            Some("/fake/bin/rsync".to_string()),
            None,
        )
        .is_err());
}

#[test]
fn resolve_command_searches_the_real_path() {
    // `sh` exists on any reasonable search path; the resolver must hand
    // back an absolute location of it, not the bare name.
    let parsed = ParsedCmd {
        command: "sh".to_string(),
        args: strings(&["-c", "true"]),
        source: None,
        sudo: false,
    };
    let ssh = SshCmd { original_cmd: String::new() };
    let resolved = ssh
        .resolve_command(parsed, strings(&["/path/to/doppelback"]))
        .unwrap();
    assert!(resolved[0].starts_with('/'));
    assert!(resolved[0].ends_with("/sh"));
    assert_eq!(&resolved[1..], &["-c".to_string(), "true".to_string()]);
}
