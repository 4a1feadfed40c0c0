use doppelback::errors::DoppelbackError;
use doppelback::sudo::SudoCmd;

fn strings(tokens: &[&str]) -> Vec<String> {
    tokens.iter().map(|t| t.to_string()).collect()
}

#[test]
fn get_command_requires_absolute() {
    let sudo = SudoCmd { args: strings(&["rsync", "--sender"]) };
    assert!(matches!(
        sudo.get_command(false).unwrap_err(),
        DoppelbackError::InvalidPath(_)
    ));
}

#[test]
fn get_command_requires_absolute_whatever_the_grammar_said() {
    // Defense in depth: a relative path fails even when the grammar
    // collaborator would have accepted the argument list.
    let sudo = SudoCmd { args: strings(&["rsync", "--sender"]) };
    assert!(matches!(
        sudo.get_command(true).unwrap_err(),
        DoppelbackError::InvalidPath(_)
    ));
}

#[test]
fn get_command_rejects_unknown_command() {
    let sudo = SudoCmd { args: strings(&["/bin/nosuch"]) };
    let err = sudo.get_command(false).unwrap_err();
    assert!(matches!(err, DoppelbackError::PermissionDenied));
}

#[test]
fn get_command_rejects_empty_args() {
    let sudo = SudoCmd { args: Vec::new() };
    assert!(matches!(
        sudo.get_command(true).unwrap_err(),
        DoppelbackError::MissingArguments
    ));
}

#[test]
fn sudo_dangerous_rsync_args_are_filtered() {
    let sudo = SudoCmd {
        args: strings(&[
            "/usr/bin/rsync",
            "--server",
            "--sender",
            "--remove-sent-files",
            "--remove-source-files",
            ".",
            "/tmp/",
        ]),
    };
    assert_eq!(
        sudo.get_command(false).unwrap(),
        strings(&["/usr/bin/rsync", "--server", "--sender", ".", "/tmp/"])
    );
}

#[test]
fn rsync_source_must_be_canonical() {
    // `/tmp/../` survives the filter but not the canonical-form check.
    let sudo = SudoCmd {
        args: strings(&["/usr/bin/rsync", "--server", "--sender", "3", ".", "/tmp/../"]),
    };
    assert!(sudo.get_command(false).is_err());
}

#[test]
fn doppelback_invalid_args_rejected() {
    let doppelback = SudoCmd { args: strings(&["/usr/bin/doppelback", "--invalid"]) };
    assert!(doppelback.get_command(false).is_err());
}

#[test]
fn doppelback_args_are_validated() {
    let doppelback = SudoCmd {
        args: strings(&[
            "/usr/bin/doppelback",
            "--config",
            "/tmp/config.yaml",
            "config-test",
        ]),
    };
    assert_eq!(
        doppelback.get_command(true).unwrap(),
        strings(&[
            "/usr/bin/doppelback",
            "--config",
            "/tmp/config.yaml",
            "config-test",
        ])
    );
}
