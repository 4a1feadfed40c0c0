use doppelback::errors::DoppelbackError;
use doppelback::rsync_util::{check_source_path, filter_args};

fn strings(tokens: &[&str]) -> Vec<String> {
    tokens.iter().map(|t| t.to_string()).collect()
}

#[test]
fn filter_args_removes_dangerous() {
    let original_cmd = strings(&[
        "--server",
        "--sender",
        "--remove-sent-files",
        "--remove-source-files",
        ".",
        "/tmp/",
    ]);
    assert_eq!(
        filter_args(&original_cmd).unwrap(),
        strings(&["--server", "--sender", ".", "/tmp/"])
    );
}

#[test]
fn filter_args_too_few_tokens() {
    let cmd = strings(&["--server", "--sender", "."]);
    assert!(matches!(
        filter_args(&cmd).unwrap_err(),
        DoppelbackError::TooFewArguments
    ));
}

#[test]
fn filter_args_requires_server_first() {
    let cmd = strings(&["--sender", "--server", "3", "4", "5"]);
    assert!(matches!(
        filter_args(&cmd).unwrap_err(),
        DoppelbackError::UnexpectedShape
    ));
}

#[test]
fn filter_args_requires_sender_second() {
    let cmd = strings(&["--server", "-x", "3", "4", "5"]);
    assert!(matches!(
        filter_args(&cmd).unwrap_err(),
        DoppelbackError::UnexpectedShape
    ));
}

#[test]
fn filter_args_keeps_order_and_is_idempotent() {
    let cmd = strings(&[
        "--server",
        "--sender",
        "-a",
        "--remove-sent-files",
        "-b",
        "--remove-source-files",
        "-c",
        "/data/",
    ]);
    let once = filter_args(&cmd).unwrap();
    assert_eq!(
        once,
        strings(&["--server", "--sender", "-a", "-b", "-c", "/data/"])
    );
    let twice = filter_args(&once).unwrap();
    assert_eq!(twice, once);
}

#[test]
fn filter_args_drops_unsafe_flags_anywhere() {
    let cmd = strings(&[
        "--server",
        "--sender",
        ".",
        "/x/",
        "--remove-sent-files",
    ]);
    let filtered = filter_args(&cmd).unwrap();
    assert!(!filtered.iter().any(|t| t == "--remove-sent-files"));
    assert!(!filtered.iter().any(|t| t == "--remove-source-files"));
}

#[test]
fn check_source_path_fails_without_path() {
    let cmd = strings(&[
        "--server",
        "--sender",
        "--remove-sent-files",
        "--remove-source-files",
    ]);
    assert!(check_source_path(&cmd).is_err());
}

#[test]
fn check_source_path_fails_for_non_canonical_path() {
    let cmd = strings(&[
        "--server",
        "--sender",
        "--remove-sent-files",
        "--remove-source-files",
        "/tmp/../",
    ]);
    assert!(check_source_path(&cmd).is_err());
}

#[test]
fn check_source_path_succeeds_for_real_path() {
    let cmd = strings(&[
        "--server",
        "--sender",
        "--remove-sent-files",
        "--remove-source-files",
        "/tmp",
    ]);
    assert!(check_source_path(&cmd).is_ok());
}
