use doppelback::pathmodel::{
    is_absolute, path_file_name, path_join, path_with_extension, paths_equal, trim_slashes,
};
use doppelback::strutil::{split_ascii_ws, u64_to_string, u64_to_string_pad2};

#[test]
fn absolute_paths_start_with_a_slash() {
    assert!(is_absolute("/tmp"));
    assert!(!is_absolute("tmp"));
    assert!(!is_absolute(""));
}

#[test]
fn path_equality_ignores_spelling_differences() {
    assert!(paths_equal("/tmp", "/tmp/"));
    assert!(paths_equal("/tmp", "/tmp/."));
    assert!(paths_equal("/a//b", "/a/b"));
    assert!(paths_equal("a/./b", "a/b"));
    assert!(paths_equal("./a", "./a/"));
}

#[test]
fn path_equality_respects_real_differences() {
    assert!(!paths_equal("/tmp", "/tmp/.."));
    assert!(!paths_equal("/tmp", "tmp"));
    assert!(!paths_equal("./a", "a"));
    assert!(!paths_equal("/a/b", "/a/c"));
}

#[test]
fn file_name_is_the_last_real_segment() {
    assert_eq!(path_file_name("/usr/bin/rsync"), Some("rsync".to_string()));
    assert_eq!(path_file_name("/usr/bin/"), Some("bin".to_string()));
    assert_eq!(path_file_name("/usr/./rsync"), Some("rsync".to_string()));
    assert_eq!(path_file_name("/"), None);
    assert_eq!(path_file_name("/usr/.."), None);
    assert_eq!(path_file_name("/usr/../bin"), Some("bin".to_string()));
}

#[test]
fn join_inserts_exactly_one_separator() {
    assert_eq!(path_join("/snapshots", "live"), "/snapshots/live");
    assert_eq!(path_join("/snapshots/", "live"), "/snapshots/live");
    assert_eq!(path_join("", "live"), "live");
    assert_eq!(path_join("/a", "/b"), "/b");
}

#[test]
fn trim_slashes_removes_both_ends() {
    assert_eq!(trim_slashes("//a/b//"), "a/b");
    assert_eq!(trim_slashes("///"), "");
    assert_eq!(trim_slashes("a"), "a");
}

#[test]
fn with_extension_replaces_or_appends() {
    assert_eq!(
        path_with_extension("/x/opt_backups", "exclude"),
        "/x/opt_backups.exclude"
    );
    assert_eq!(
        path_with_extension("/x/opt_backups.dir", "exclude"),
        "/x/opt_backups.exclude"
    );
    assert_eq!(path_with_extension("/x/.hidden", "exclude"), "/x/.hidden.exclude");
}

// The escalation guard dispatches on the final path component and the
// policy store compares paths component-wise, exactly as the platform's
// path type does; these cases pin the model to the platform.

#[test]
fn file_name_matches_the_platform() {
    let cases = [
        "/usr/bin/rsync",
        "/usr/bin/",
        "/usr/./rsync",
        "/usr/bin/.",
        "/",
        "//",
        "/usr/..",
        "/usr/../bin",
        "relative",
        ".",
        "..",
        "./x",
        "//x//y//",
        "/.hidden",
        "",
    ];
    for p in cases {
        let expected = std::path::Path::new(p)
            .file_name()
            .map(|s| s.to_string_lossy().into_owned());
        assert_eq!(path_file_name(p), expected, "file_name of {:?}", p);
    }
}

#[test]
fn path_equality_matches_the_platform() {
    let cases = [
        ("/tmp", "/tmp/"),
        ("/tmp", "/tmp/."),
        ("/tmp", "/tmp/.."),
        ("/a//b", "/a/b"),
        ("a/./b", "a/b"),
        ("./a", "./a/"),
        ("./a", "a"),
        ("/tmp", "tmp"),
        ("/a/b", "/a/c"),
        ("", ""),
        ("", "."),
        ("/", "//"),
        ("..", "../."),
    ];
    for (a, b) in cases {
        assert_eq!(
            paths_equal(a, b),
            std::path::Path::new(a) == std::path::Path::new(b),
            "equality of {:?} and {:?}",
            a,
            b
        );
    }
}

#[test]
fn join_matches_the_platform() {
    let cases = [
        ("/snapshots", "live"),
        ("/snapshots/", "live"),
        ("", "live"),
        ("/a", "/b"),
        ("/a", "b/c"),
        ("/a", ""),
    ];
    for (a, b) in cases {
        let expected = std::path::Path::new(a).join(b).to_string_lossy().into_owned();
        assert_eq!(path_join(a, b), expected, "join of {:?} and {:?}", a, b);
    }
}

#[test]
fn with_extension_matches_the_platform() {
    let cases = [
        ("/x/opt_backups", "exclude"),
        ("/x/opt_backups.dir", "exclude"),
        ("/x/.hidden", "exclude"),
        ("/x/a.b.c", "exclude"),
        ("rel/file.txt", "snapshot"),
    ];
    for (p, ext) in cases {
        let expected = std::path::Path::new(p)
            .with_extension(ext)
            .to_string_lossy()
            .into_owned();
        assert_eq!(path_with_extension(p, ext), expected, "with_extension of {:?}", p);
    }
}

#[test]
fn tokenizer_splits_on_ascii_whitespace_runs() {
    let toks = split_ascii_ws("  rsync\t--server\n--sender  .  /tmp/ ");
    assert_eq!(
        toks,
        vec![
            "rsync".to_string(),
            "--server".to_string(),
            "--sender".to_string(),
            ".".to_string(),
            "/tmp/".to_string(),
        ]
    );
    assert_eq!(split_ascii_ws(""), Vec::<String>::new());
    assert_eq!(split_ascii_ws(" \t\r\n"), Vec::<String>::new());
}

#[test]
fn decimal_rendering() {
    assert_eq!(u64_to_string(0), "0");
    assert_eq!(u64_to_string(2221), "2221");
    assert_eq!(u64_to_string_pad2(7), "07");
    assert_eq!(u64_to_string_pad2(59), "59");
    assert_eq!(u64_to_string_pad2(123), "123");
}
