//! Paths of the remote side.

use std::path::{Path, PathBuf};

use herdr_platform::{
    create_remote_private_dir, create_remote_ssh_config_dir, create_remote_ssh_config_file,
    fits_unix_socket_path, remote_bridge_endpoint_path, remote_ssh_config_paths, DirReply,
    ErrorKind, Fault, SearchProgress, SshDirError, UnixPath,
};

fn text_of(path: &UnixPath) -> String {
    String::from_utf8(path.as_bytes().to_vec()).unwrap()
}

fn taken() -> DirReply<&'static str> {
    DirReply::Failed(Fault {
        kind: ErrorKind::AlreadyExists,
        error: "taken",
    })
}

fn refused(error: &'static str) -> DirReply<&'static str> {
    DirReply::Failed(Fault {
        kind: ErrorKind::Other,
        error,
    })
}

/// Carries a search through, and lists what was tried.
fn search(
    temp_dir: &str,
    socket_name: &str,
    mut create: impl FnMut(&str) -> DirReply<&'static str>,
) -> (Vec<String>, Result<String, SshDirError<&'static str>>) {
    let mut tried = Vec::new();
    let mut progress =
        create_remote_ssh_config_dir(&UnixPath::from_text(temp_dir), 4711, socket_name);
    loop {
        match progress {
            SearchProgress::Try(at) => {
                let creation = at.directory();
                assert_eq!(creation.mode, 0o700);
                assert!(creation.must_be_new);
                let dir = text_of(&creation.path);
                let reply = create(&dir);
                tried.push(dir);
                progress = at.advance(reply);
            }
            SearchProgress::Finished(outcome) => {
                return (tried, outcome.map(|dir| text_of(&dir)));
            }
        }
    }
}

#[test]
fn remote_ssh_config_dir_rejects_overlong_control_socket_name() {
    let (tried, outcome) = search("/tmp", &"x".repeat(200), |_| DirReply::Created);
    let err = outcome.unwrap_err();
    assert_eq!(err.kind(), Some(ErrorKind::InvalidInput));
    assert_eq!(
        err.message(),
        Some("SSH control socket path exceeds the Unix socket length limit")
    );
    assert!(tried.is_empty());
}

#[test]
fn private_files_belong_to_their_owner() {
    let dir = create_remote_private_dir(UnixPath::from_text("/tmp/d"));
    assert_eq!((text_of(&dir.path), dir.mode), ("/tmp/d".to_string(), 0o700));
    assert!(dir.must_be_new);
    let file = create_remote_ssh_config_file(UnixPath::from_text("/tmp/d/config"));
    assert_eq!(
        (text_of(&file.path), file.mode),
        ("/tmp/d/config".to_string(), 0o600)
    );
    assert!(file.must_be_new, "what is there must not be truncated");
    assert!(file.for_writing);
}

#[test]
fn the_first_free_directory_is_taken() {
    let (tried, outcome) = search("/var/tmp", "ctl", |dir| {
        if dir.ends_with("-2") {
            DirReply::Created
        } else {
            taken()
        }
    });
    assert_eq!(
        tried,
        [
            "/var/tmp/herdr-ssh-4711-0",
            "/var/tmp/herdr-ssh-4711-1",
            "/var/tmp/herdr-ssh-4711-2"
        ]
    );
    assert_eq!(outcome.unwrap(), "/var/tmp/herdr-ssh-4711-2");
}

#[test]
fn a_long_temporary_directory_gives_way_to_slash_tmp() {
    let temp_dir = format!("/{}", "t".repeat(120));
    let (tried, outcome) = search(&temp_dir, "ctl", |_| DirReply::Created);
    assert_eq!(tried, ["/tmp/herdr-ssh-4711-0"]);
    assert_eq!(outcome.unwrap(), "/tmp/herdr-ssh-4711-0");
}

#[test]
fn a_failing_base_gives_way_to_the_next() {
    let (tried, outcome) = search("/ro", "ctl", |dir| {
        if dir.starts_with("/ro/") {
            refused("read-only")
        } else {
            DirReply::Created
        }
    });
    assert_eq!(tried, ["/ro/herdr-ssh-4711-0", "/tmp/herdr-ssh-4711-0"]);
    assert_eq!(outcome.unwrap(), "/tmp/herdr-ssh-4711-0");
}

#[test]
fn the_last_error_is_reported() {
    let (_, outcome) = search("/ro", "ctl", |dir| {
        refused(if dir.starts_with("/ro/") { "first" } else { "second" })
    });
    match outcome.unwrap_err() {
        SshDirError::Io(error) => assert_eq!(error, "second"),
        _ => panic!("an error was reported"),
    }
    let (tried, outcome) = search("/ro", "ctl", |dir| {
        if dir.starts_with("/ro/") {
            refused("first")
        } else {
            taken()
        }
    });
    assert_eq!(tried.len(), 101);
    let err = outcome.unwrap_err();
    assert_eq!(err.kind(), None);
    assert_eq!(err.message(), None);
    match err {
        SshDirError::Io(error) => assert_eq!(error, "first"),
        _ => panic!("an error was reported"),
    }
}

#[test]
fn a_search_ends_when_every_name_is_taken() {
    let (tried, outcome) = search("/var/tmp", "ctl", |_| taken());
    assert_eq!(tried.len(), 200);
    assert_eq!(tried[99], "/var/tmp/herdr-ssh-4711-99");
    assert_eq!(tried[199], "/tmp/herdr-ssh-4711-99");
    let err = outcome.unwrap_err();
    assert_eq!(err.kind(), Some(ErrorKind::AlreadyExists));
    assert_eq!(
        err.message(),
        Some("failed to create private herdr ssh config directory")
    );
}

#[test]
fn slash_tmp_is_not_searched_twice() {
    for temp_dir in ["/tmp", "/tmp/", "//tmp", "/./tmp/."] {
        let (tried, _) = search(temp_dir, "ctl", |_| taken());
        assert_eq!(tried.len(), 100, "{temp_dir}");
    }
    for temp_dir in ["", "tmp", "/tmp/..", "/tmp/x"] {
        let (tried, _) = search(temp_dir, "ctl", |_| taken());
        assert_eq!(tried.len(), 200, "{temp_dir}");
    }
}

#[test]
fn names_that_do_not_fit_are_passed_over() {
    // "/tmp/herdr-ssh-4711-N/" leaves room for 81 bytes with one numeral, and for
    // 80 with two.
    let socket_name = "s".repeat(81);
    let (tried, outcome) = search("/tmp", &socket_name, |_| taken());
    assert_eq!(tried.len(), 10);
    assert_eq!(outcome.unwrap_err().kind(), Some(ErrorKind::AlreadyExists));
    let (tried, _) = search("/tmp", &"s".repeat(80), |_| taken());
    assert_eq!(tried.len(), 100);
    let (tried, _) = search("/tmp", &"s".repeat(82), |_| taken());
    assert!(tried.is_empty());
}

#[test]
fn a_path_of_103_bytes_fits_a_socket_address() {
    assert!(fits_unix_socket_path(&UnixPath::from_text(&"a".repeat(103))));
    assert!(!fits_unix_socket_path(&UnixPath::from_text(&"a".repeat(104))));
    assert!(!fits_unix_socket_path(&UnixPath::from_text(&"\u{e9}".repeat(52))));
}

#[test]
fn the_readable_endpoint_is_preferred() {
    let tmp = UnixPath::from_text("/var/tmp");
    let endpoint = remote_bridge_endpoint_path(&tmp, "bridge-readable.sock", "b.sock");
    assert_eq!(text_of(&endpoint), "/var/tmp/bridge-readable.sock");
    let endpoint = remote_bridge_endpoint_path(&tmp, &"r".repeat(95), "b.sock");
    assert_eq!(text_of(&endpoint), "/var/tmp/b.sock");
    let long = UnixPath::from_text(&format!("/{}", "t".repeat(100)));
    let endpoint = remote_bridge_endpoint_path(&long, "bridge.sock", "b.sock");
    assert_eq!(text_of(&endpoint), "/tmp/b.sock");
    let endpoint = remote_bridge_endpoint_path(&long, &"r".repeat(99), &"b".repeat(98));
    assert_eq!(endpoint.as_bytes().len(), 103);
}

#[test]
fn ssh_reads_the_configuration_of_the_user_and_of_the_system() {
    let paths = remote_ssh_config_paths(Some(UnixPath::from_text("/home/u")));
    assert_eq!(text_of(&paths.user_config.unwrap()), "/home/u/.ssh/config");
    assert_eq!(text_of(&paths.system_config.unwrap()), "/etc/ssh/ssh_config");
    assert!(paths.multiplexing);
    assert!(remote_ssh_config_paths(None).user_config.is_none());
}

#[test]
fn paths_join_as_the_standard_library_joins_them() {
    for base in ["", "/", "a", "a/", "/a/b", "/a//", "."] {
        for name in ["", "x", "/", "/x", "x/y", "..", "./x", "x/"] {
            let expected: PathBuf = Path::new(base).join(name);
            let joined = UnixPath::from_text(base).join(name);
            assert_eq!(text_of(&joined), expected.to_str().unwrap(), "{base:?} {name:?}");
        }
    }
}

#[test]
fn paths_are_the_same_as_in_the_standard_library() {
    let spellings = [
        "", ".", "./", "./.", "..", "/", "//", "/.", "/tmp", "/tmp/", "//tmp", "/./tmp", "/tmp/.",
        "tmp", "./tmp", "tmp/.", "tmp//x", "tmp/x", "/tmp/..", "/tmp/x", ".tmp", "/.tmp", "a/./b",
        "a/b", "a/../b", "./a", ".//a", "././a",
    ];
    for a in spellings {
        for b in spellings {
            assert_eq!(
                UnixPath::from_text(a).same_as(&UnixPath::from_text(b)),
                Path::new(a) == Path::new(b),
                "{a:?} {b:?}"
            );
        }
    }
}
