//! The machine's name, clock and processes, and a plugin's environment.

use std::path::Path;

use herdr_platform::{
    chars_of, contains_text, datetime_from_tm, digits_of, hostname, node_name,
    set_default_plugin_pane_pwd, set_default_pwd, status_commands_supported, BrokenDownTime,
    ErrorKind, GuardError, LocalDateTime, StatusCommandGuard, UnixPath,
};

#[test]
fn plugin_pane_pwd_defaults_to_cwd_without_overriding_explicit_env() {
    let cwd = UnixPath::from_text("/plugin-cwd");
    let mut derived = vec![("OTHER".to_string(), "value".to_string())];
    set_default_plugin_pane_pwd(&mut derived, &cwd);
    assert!(derived.contains(&("PWD".to_string(), "/plugin-cwd".to_string())));

    let mut explicit = vec![("PWD".to_string(), "/caller-pwd".to_string())];
    set_default_plugin_pane_pwd(&mut explicit, &cwd);
    assert_eq!(explicit, [("PWD".to_string(), "/caller-pwd".to_string())]);
}

#[test]
fn a_default_is_set_once() {
    let mut env = Vec::new();
    set_default_pwd(&mut env, "/first".to_string());
    set_default_pwd(&mut env, "/second".to_string());
    assert_eq!(env, [("PWD".to_string(), "/first".to_string())]);
}

#[test]
fn a_working_directory_is_shown_as_the_standard_library_shows_it() {
    for bytes in [&b"/plain"[..], "/caf\u{e9}".as_bytes()] {
        let mut env = Vec::new();
        set_default_plugin_pane_pwd(&mut env, &UnixPath::from_bytes(bytes.to_vec()));
        let text = String::from_utf8(bytes.to_vec()).unwrap();
        assert_eq!(env[0].1, Path::new(&text).display().to_string());
    }
    let mut env = Vec::new();
    set_default_plugin_pane_pwd(&mut env, &UnixPath::from_bytes(b"/a\xffb".to_vec()));
    assert_eq!(env[0].1, "/a\u{fffd}b");
}

#[test]
fn a_host_name_ends_at_the_first_zero() {
    let mut buffer = [0u8; 256];
    buffer[..6].copy_from_slice(b"node-1");
    assert_eq!(hostname(0, &buffer), Some("node-1".to_string()));
    buffer[8] = b'x';
    assert_eq!(hostname(0, &buffer), Some("node-1".to_string()));
    assert_eq!(hostname(-1, &buffer), None);
    assert_eq!(hostname(0, &[b'a'; 256]), Some("a".repeat(256)));
    assert_eq!(hostname(0, &[0u8; 256]), None);
    assert_eq!(hostname(0, &[]), None);
    assert_eq!(hostname(0, b"n\xffo\0"), Some("n\u{fffd}o".to_string()));
}

#[test]
fn an_empty_name_is_none() {
    assert_eq!(node_name(String::new()), None);
    assert_eq!(node_name("n".to_string()), Some("n".to_string()));
}

fn tm(year: i32, mon: i32, mday: i32, hour: i32, min: i32, sec: i32) -> BrokenDownTime {
    BrokenDownTime {
        tm_year: year,
        tm_mon: mon,
        tm_mday: mday,
        tm_hour: hour,
        tm_min: min,
        tm_sec: sec,
    }
}

#[test]
fn a_broken_down_time_becomes_a_date_and_a_time() {
    assert_eq!(
        datetime_from_tm(&tm(126, 10, 14, 23, 18, 5)),
        Some(LocalDateTime {
            year: 2026,
            month: 11,
            day: 14,
            hour: 23,
            minute: 18,
            second: 5,
        })
    );
    assert_eq!(
        datetime_from_tm(&tm(-11899, 0, 1, 0, 0, 0)).map(|d| (d.year, d.month, d.day)),
        Some((-9999, 1, 1))
    );
    assert_eq!(
        datetime_from_tm(&tm(8099, 11, 31, 23, 59, 59)).map(|d| (d.year, d.month, d.day)),
        Some((9999, 12, 31))
    );
}

#[test]
fn what_no_calendar_has_is_none() {
    assert!(datetime_from_tm(&tm(100, 1, 29, 0, 0, 0)).is_some());
    assert!(datetime_from_tm(&tm(0, 1, 29, 0, 0, 0)).is_none());
    assert!(datetime_from_tm(&tm(124, 1, 29, 0, 0, 0)).is_some());
    assert!(datetime_from_tm(&tm(123, 1, 29, 0, 0, 0)).is_none());
    assert!(datetime_from_tm(&tm(-1904, 1, 29, 0, 0, 0)).is_some());
    assert!(datetime_from_tm(&tm(-1901, 1, 29, 0, 0, 0)).is_none());
    for (month, days) in [31, 29, 31, 30, 31, 30, 31, 31, 30, 31, 30, 31].iter().enumerate() {
        assert!(datetime_from_tm(&tm(124, month as i32, *days, 0, 0, 0)).is_some());
        assert!(datetime_from_tm(&tm(124, month as i32, *days + 1, 0, 0, 0)).is_none());
    }
    assert!(datetime_from_tm(&tm(124, -1, 1, 0, 0, 0)).is_none());
    assert!(datetime_from_tm(&tm(124, 12, 1, 0, 0, 0)).is_none());
    assert!(datetime_from_tm(&tm(124, 256, 1, 0, 0, 0)).is_none());
    assert!(datetime_from_tm(&tm(124, i32::MIN, 1, 0, 0, 0)).is_none());
    assert!(datetime_from_tm(&tm(124, 0, 0, 0, 0, 0)).is_none());
    assert!(datetime_from_tm(&tm(124, 0, 257, 0, 0, 0)).is_none());
    assert!(datetime_from_tm(&tm(124, 0, -1, 0, 0, 0)).is_none());
    assert!(datetime_from_tm(&tm(8100, 0, 1, 0, 0, 0)).is_none());
    assert!(datetime_from_tm(&tm(-11900, 0, 1, 0, 0, 0)).is_none());
    assert!(datetime_from_tm(&tm(124, 0, 1, 24, 0, 0)).is_none());
    assert!(datetime_from_tm(&tm(124, 0, 1, 0, 60, 0)).is_none());
    assert!(datetime_from_tm(&tm(124, 0, 1, 0, 0, 60)).is_none());
    assert!(datetime_from_tm(&tm(124, 0, 1, -1, 0, 0)).is_none());
    assert!(datetime_from_tm(&tm(124, 0, 1, 256, 0, 0)).is_none());
}

#[test]
fn a_command_is_killed_once_with_its_group() {
    assert!(status_commands_supported());
    let mut guard = StatusCommandGuard::new(Some(4711)).unwrap();
    assert_eq!(guard.terminate(), Some(-4711));
    assert_eq!(guard.terminate(), None);
    assert_eq!(guard.terminate(), None);
    let mut last = StatusCommandGuard::new(Some(2_147_483_647)).unwrap();
    assert_eq!(last.terminate(), Some(-2_147_483_647));
}

#[test]
fn a_command_without_a_usable_process_is_not_guarded() {
    let none = StatusCommandGuard::new(None).unwrap_err();
    assert_eq!(none, GuardError::NoProcessId);
    assert_eq!(none.kind(), ErrorKind::Other);
    assert_eq!(none.message(), "status command has no process id");
    let large = StatusCommandGuard::new(Some(2_147_483_648)).unwrap_err();
    assert_eq!(large, GuardError::ProcessIdTooLarge);
    assert_eq!(large.kind(), ErrorKind::Other);
    assert_eq!(large.message(), "status command process id exceeds i32");
}

#[test]
fn numbers_are_written_as_the_standard_library_writes_them() {
    for n in [0u128, 1, 9, 10, 15, 16, 99, 100, 255, 4_294_967_295, u128::MAX] {
        assert_eq!(digits_of(n, 10), format!("{n}"));
        assert_eq!(digits_of(n, 16), format!("{n:x}"));
    }
    assert_eq!(digits_of(5, 2), "101");
}

#[test]
fn a_text_is_found_where_it_stands() {
    for (haystack, needle) in [
        ("fish", "fish"),
        ("/usr/bin/fish", "fish"),
        ("fishing", "fish"),
        ("fis", "fish"),
        ("ffish", "fish"),
        ("f-i-s-h", "fish"),
        ("", ""),
        ("a", ""),
        ("\u{e9}fish", "fish"),
    ] {
        assert_eq!(contains_text(haystack, needle), haystack.contains(needle));
    }
    assert_eq!(chars_of("a\u{e9}"), ['a', '\u{e9}']);
}
