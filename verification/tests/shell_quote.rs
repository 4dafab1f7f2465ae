//! Quoting for a POSIX shell.

use herdr_platform::{remote_reattach_argument, remote_reattach_program, shell_quote};

#[test]
fn a_plain_word_is_left_alone() {
    let plain = "azAZ09@%_+=:,./-";
    assert_eq!(shell_quote(plain), plain);
    assert_eq!(shell_quote("/usr/bin/env"), "/usr/bin/env");
}

#[test]
fn anything_else_is_quoted() {
    assert_eq!(shell_quote(""), "''");
    assert_eq!(shell_quote("a b"), "'a b'");
    assert_eq!(shell_quote("$HOME"), "'$HOME'");
    assert_eq!(shell_quote("caf\u{e9}"), "'caf\u{e9}'");
    assert_eq!(shell_quote("a\nb"), "'a\nb'");
    assert_eq!(shell_quote("~"), "'~'");
    assert_eq!(shell_quote("a\\b"), "'a\\b'");
}

#[test]
fn a_single_quote_is_escaped() {
    assert_eq!(shell_quote("it's"), "'it'\\''s'");
    assert_eq!(shell_quote("'"), "''\\'''");
    assert_eq!(shell_quote("''"), "''\\'''\\'''");
}

/// One word, as a shell reads it.
fn read_word(line: &str) -> Option<String> {
    let mut word = String::new();
    let mut quoting = false;
    let mut chars = line.chars();
    while let Some(c) = chars.next() {
        if c == '\'' {
            quoting = !quoting;
        } else if quoting {
            word.push(c);
        } else if c == '\\' {
            word.push(chars.next()?);
        } else if c.is_whitespace() {
            return None;
        } else {
            word.push(c);
        }
    }
    if quoting {
        None
    } else {
        Some(word)
    }
}

#[test]
fn the_shell_reads_back_what_was_quoted() {
    for text in ["", "a", "a b", "'", "''", "a'b'c", "\\'", "$(rm -rf /)", "\u{1f600} '"] {
        assert_eq!(read_word(&shell_quote(text)), Some(text.to_string()));
    }
}

#[test]
fn different_texts_are_quoted_differently() {
    let texts = ["", "''", "'", "a", "'a'", "a b", "a'b", "a\\b"];
    for a in texts {
        for b in texts {
            assert_eq!(shell_quote(a) == shell_quote(b), a == b);
        }
    }
}

#[test]
fn a_reattach_runs_the_program() {
    assert_eq!(remote_reattach_program(""), "herdr");
    assert_eq!(remote_reattach_program("/opt/my herdr"), "'/opt/my herdr'");
    assert_eq!(remote_reattach_program("herdr-dev"), "herdr-dev");
    assert_eq!(remote_reattach_argument(""), "''");
    assert_eq!(remote_reattach_argument("--host"), "--host");
    assert_eq!(remote_reattach_argument("a'b"), "'a'\\''b'");
}
