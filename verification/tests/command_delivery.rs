//! Staging commands, on a disk that is kept in memory.

use herdr_platform::command_delivery::MAX_TYPED_COMMAND;
use herdr_platform::command_delivery_windows;
use herdr_platform::{
    payload_dir, payload_name, shell_command, shell_path, shell_quote, stage, stage_in, Delivery,
    ErrorKind, StageAction, StageError, StageEvent, StageFailure, StageProgress, StagedCommand,
    Staging, UnixPath,
};

/// A disk: its directories and files, with their modes.
struct Disk {
    dirs: Vec<(Vec<u8>, u32)>,
    files: Vec<(Vec<u8>, u32, String)>,
    synced: bool,
    /// The time, in nanoseconds since the epoch.
    nanos: u128,
    /// The number of the action on the disk that fails.
    fails_at: Option<usize>,
    actions: usize,
}

impl Disk {
    fn new() -> Disk {
        Disk {
            dirs: Vec::new(),
            files: Vec::new(),
            synced: false,
            nanos: 0x17f3_a2b4_c5d6_e7f8,
            fails_at: None,
            actions: 0,
        }
    }

    fn failing_at(action: usize) -> Disk {
        let mut disk = Disk::new();
        disk.fails_at = Some(action);
        disk
    }

    fn dir_mode(&self, dir: &UnixPath) -> Option<u32> {
        self.dirs
            .iter()
            .find(|entry| entry.0 == dir.as_bytes())
            .map(|entry| entry.1)
    }

    fn file(&self, path: &UnixPath) -> Option<(u32, String)> {
        self.files
            .iter()
            .find(|entry| entry.0 == path.as_bytes())
            .map(|entry| (entry.1, entry.2.clone()))
    }

    fn remove(&mut self, path: &UnixPath) {
        self.files.retain(|entry| entry.0 != path.as_bytes());
    }

    fn perform(&mut self, action: &StageAction) -> StageEvent<usize> {
        let number = self.actions;
        self.actions += 1;
        if self.fails_at == Some(number) {
            return StageEvent::Failed(number);
        }
        match action {
            StageAction::CreateDir(dir) => self.dirs.push((dir.as_bytes().to_vec(), 0o755)),
            StageAction::RestrictDir(dir, mode) => {
                for entry in self.dirs.iter_mut() {
                    if entry.0 == dir.as_bytes() {
                        entry.1 = *mode;
                    }
                }
            }
            StageAction::CreatePayload(creation) => {
                if self.file(&creation.path).is_some() {
                    if creation.must_be_new {
                        return StageEvent::Failed(number);
                    }
                    self.remove(&creation.path);
                }
                assert!(creation.for_writing);
                let path = creation.path.as_bytes().to_vec();
                self.files.push((path, creation.mode, String::new()))
            }
            StageAction::Write(text) => {
                let last = self.files.last_mut().expect("an open file");
                last.2.push_str(text);
                self.synced = false;
            }
            StageAction::Sync => self.synced = true,
            StageAction::Compose(..) => panic!("not for the disk"),
        }
        StageEvent::Done
    }
}

/// Words as a POSIX shell reads them back.
fn compose(argv: &Vec<String>, _shell_name: &str) -> Option<String> {
    let words: Vec<String> = argv.iter().map(|word| shell_quote(word)).collect();
    Some(words.join(" "))
}

fn carry_through(
    staging: Staging,
    disk: &mut Disk,
    composer: impl Fn(&Vec<String>, &str) -> Option<String>,
) -> Result<StagedCommand, StageFailure<usize>> {
    let mut staging = staging;
    loop {
        let action = staging.action();
        let event = match &action {
            StageAction::Compose(argv, shell_name) => {
                let words: Vec<&str> = argv.iter().map(|word| word.as_str()).collect();
                StageEvent::Composed(shell_command(&words, shell_name, &composer))
            }
            other => disk.perform(other),
        };
        match staging.advance(event) {
            StageProgress::Perform(next) => staging = next,
            StageProgress::Finished(outcome) => return outcome,
        }
    }
}

/// Stages a command, each at an instant of its own.
fn staged(
    dir: &UnixPath,
    command: &str,
    shell_name: &str,
    label: &str,
    disk: &mut Disk,
) -> StagedCommand {
    disk.nanos += 1_000;
    let staging = stage_in(dir, command, shell_name, label, 4711, disk.nanos);
    match carry_through(staging, disk, compose) {
        Ok(command) => command,
        Err(_) => panic!("stage"),
    }
}

fn text_of(path: &UnixPath) -> String {
    String::from_utf8(path.as_bytes().to_vec()).unwrap()
}

#[test]
fn an_ordinary_command_is_typed_unchanged() {
    match stage("agent --model sonnet", "zsh", "agent-main") {
        Delivery::Typed(staged) => {
            assert_eq!(staged.text, "agent --model sonnet");
            assert!(staged.payload.is_none());
            assert!(staged.discard().is_none());
        }
        Delivery::ToFile(_) => panic!("no payload directory should be created"),
    }
}

#[test]
fn an_over_long_command_is_staged_to_a_file() {
    let dir = UnixPath::from_text("/tmp/herdr-staged-over-long");
    let mut disk = Disk::new();
    let command = format!("agent --append-system-prompt '{}'", "A".repeat(4000));
    let staged = staged(&dir, &command, "zsh", "agent-main", &mut disk);

    let path = staged.payload.clone().expect("payload path");
    assert!(
        staged.text.len() < MAX_TYPED_COMMAND,
        "the typed line must be short, got {}: {}",
        staged.text.len(),
        staged.text
    );
    assert!(staged.text.starts_with(". "), "typed: {}", staged.text);
    assert!(
        staged.text.contains("agent-main"),
        "typed: {}",
        staged.text
    );

    let (mode, body) = disk.file(&path).expect("payload readable");
    assert!(
        body.lines()
            .next()
            .expect("first line")
            .starts_with("rm -f --"),
        "the payload must remove itself first: {body:?}"
    );
    assert!(
        body.contains(&command),
        "the payload must carry the command"
    );
    assert_eq!(mode & 0o777, 0o600, "payload must not be world readable");
    assert_eq!(disk.dir_mode(&dir).expect("dir metadata") & 0o777, 0o700);
    assert!(disk.synced);

    let left = staged.discard().expect("a payload to remove");
    disk.remove(&left);
    assert!(
        disk.file(&path).is_none(),
        "discard must remove an undelivered payload"
    );
}

#[test]
fn the_typed_line_does_not_grow_with_the_command() {
    let dir = UnixPath::from_text("/tmp/herdr-staged-length");
    let mut disk = Disk::new();
    let small = staged(&dir, &format!("agent '{}'", "A".repeat(1_000)), "zsh", "a", &mut disk);
    let large = staged(&dir, &format!("agent '{}'", "A".repeat(900_000)), "zsh", "a", &mut disk);
    assert_ne!(small.text, large.text, "each has a payload of its own");
    assert_eq!(disk.files.len(), 2);
    assert_eq!(
        small.text.len(),
        large.text.len(),
        "a 1 KB and a 900 KB command must type the same number of bytes"
    );
}

#[test]
fn fish_sources_with_its_own_keyword() {
    let dir = UnixPath::from_text("/tmp/herdr-staged-fish");
    let mut disk = Disk::new();
    let command = format!("agent '{}'", "A".repeat(4000));
    let staged = staged(&dir, &command, "fish", "agent-main", &mut disk);
    assert!(
        staged.text.starts_with("source "),
        "fish must not be handed `.`: {}",
        staged.text
    );
}

#[test]
fn a_staged_command_is_exactly_this() {
    let dir = UnixPath::from_text("/state/staged-commands");
    let mut disk = Disk::new();
    let staging = stage_in(&dir, "echo 'hi'", "/usr/bin/zsh", "agent main", 10, 255);
    let staged = carry_through(staging, &mut disk, compose).unwrap();
    let path = "/state/staged-commands/agent-main-10-ff";
    assert_eq!(staged.text, format!(". {path}"));
    let payload = staged.discard().unwrap();
    assert_eq!(text_of(&payload), path);
    assert_eq!(
        disk.file(&payload),
        Some((0o600, format!("rm -f -- {path}\necho 'hi'\n")))
    );
    assert_eq!(disk.dir_mode(&dir), Some(0o700));
}

#[test]
fn the_limit_counts_bytes() {
    let state_dir = UnixPath::from_text("/state");
    let short = "a".repeat(512);
    assert!(matches!(stage(&short, "zsh", "l"), Delivery::Typed(_)));
    let long = "a".repeat(513);
    assert!(matches!(stage(&long, "zsh", "l"), Delivery::ToFile(_)));
    let wide = "\u{e9}".repeat(256);
    assert!(matches!(stage(&wide, "zsh", "l"), Delivery::Typed(_)));
    let wider = "\u{e9}".repeat(257);
    match stage(&wider, "zsh", "l") {
        Delivery::Typed(_) => panic!("514 bytes must not be typed"),
        Delivery::ToFile(long) => match long.stage_below(&state_dir, 1, 2).action() {
            StageAction::CreateDir(dir) => assert_eq!(text_of(&dir), "/state/staged-commands"),
            _ => panic!("the directory comes first"),
        },
    }
}

#[test]
fn windows_types_every_command() {
    let long = "a".repeat(5000);
    match command_delivery_windows::stage(&long, "pwsh", "label") {
        Delivery::Typed(staged) => {
            assert_eq!(staged.text, long);
            assert!(staged.payload.is_none());
        }
        Delivery::ToFile(_) => panic!("there is no line to overflow"),
    }
}

#[test]
fn whatever_fails_first_is_reported() {
    let dir = UnixPath::from_text("/d");
    for action in 0..6 {
        let mut disk = Disk::failing_at(action);
        let outcome = carry_through(stage_in(&dir, "c", "zsh", "l", 1, 2), &mut disk, compose);
        match outcome {
            Err(StageFailure::Io(number)) => assert_eq!(number, action),
            _ => panic!("action {action} failed"),
        }
        assert_eq!(disk.actions, action + 1, "nothing is done after a failure");
        assert_eq!(disk.files.len(), if action > 2 { 1 } else { 0 });
    }
    let mut disk = Disk::failing_at(6);
    assert!(carry_through(stage_in(&dir, "c", "zsh", "l", 1, 2), &mut disk, compose).is_ok());
}

#[test]
fn a_file_that_is_there_already_is_left_alone() {
    let dir = UnixPath::from_text("/d");
    let mut disk = Disk::new();
    let first = carry_through(stage_in(&dir, "first", "zsh", "l", 1, 2), &mut disk, compose).unwrap();
    assert!(carry_through(stage_in(&dir, "second", "zsh", "l", 1, 2), &mut disk, compose).is_err());
    let (_, body) = disk.file(&first.discard().unwrap()).unwrap();
    assert_eq!(body, "rm -f -- /d/l-1-2\nfirst\n");
}

#[test]
fn a_path_that_is_not_text_is_rejected() {
    let dir = UnixPath::from_bytes(vec![b'/', 0xff]);
    let mut disk = Disk::new();
    let outcome = carry_through(stage_in(&dir, "c", "zsh", "l", 1, 2), &mut disk, compose);
    match outcome {
        Err(StageFailure::Rejected(error)) => {
            assert_eq!(error, StageError::PathNotUtf8);
            assert_eq!(error.kind(), ErrorKind::InvalidData);
            assert_eq!(error.message(), "staged command path is not valid UTF-8");
        }
        _ => panic!("the path cannot be typed"),
    }
    assert_eq!(disk.dirs.len(), 1, "the directory is there by then");
    assert!(disk.files.is_empty());
    assert_eq!(shell_path(&dir, "zsh"), Err(StageError::PathNotUtf8));
    assert_eq!(
        shell_path(&UnixPath::from_text("/caf\u{e9}"), "zsh"),
        Ok("/caf\u{e9}".to_string())
    );
}

#[test]
fn a_shell_that_cannot_quote_is_rejected() {
    let dir = UnixPath::from_text("/d");
    let mut disk = Disk::new();
    let staging = stage_in(&dir, "c", "odd", "l", 1, 2);
    match carry_through(staging, &mut disk, |_, _| None) {
        Err(StageFailure::Rejected(error)) => {
            assert_eq!(error, StageError::NotQuotable);
            assert_eq!(error.kind(), ErrorKind::InvalidData);
            assert_eq!(
                error.message(),
                "could not quote a staged command for this shell"
            );
        }
        _ => panic!("there is no line"),
    }
    assert!(disk.files.is_empty());

    let mut disk = Disk::new();
    let staging = stage_in(&dir, "c", "odd", "l", 1, 2);
    let only_removals = |argv: &Vec<String>, shell: &str| {
        if argv[0] == "rm" {
            compose(argv, shell)
        } else {
            None
        }
    };
    assert!(carry_through(staging, &mut disk, only_removals).is_err());
    assert_eq!(disk.files.len(), 1, "the payload was written by then");
}

#[test]
fn a_composer_gets_the_words_and_the_shell() {
    let line = shell_command(&["rm", "-f", "--", "/a b"], "zsh", |argv: &Vec<String>, shell: &str| {
        Some(format!("{shell}:{}", argv.join("|")))
    });
    assert_eq!(line, Ok("zsh:rm|-f|--|/a b".to_string()));
    assert_eq!(
        shell_command(&["x"], "zsh", |_: &Vec<String>, _: &str| None),
        Err(StageError::NotQuotable)
    );
}

#[test]
fn payload_names_are_readable_and_unique() {
    assert_eq!(payload_name("agent-main", 42, 0), "agent-main-42-0");
    assert_eq!(
        payload_name("a/b c\u{e9}_Z9", 4_294_967_295, u128::MAX),
        "a-b-c--Z9-4294967295-ffffffffffffffffffffffffffffffff"
    );
    assert_eq!(payload_name("", 0, 16), "-0-10");
    assert_eq!(payload_name("label", u32::MAX, u128::MAX).len(), 5 + 44);
    assert_ne!(payload_name("a", 1, 0x11), payload_name("a", 11, 0x1));
    assert_ne!(payload_name("a-1", 1, 1), payload_name("a", 11, 1));
    for label in ["..", "/etc/passwd", "a\nb", "$(id)"] {
        let name = payload_name(label, 7, 7);
        assert_eq!(shell_quote(&name), name);
        let path = UnixPath::from_text("/d").join(&name);
        assert_eq!(text_of(&path), format!("/d/{name}"));
    }
}

#[test]
fn payloads_lie_below_the_state_directory() {
    assert_eq!(
        text_of(&payload_dir(&UnixPath::from_text("/home/u/.local/state/herdr"))),
        "/home/u/.local/state/herdr/staged-commands"
    );
}
