//! Delivering a composed command into a pane without typing an over-long line.
//!
//! A command runs in a pane by being typed at the pane's shell. A terminal in
//! canonical mode assembles one input line in a fixed-size buffer, and a line
//! longer than that buffer loses its tail without any error. `bash` and `zsh`
//! restore canonical mode for the duration of every foreground command, and
//! `dash` never leaves it, so the only reliable move is to keep the typed line
//! short.
//!
//! A command that would be too long is written to a file instead, and the typed
//! line sources that file. The typed line is a function of the path, not of the
//! payload: it is as long for a kilobyte as for a megabyte.
//!
//! The staging of such a file alternates decisions with work on the file system.
//! [`Staging`] holds the decisions: it names the next [`StageAction`], and the
//! caller performs it and hands back a [`StageEvent`].

use crate::errors::ErrorKind;
use crate::text::{contains_seq, from_utf8, law_what_a_text_holds};
use crate::unix_path::{joined, UnixPath};
use vstd::prelude::*;
use vstd::utf8::*;

verus! {

/// The longest command, in bytes, that is typed directly into a pane.
///
/// The canonical buffer is 1024 bytes on Darwin and 4096 on Linux. This sits
/// under the smaller with room to spare, and well above any ordinary command.
pub const MAX_TYPED_COMMAND: usize = 512;

/// The mode of the directory that holds the payloads: its owner alone.
pub const PAYLOAD_DIR_MODE: u32 = 0o700;

/// Why a command could not be staged, where the file system is not the reason.
#[derive(Clone, Copy, PartialEq, Eq, Structural, Debug)]
pub enum StageError {
    /// The payload's path is not UTF-8, so it cannot be typed.
    PathNotUtf8,
    /// The pane's shell has no way to quote the line.
    NotQuotable,
}

impl StageError {
    /// The kind of this failure.
    pub fn kind(&self) -> (kind: ErrorKind)
        ensures
            kind == ErrorKind::InvalidData,
    {
        ErrorKind::InvalidData
    }

    /// What to tell the user.
    pub fn message(&self) -> (message: &'static str)
        ensures
            message@ == match *self {
                StageError::PathNotUtf8 => "staged command path is not valid UTF-8"@,
                StageError::NotQuotable => "could not quote a staged command for this shell"@,
            },
    {
        match self {
            StageError::PathNotUtf8 => "staged command path is not valid UTF-8",
            StageError::NotQuotable => "could not quote a staged command for this shell",
        }
    }
}

/// A command staged for delivery to a pane.
#[derive(Debug)]
pub struct StagedCommand {
    /// The text to type.
    pub text: String,
    /// The payload file behind `text`, when the command was too long to type.
    pub payload: Option<UnixPath>,
}

/// What a [`StagedCommand`] stands for.
pub struct Staged {
    pub text: Seq<char>,
    pub payload: Option<Seq<u8>>,
}

/// The bytes of an optional path.
pub open spec fn path_bytes(path: Option<UnixPath>) -> Option<Seq<u8>> {
    match path {
        Some(p) => Some(p@),
        None => None,
    }
}

impl View for StagedCommand {
    type V = Staged;

    open spec fn view(&self) -> Staged {
        Staged { text: self.text@, payload: path_bytes(self.payload) }
    }
}

impl StagedCommand {
    /// The command to type as it is.
    pub fn typed(command: &str) -> (staged: Self)
        ensures
            staged@ == (Staged { text: command@, payload: None }),
            staged.text@ == command@,
            staged.payload is None,
    {
        StagedCommand { text: command.to_string(), payload: None }
    }

    /// The payload to remove when the command could not be handed to the pane, so
    /// that a failed send leaves nothing behind. A delivered command removes its
    /// own file as the first thing it does.
    pub fn discard(self) -> (payload: Option<UnixPath>)
        ensures
            path_bytes(payload) == self@.payload,
            payload == self.payload,
    {
        self.payload
    }
}

/// The directory of the payloads, below the directory that keeps the program's
/// state.
pub fn payload_dir(state_dir: &UnixPath) -> (dir: UnixPath)
    ensures
        dir@ == joined(state_dir@, encode_utf8("staged-commands"@)),
{
    state_dir.join("staged-commands")
}

/// The text of a payload's path, as a shell is to read it.
pub fn shell_path(path: &UnixPath, _shell_name: &str) -> (text: Result<String, StageError>)
    ensures
        text is Ok <==> valid_utf8(path@),
        text matches Ok(t) ==> t@ == decode_utf8(path@),
        text matches Err(e) ==> e == StageError::PathNotUtf8,
{
    match from_utf8(path.clone().into_bytes()) {
        Some(text) => Ok(text),
        None => Err(StageError::PathNotUtf8),
    }
}

/// The texts of several strings.
pub open spec fn texts(strings: Seq<String>) -> Seq<Seq<char>> {
    strings.map_values(|s: String| s@)
}

/// The texts of several borrowed strings.
pub open spec fn borrowed_texts(strings: Seq<&str>) -> Seq<Seq<char>> {
    strings.map_values(|s: &str| s@)
}

/// The keyword with which a shell sources a file: fish dropped the dot.
pub open spec fn source_keyword(shell_name: Seq<char>) -> Seq<char> {
    if contains_seq(shell_name, "fish"@) {
        "source"@
    } else {
        "."@
    }
}

/// The words of the command that removes the payload.
pub open spec fn removal_argv(path_text: Seq<char>) -> Seq<Seq<char>> {
    seq!["rm"@, "-f"@, "--"@, path_text]
}

/// The words of the command that sources the payload.
pub open spec fn source_argv(path_text: Seq<char>, shell_name: Seq<char>) -> Seq<Seq<char>> {
    seq![source_keyword(shell_name), path_text]
}

/// The payload is removed by `rm`, forced and with the path last, behind the word
/// that ends the options.
pub proof fn law_the_removal_names_the_path_alone(path_text: Seq<char>)
    ensures
        removal_argv(path_text).len() == 4,
        removal_argv(path_text)[0] == "rm"@,
        removal_argv(path_text)[1] == "-f"@,
        removal_argv(path_text)[2] == "--"@,
        removal_argv(path_text)[3] == path_text,
{
}

/// The payload is sourced by two words, of which the path is the second. The first
/// is spelled out where the shell's name has `fish` anywhere in it, and is a dot
/// for every other shell.
pub proof fn law_how_a_shell_sources_a_file(path_text: Seq<char>, shell_name: Seq<char>)
    ensures
        source_argv(path_text, shell_name).len() == 2,
        source_argv(path_text, shell_name)[1] == path_text,
        (exists|front: Seq<char>, back: Seq<char>|
            shell_name == #[trigger] (front + "fish"@ + back)) ==> source_argv(path_text, shell_name)[0] == "source"@,
        !(exists|front: Seq<char>, back: Seq<char>|
            shell_name == #[trigger] (front + "fish"@ + back)) ==> source_argv(path_text, shell_name)[0] == "."@,
{
    law_what_a_text_holds(shell_name, "fish"@);
}

/// What a composer's answer means: a shell that has no way to quote the words
/// cannot be handed a line.
pub open spec fn composed(answer: Option<Seq<char>>) -> Result<Seq<char>, StageError> {
    match answer {
        Some(line) => Ok(line),
        None => Err(StageError::NotQuotable),
    }
}

/// The text of an optional string.
pub open spec fn opt_text(s: Option<String>) -> Option<Seq<char>> {
    match s {
        Some(t) => Some(t@),
        None => None,
    }
}

/// The text of a composed command line.
pub open spec fn line_text(line: Result<String, StageError>) -> Result<Seq<char>, StageError> {
    match line {
        Ok(t) => Ok(t@),
        Err(e) => Err(e),
    }
}

/// The command line that `compose` makes of `argv` for an interactive shell of
/// the given name.
pub fn shell_command<F: Fn(&Vec<String>, &str) -> Option<String>>(
    argv: &[&str],
    shell_name: &str,
    compose: F,
) -> (line: Result<String, StageError>)
    requires
        forall|owned: Vec<String>|
            texts(owned@) == borrowed_texts(argv@) ==> #[trigger] call_requires(
                compose,
                (&owned, shell_name),
            ),
    ensures
        exists|owned: Vec<String>, answer: Option<String>|
            texts(owned@) == borrowed_texts(argv@) && #[trigger] call_ensures(
                compose,
                (&owned, shell_name),
                answer,
            ) && line_text(line) == composed(opt_text(answer)),
        exists|owned: Vec<String>, answer: Option<String>|
            owned@.len() == argv@.len() && (forall|i: int|
                0 <= i < argv@.len() ==> (#[trigger] owned@[i])@ == argv@[i]@)
                && #[trigger] call_ensures(compose, (&owned, shell_name), answer) && line
                == match answer {
                Some(text) => Ok::<String, StageError>(text),
                None => Err(StageError::NotQuotable),
            },
{
    let mut owned: Vec<String> = Vec::new();
    let mut at: usize = 0;
    while at < argv.len()
        invariant
            at <= argv@.len(),
            texts(owned@) == borrowed_texts(argv@.take(at as int)),
        decreases argv@.len() - at,
    {
        let part = argv[at].to_string();
        let ghost before = owned@;
        owned.push(part);
        assert(texts(owned@) == texts(before).push(part@));
        assert(borrowed_texts(argv@.take(at + 1)) == borrowed_texts(argv@.take(at as int)).push(
            argv@[at as int]@,
        ));
        at = at + 1;
    }
    assert(argv@.take(at as int) == argv@);
    assert forall|i: int| 0 <= i < argv@.len() implies (#[trigger] owned@[i])@ == argv@[i]@ by {
        assert(texts(owned@)[i] == borrowed_texts(argv@)[i]);
    }
    assert(texts(owned@).len() == borrowed_texts(argv@).len());
    match compose(&owned, shell_name) {
        Some(line) => Ok(line),
        None => Err(StageError::NotQuotable),
    }
}

} // verus!
