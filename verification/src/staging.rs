//! Staging an over-long command in a file, step by step.

use crate::command_delivery::{
    line_text, payload_dir, removal_argv, shell_path, source_argv, texts, Staged, StageError,
    StagedCommand, MAX_TYPED_COMMAND, PAYLOAD_DIR_MODE,
};
use crate::creation::{create_private_file, private_file, FileCreation, NewFile};
use crate::payload_name::{payload_name, payload_name_text};
use crate::text::contains_text;
use crate::unix_path::{joined, UnixPath};
use vstd::prelude::*;
use vstd::utf8::*;

verus! {

/// The step that a staging has come to.
#[derive(Clone, Copy, PartialEq, Eq, Structural, Debug)]
pub enum StagePhase {
    CreateDir,
    RestrictDir,
    ComposeRemoval,
    CreatePayload,
    WriteRemoval,
    WriteCommand,
    Sync,
    ComposeSource,
}

/// A command on its way into a payload file.
#[derive(Debug)]
pub struct Staging {
    dir: UnixPath,
    command: String,
    shell_name: String,
    path: UnixPath,
    path_text: String,
    removal: String,
    phase: StagePhase,
}

/// What a [`Staging`] stands for.
pub struct StagingState {
    /// The directory of the payload.
    pub dir: Seq<u8>,
    /// The command that the payload carries.
    pub command: Seq<char>,
    /// The name of the pane's shell.
    pub shell_name: Seq<char>,
    /// The payload.
    pub path: Seq<u8>,
    /// The text of the payload's path, from `ComposeRemoval` on.
    pub path_text: Seq<char>,
    /// The command line that removes the payload, from `CreatePayload` on.
    pub removal: Seq<char>,
    /// The step to take.
    pub phase: StagePhase,
}

impl View for Staging {
    type V = StagingState;

    closed spec fn view(&self) -> StagingState {
        StagingState {
            dir: self.dir@,
            command: self.command@,
            shell_name: self.shell_name@,
            path: self.path@,
            path_text: self.path_text@,
            removal: self.removal@,
            phase: self.phase,
        }
    }
}

/// What the caller is to do next.
#[derive(Debug)]
pub enum StageAction {
    /// Create a directory, and those above it, unless it is there.
    CreateDir(UnixPath),
    /// Give a directory the mode.
    RestrictDir(UnixPath, u32),
    /// Compose a command line of these words for a shell of this name.
    Compose(Vec<String>, String),
    /// Create a file and keep it open.
    CreatePayload(FileCreation),
    /// Write to that file.
    Write(String),
    /// Have the system put that file on the disk.
    Sync,
}

/// What a [`StageAction`] stands for.
pub enum StageOrder {
    CreateDir(Seq<u8>),
    RestrictDir(Seq<u8>, u32),
    Compose(Seq<Seq<char>>, Seq<char>),
    CreatePayload(NewFile),
    Write(Seq<char>),
    Sync,
}

impl View for StageAction {
    type V = StageOrder;

    open spec fn view(&self) -> StageOrder {
        match self {
            StageAction::CreateDir(dir) => StageOrder::CreateDir(dir@),
            StageAction::RestrictDir(dir, mode) => StageOrder::RestrictDir(dir@, *mode),
            StageAction::Compose(argv, shell) => StageOrder::Compose(texts(argv@), shell@),
            StageAction::CreatePayload(creation) => StageOrder::CreatePayload(creation@),
            StageAction::Write(text) => StageOrder::Write(text@),
            StageAction::Sync => StageOrder::Sync,
        }
    }
}

/// What came of an action.
pub enum StageEvent<E> {
    /// The action on the file system succeeded.
    Done,
    /// The action on the file system failed.
    Failed(E),
    /// The command line that was to be composed.
    Composed(Result<String, StageError>),
}

/// What a [`StageEvent`] stands for.
pub enum StageReply<E> {
    Done,
    Failed(E),
    Composed(Result<Seq<char>, StageError>),
}

impl<E> View for StageEvent<E> {
    type V = StageReply<E>;

    open spec fn view(&self) -> StageReply<E> {
        match self {
            StageEvent::Done => StageReply::Done,
            StageEvent::Failed(e) => StageReply::Failed(*e),
            StageEvent::Composed(line) => StageReply::Composed(line_text(*line)),
        }
    }
}

/// Why a command was not staged.
#[derive(Debug)]
pub enum StageFailure<E> {
    /// An action on the file system failed.
    Io(E),
    /// The command cannot be staged.
    Rejected(StageError),
}

/// Where a staging stands after an event.
pub enum StageProgress<E> {
    /// There is another action to perform.
    Perform(Staging),
    /// The staging is over.
    Finished(Result<StagedCommand, StageFailure<E>>),
}

/// What a [`StageProgress`] stands for.
pub enum StageStanding<E> {
    Perform(StagingState),
    Finished(Result<Staged, StageFailure<E>>),
}

impl<E> View for StageProgress<E> {
    type V = StageStanding<E>;

    open spec fn view(&self) -> StageStanding<E> {
        match self {
            StageProgress::Perform(staging) => StageStanding::Perform(staging@),
            StageProgress::Finished(Ok(staged)) => StageStanding::Finished(Ok(staged@)),
            StageProgress::Finished(Err(failure)) => StageStanding::Finished(Err(*failure)),
        }
    }
}

/// A line of a file.
pub open spec fn line(text: Seq<char>) -> Seq<char> {
    text.push('\n')
}

/// A line is the whole text, however long it is, with a line feed behind it and
/// nothing else.
pub proof fn law_a_line_is_the_whole_text(text: Seq<char>)
    ensures
        line(text).len() == text.len() + 1,
        forall|i: int| 0 <= i < text.len() ==> line(text)[i] == text[i],
        line(text)[text.len() as int] == '\n',
{
}

/// The staging of `command` in `dir`, before its first step.
pub open spec fn staging_start(
    dir: Seq<u8>,
    command: Seq<char>,
    shell_name: Seq<char>,
    label: Seq<char>,
    process_id: nat,
    nanos: nat,
) -> StagingState {
    StagingState {
        dir,
        command,
        shell_name,
        path: joined(dir, encode_utf8(payload_name_text(label, process_id, nanos))),
        path_text: Seq::empty(),
        removal: Seq::empty(),
        phase: StagePhase::CreateDir,
    }
}

/// The action that a staging calls for.
pub open spec fn stage_order(s: StagingState) -> StageOrder {
    match s.phase {
        StagePhase::CreateDir => StageOrder::CreateDir(s.dir),
        StagePhase::RestrictDir => StageOrder::RestrictDir(s.dir, PAYLOAD_DIR_MODE),
        StagePhase::ComposeRemoval => StageOrder::Compose(
            removal_argv(s.path_text),
            s.shell_name,
        ),
        StagePhase::CreatePayload => StageOrder::CreatePayload(private_file(s.path)),
        StagePhase::WriteRemoval => StageOrder::Write(line(s.removal)),
        StagePhase::WriteCommand => StageOrder::Write(line(s.command)),
        StagePhase::Sync => StageOrder::Sync,
        StagePhase::ComposeSource => StageOrder::Compose(
            source_argv(s.path_text, s.shell_name),
            s.shell_name,
        ),
    }
}

/// A phase that waits for a command line, not for the file system.
pub open spec fn awaits_line(phase: StagePhase) -> bool {
    phase == StagePhase::ComposeRemoval || phase == StagePhase::ComposeSource
}

/// An event that can come of the action of a phase.
pub open spec fn answers<E>(phase: StagePhase, reply: StageReply<E>) -> bool {
    awaits_line(phase) <==> reply is Composed
}

/// Where a staging stands after a reply. Whatever fails first ends it. The
/// payload's path is turned into text once its directory is private, and the
/// payload is created only when the line that removes it is known.
pub open spec fn stage_next<E>(s: StagingState, reply: StageReply<E>) -> StageStanding<E> {
    match reply {
        StageReply::Failed(e) => StageStanding::Finished(Err(StageFailure::Io(e))),
        StageReply::Composed(Err(e)) => StageStanding::Finished(Err(StageFailure::Rejected(e))),
        StageReply::Composed(Ok(text)) => if s.phase == StagePhase::ComposeRemoval {
            StageStanding::Perform(
                StagingState { removal: text, phase: StagePhase::CreatePayload, ..s },
            )
        } else {
            StageStanding::Finished(Ok(Staged { text, payload: Some(s.path) }))
        },
        StageReply::Done => match s.phase {
            StagePhase::CreateDir => StageStanding::Perform(
                StagingState { phase: StagePhase::RestrictDir, ..s },
            ),
            StagePhase::RestrictDir => if valid_utf8(s.path) {
                StageStanding::Perform(
                    StagingState {
                        path_text: decode_utf8(s.path),
                        phase: StagePhase::ComposeRemoval,
                        ..s
                    },
                )
            } else {
                StageStanding::Finished(Err(StageFailure::Rejected(StageError::PathNotUtf8)))
            },
            StagePhase::CreatePayload => StageStanding::Perform(
                StagingState { phase: StagePhase::WriteRemoval, ..s },
            ),
            StagePhase::WriteRemoval => StageStanding::Perform(
                StagingState { phase: StagePhase::WriteCommand, ..s },
            ),
            StagePhase::WriteCommand => StageStanding::Perform(
                StagingState { phase: StagePhase::Sync, ..s },
            ),
            _ => StageStanding::Perform(StagingState { phase: StagePhase::ComposeSource, ..s }),
        },
    }
}

/// `text` as a line of a file.
fn line_of(text: &str) -> (whole: String)
    ensures
        whole@ == line(text@),
        whole@.len() == text@.len() + 1,
        whole@.take(text@.len() as int) == text@,
        whole@.last() == '\n',
{
    let mut whole = text.to_string();
    whole.push('\n');
    whole
}

impl Staging {
    /// The next action.
    pub fn action(&self) -> (action: StageAction)
        ensures
            action@ == stage_order(self@),
            self@.phase == StagePhase::CreateDir ==> (action matches StageAction::CreateDir(dir)
                && dir@ == self@.dir),
            self@.phase == StagePhase::RestrictDir ==> (action matches StageAction::RestrictDir(
                dir,
                mode,
            ) && dir@ == self@.dir && mode == 0o700),
            self@.phase == StagePhase::ComposeRemoval ==> (action matches StageAction::Compose(
                argv,
                shell,
            ) && argv@.len() == 4 && argv@[0]@ == "rm"@ && argv@[1]@ == "-f"@ && argv@[2]@ == "--"@
                && argv@[3]@ == self@.path_text && shell@ == self@.shell_name),
            self@.phase == StagePhase::CreatePayload ==> (action matches StageAction::CreatePayload(
                payload,
            ) && payload.path@ == self@.path && payload.mode == 0o600 && payload.must_be_new
                && payload.for_writing),
            self@.phase == StagePhase::WriteRemoval ==> (action matches StageAction::Write(text)
                && text@.len() == self@.removal.len() + 1 && text@.take(self@.removal.len() as int)
                == self@.removal && text@.last() == '\n'),
            self@.phase == StagePhase::WriteCommand ==> (action matches StageAction::Write(text)
                && text@.len() == self@.command.len() + 1 && text@.take(self@.command.len() as int)
                == self@.command && text@.last() == '\n'),
            self@.phase == StagePhase::Sync ==> action is Sync,
            self@.phase == StagePhase::ComposeSource ==> (action matches StageAction::Compose(
                argv,
                shell,
            ) && argv@.len() == 2 && argv@[0]@ == (if exists|at: int|
                0 <= at <= self@.shell_name.len() - "fish"@.len()
                    && #[trigger] self@.shell_name.subrange(at, at + "fish"@.len()) == "fish"@ {
                "source"@
            } else {
                "."@
            }) && argv@[1]@ == self@.path_text && shell@ == self@.shell_name),
    {
        match self.phase {
            StagePhase::CreateDir => StageAction::CreateDir(self.dir.clone()),
            StagePhase::RestrictDir => StageAction::RestrictDir(self.dir.clone(), PAYLOAD_DIR_MODE),
            StagePhase::ComposeRemoval => {
                let mut argv: Vec<String> = Vec::new();
                argv.push("rm".to_string());
                argv.push("-f".to_string());
                argv.push("--".to_string());
                argv.push(self.path_text.clone());
                assert(texts(argv@) == removal_argv(self.path_text@));
                StageAction::Compose(argv, self.shell_name.clone())
            },
            StagePhase::CreatePayload => StageAction::CreatePayload(
                create_private_file(self.path.clone()),
            ),
            StagePhase::WriteRemoval => StageAction::Write(line_of(self.removal.as_str())),
            StagePhase::WriteCommand => StageAction::Write(line_of(self.command.as_str())),
            StagePhase::Sync => StageAction::Sync,
            StagePhase::ComposeSource => {
                let keyword = if contains_text(self.shell_name.as_str(), "fish") {
                    "source"
                } else {
                    "."
                };
                let mut argv: Vec<String> = Vec::new();
                argv.push(keyword.to_string());
                argv.push(self.path_text.clone());
                assert(texts(argv@) == source_argv(self.path_text@, self.shell_name@));
                StageAction::Compose(argv, self.shell_name.clone())
            },
        }
    }

    /// Goes on after the outcome of the action.
    pub fn advance<E>(self, event: StageEvent<E>) -> (progress: StageProgress<E>)
        requires
            answers(self@.phase, event@),
        ensures
            progress@ == stage_next(self@, event@),
            event matches StageEvent::Failed(e) ==> progress matches StageProgress::Finished(
                Err(StageFailure::Io(f)),
            ) && f == e,
            event matches StageEvent::Composed(Err(e)) ==> progress matches StageProgress::Finished(
                Err(StageFailure::Rejected(f)),
            ) && f == e,
            self@.phase == StagePhase::ComposeRemoval ==> (event matches StageEvent::Composed(
                Ok(text),
            ) ==> progress matches StageProgress::Perform(next) && next@.phase
                == StagePhase::CreatePayload && next@.removal == text@),
            self@.phase == StagePhase::ComposeSource ==> (event matches StageEvent::Composed(
                Ok(text),
            ) ==> progress matches StageProgress::Finished(Ok(staged)) && staged.text@ == text@
                && staged.payload is Some && staged.payload->0@ == self@.path),
            event is Done && self@.phase == StagePhase::CreateDir ==> (progress matches
                StageProgress::Perform(next) && next@.phase == StagePhase::RestrictDir),
            event is Done && self@.phase == StagePhase::RestrictDir && valid_utf8(self@.path)
                ==> (progress matches StageProgress::Perform(next) && next@.phase
                == StagePhase::ComposeRemoval && next@.path_text == decode_utf8(self@.path)),
            event is Done && self@.phase == StagePhase::RestrictDir && !valid_utf8(self@.path)
                ==> (progress matches StageProgress::Finished(Err(StageFailure::Rejected(f))) && f
                == StageError::PathNotUtf8),
            event is Done && self@.phase == StagePhase::CreatePayload ==> (progress matches
                StageProgress::Perform(next) && next@.phase == StagePhase::WriteRemoval),
            event is Done && self@.phase == StagePhase::WriteRemoval ==> (progress matches
                StageProgress::Perform(next) && next@.phase == StagePhase::WriteCommand),
            event is Done && self@.phase == StagePhase::WriteCommand ==> (progress matches
                StageProgress::Perform(next) && next@.phase == StagePhase::Sync),
            event is Done && self@.phase == StagePhase::Sync ==> (progress matches
                StageProgress::Perform(next) && next@.phase == StagePhase::ComposeSource),
            progress matches StageProgress::Perform(next) ==> {
                &&& next@.dir == self@.dir
                &&& next@.command == self@.command
                &&& next@.shell_name == self@.shell_name
                &&& next@.path == self@.path
                &&& self@.phase != StagePhase::RestrictDir ==> next@.path_text == self@.path_text
                &&& self@.phase != StagePhase::ComposeRemoval ==> next@.removal == self@.removal
            },
    {
        let mut next = self;
        match event {
            StageEvent::Failed(e) => StageProgress::Finished(Err(StageFailure::Io(e))),
            StageEvent::Composed(Err(e)) => StageProgress::Finished(Err(StageFailure::Rejected(e))),
            StageEvent::Composed(Ok(text)) => {
                if next.phase == StagePhase::ComposeRemoval {
                    next.removal = text;
                    next.phase = StagePhase::CreatePayload;
                    StageProgress::Perform(next)
                } else {
                    StageProgress::Finished(Ok(StagedCommand { text, payload: Some(next.path) }))
                }
            },
            StageEvent::Done => match next.phase {
                StagePhase::CreateDir => {
                    next.phase = StagePhase::RestrictDir;
                    StageProgress::Perform(next)
                },
                StagePhase::RestrictDir => {
                    match shell_path(&next.path, next.shell_name.as_str()) {
                        Ok(text) => {
                            next.path_text = text;
                            next.phase = StagePhase::ComposeRemoval;
                            StageProgress::Perform(next)
                        },
                        Err(e) => StageProgress::Finished(Err(StageFailure::Rejected(e))),
                    }
                },
                StagePhase::CreatePayload => {
                    next.phase = StagePhase::WriteRemoval;
                    StageProgress::Perform(next)
                },
                StagePhase::WriteRemoval => {
                    next.phase = StagePhase::WriteCommand;
                    StageProgress::Perform(next)
                },
                StagePhase::WriteCommand => {
                    next.phase = StagePhase::Sync;
                    StageProgress::Perform(next)
                },
                _ => {
                    next.phase = StagePhase::ComposeSource;
                    StageProgress::Perform(next)
                },
            },
        }
    }
}

/// Stages `command` in `dir`, for a pane whose shell is `shell_name`. The label,
/// the number of this process and the time in nanoseconds since the epoch make
/// the name of the payload.
pub fn stage_in(
    dir: &UnixPath,
    command: &str,
    shell_name: &str,
    label: &str,
    process_id: u32,
    nanos: u128,
) -> (staging: Staging)
    ensures
        staging@ == staging_start(
            dir@,
            command@,
            shell_name@,
            label@,
            process_id as nat,
            nanos as nat,
        ),
        staging@.phase == StagePhase::CreateDir,
        staging@.dir == dir@,
        staging@.command == command@,
        staging@.shell_name == shell_name@,
        staging@.path == joined(
            dir@,
            encode_utf8(payload_name_text(label@, process_id as nat, nanos as nat)),
        ),
{
    let name = payload_name(label, process_id, nanos);
    Staging {
        dir: dir.clone(),
        command: command.to_string(),
        shell_name: shell_name.to_string(),
        path: dir.join(name.as_str()),
        path_text: String::new(),
        removal: String::new(),
        phase: StagePhase::CreateDir,
    }
}

/// A command that is too long to type.
#[derive(Debug)]
pub struct OverLong {
    command: String,
    shell_name: String,
    label: String,
}

/// What an [`OverLong`] stands for.
pub struct OverLongCommand {
    pub command: Seq<char>,
    pub shell_name: Seq<char>,
    pub label: Seq<char>,
}

impl View for OverLong {
    type V = OverLongCommand;

    closed spec fn view(&self) -> OverLongCommand {
        OverLongCommand {
            command: self.command@,
            shell_name: self.shell_name@,
            label: self.label@,
        }
    }
}

impl OverLong {
    /// Stages the command below the directory that keeps the program's state. The
    /// number of this process and the time in nanoseconds since the epoch, with
    /// the label, make the name of the payload.
    pub fn stage_below(&self, state_dir: &UnixPath, process_id: u32, nanos: u128) -> (staging:
        Staging)
        ensures
            staging@ == staging_start(
                joined(state_dir@, encode_utf8("staged-commands"@)),
                self@.command,
                self@.shell_name,
                self@.label,
                process_id as nat,
                nanos as nat,
            ),
            staging@.phase == StagePhase::CreateDir,
            staging@.dir == joined(state_dir@, encode_utf8("staged-commands"@)),
            staging@.command == self@.command,
            staging@.shell_name == self@.shell_name,
            staging@.path == joined(
                staging@.dir,
                encode_utf8(payload_name_text(self@.label, process_id as nat, nanos as nat)),
            ),
    {
        stage_in(
            &payload_dir(state_dir),
            self.command.as_str(),
            self.shell_name.as_str(),
            self.label.as_str(),
            process_id,
            nanos,
        )
    }
}

/// How a command is delivered.
#[derive(Debug)]
pub enum Delivery {
    /// It is typed as it is, and there is nothing to do before.
    Typed(StagedCommand),
    /// It goes into a file first.
    ToFile(OverLong),
}

/// Stages `command` for a pane whose shell is `shell_name`, labelling any payload
/// with `label` so that the line the user sees names what it runs. Nothing more
/// than the command is needed where it can be typed.
pub fn stage(command: &str, shell_name: &str, label: &str) -> (delivery: Delivery)
    ensures
        delivery is Typed <==> encode_utf8(command@).len() <= 512,
        delivery matches Delivery::Typed(staged) ==> staged@ == (Staged {
            text: command@,
            payload: None,
        }),
        delivery matches Delivery::ToFile(long) ==> long@ == (OverLongCommand {
            command: command@,
            shell_name: shell_name@,
            label: label@,
        }),
        delivery matches Delivery::Typed(staged) ==> staged.text@ == command@ && staged.payload
            is None,
{
    if command.as_bytes().len() <= MAX_TYPED_COMMAND {
        return Delivery::Typed(StagedCommand::typed(command));
    }
    Delivery::ToFile(
        OverLong {
            command: command.to_string(),
            shell_name: shell_name.to_string(),
            label: label.to_string(),
        },
    )
}

} // verus!
