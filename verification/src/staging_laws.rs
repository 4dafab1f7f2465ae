//! What holds of every staging, from its first step to its last.

use crate::command_delivery::{Staged, StageError};
use crate::creation::NewFile;
use crate::payload_name::payload_name_text;
use crate::staging::{
    answers, line, stage_next, stage_order, staging_start, StageFailure, StageOrder, StagePhase,
    StageReply, StageStanding, StagingState,
};
use crate::text::contains_seq;
use crate::unix_path::joined;
use vstd::prelude::*;
use vstd::utf8::*;

verus! {

/// What the world answers to each action of a staging. For the file system, the
/// error, where there is one.
pub struct StageWorld<E> {
    pub create_dir: Option<E>,
    pub restrict_dir: Option<E>,
    pub removal: Result<Seq<char>, StageError>,
    pub create_payload: Option<E>,
    pub write_removal: Option<E>,
    pub write_command: Option<E>,
    pub sync: Option<E>,
    pub source: Result<Seq<char>, StageError>,
}

/// The reply of the file system.
pub open spec fn file_reply<E>(error: Option<E>) -> StageReply<E> {
    match error {
        Some(e) => StageReply::Failed(e),
        None => StageReply::Done,
    }
}

/// The reply of the world to the action of a phase.
pub open spec fn stage_reply<E>(phase: StagePhase, world: StageWorld<E>) -> StageReply<E> {
    match phase {
        StagePhase::CreateDir => file_reply(world.create_dir),
        StagePhase::RestrictDir => file_reply(world.restrict_dir),
        StagePhase::ComposeRemoval => StageReply::Composed(world.removal),
        StagePhase::CreatePayload => file_reply(world.create_payload),
        StagePhase::WriteRemoval => file_reply(world.write_removal),
        StagePhase::WriteCommand => file_reply(world.write_command),
        StagePhase::Sync => file_reply(world.sync),
        StagePhase::ComposeSource => StageReply::Composed(world.source),
    }
}

/// The number of steps that are left at most.
pub open spec fn steps_left(phase: StagePhase) -> nat {
    match phase {
        StagePhase::CreateDir => 8,
        StagePhase::RestrictDir => 7,
        StagePhase::ComposeRemoval => 6,
        StagePhase::CreatePayload => 5,
        StagePhase::WriteRemoval => 4,
        StagePhase::WriteCommand => 3,
        StagePhase::Sync => 2,
        StagePhase::ComposeSource => 1,
    }
}

/// A staging that was carried through: the actions, in order, and the outcome.
pub struct StageRun<E> {
    pub orders: Seq<StageOrder>,
    pub outcome: Result<Staged, StageFailure<E>>,
}

/// Carries a staging through, in a world.
pub open spec fn stage_run<E>(s: StagingState, world: StageWorld<E>) -> StageRun<E>
    decreases steps_left(s.phase),
{
    let order = stage_order(s);
    match stage_next(s, stage_reply(s.phase, world)) {
        StageStanding::Finished(outcome) => StageRun { orders: seq![order], outcome },
        StageStanding::Perform(next) => {
            let rest = stage_run(next, world);
            StageRun { orders: seq![order] + rest.orders, outcome: rest.outcome }
        },
    }
}

/// The actions of a staging in a world where nothing fails.
pub open spec fn all_orders<E>(s: StagingState, world: StageWorld<E>) -> Seq<StageOrder> {
    seq![
        StageOrder::CreateDir(s.dir),
        StageOrder::RestrictDir(s.dir, 0o700),
        StageOrder::Compose(seq!["rm"@, "-f"@, "--"@, decode_utf8(s.path)], s.shell_name),
        StageOrder::CreatePayload(
            NewFile { path: s.path, mode: 0o600, must_be_new: true, for_writing: true },
        ),
        StageOrder::Write(world.removal->Ok_0 + seq!['\n']),
        StageOrder::Write(s.command + seq!['\n']),
        StageOrder::Sync,
        StageOrder::Compose(
            seq![
                if contains_seq(s.shell_name, "fish"@) {
                    "source"@
                } else {
                    "."@
                },
                decode_utf8(s.path),
            ],
            s.shell_name,
        ),
    ]
}

/// A world in which nothing fails.
pub open spec fn nothing_fails<E>(world: StageWorld<E>) -> bool {
    &&& world.create_dir is None
    &&& world.restrict_dir is None
    &&& world.removal is Ok
    &&& world.create_payload is None
    &&& world.write_removal is None
    &&& world.write_command is None
    &&& world.sync is None
    &&& world.source is Ok
}

/// The failure that ends a staging, where there is one: the first, in the order
/// of the actions.
pub open spec fn first_failure<E>(s: StagingState, world: StageWorld<E>) -> Option<StageFailure<E>> {
    if world.create_dir is Some {
        Some(StageFailure::Io(world.create_dir->0))
    } else if world.restrict_dir is Some {
        Some(StageFailure::Io(world.restrict_dir->0))
    } else if !valid_utf8(s.path) {
        Some(StageFailure::Rejected(StageError::PathNotUtf8))
    } else if world.removal is Err {
        Some(StageFailure::Rejected(world.removal->Err_0))
    } else if world.create_payload is Some {
        Some(StageFailure::Io(world.create_payload->0))
    } else if world.write_removal is Some {
        Some(StageFailure::Io(world.write_removal->0))
    } else if world.write_command is Some {
        Some(StageFailure::Io(world.write_command->0))
    } else if world.sync is Some {
        Some(StageFailure::Io(world.sync->0))
    } else if world.source is Err {
        Some(StageFailure::Rejected(world.source->Err_0))
    } else {
        None
    }
}

/// Every reply of a world answers the action, so a caller that hands back what
/// came of each action can carry every staging through.
pub proof fn law_every_reply_answers_its_action<E>(phase: StagePhase, world: StageWorld<E>)
    ensures
        answers(phase, stage_reply(phase, world)),
{
}

/// A run, spelled out.
proof fn lemma_run<E>(s: StagingState, world: StageWorld<E>)
    requires
        s.phase == StagePhase::CreateDir,
    ensures
        stage_run(s, world).outcome == match first_failure(s, world) {
            Some(failure) => Err(failure),
            None => Ok(Staged { text: world.source->Ok_0, payload: Some(s.path) }),
        },
        stage_run(s, world).orders.len() <= 8,
        stage_run(s, world).orders == all_orders(s, world).take(
            stage_run(s, world).orders.len() as int,
        ),
        nothing_fails(world) && valid_utf8(s.path) ==> stage_run(s, world).orders == all_orders(
            s,
            world,
        ),
{
    reveal_with_fuel(stage_run, 9);
    assert(line(s.command) == s.command + seq!['\n']);
    assert(line(s.removal) == s.removal + seq!['\n']);
    assert(forall|removal: Seq<char>| #[trigger] line(removal) == removal + seq!['\n']);
}

/// A staging succeeds exactly where nothing fails and the payload's path is text,
/// and otherwise ends with the first failure. The line to type is then the one
/// that sources the payload, and the payload is the one in the directory.
pub proof fn law_outcome_of_a_staging<E>(s: StagingState, world: StageWorld<E>)
    requires
        s.phase == StagePhase::CreateDir,
    ensures
        stage_run(s, world).outcome is Ok <==> nothing_fails(world) && valid_utf8(s.path),
        stage_run(s, world).outcome == match first_failure(s, world) {
            Some(failure) => Err(failure),
            None => Ok(Staged { text: world.source->Ok_0, payload: Some(s.path) }),
        },
{
    lemma_run(s, world);
}

/// Whatever fails, the actions are the first of one fixed list: the directory is
/// made private before the payload is created, the payload is new and for its
/// owner alone, and what is written to it is the line that removes it and then the
/// command.
pub proof fn law_actions_come_in_order<E>(s: StagingState, world: StageWorld<E>)
    requires
        s.phase == StagePhase::CreateDir,
    ensures
        stage_run(s, world).orders.len() <= all_orders(s, world).len(),
        stage_run(s, world).orders == all_orders(s, world).take(
            stage_run(s, world).orders.len() as int,
        ),
{
    lemma_run(s, world);
}

/// A staged command has a payload that removes itself first and then carries the
/// command: these two lines, and no others, are written to it.
pub proof fn law_payload_removes_itself_and_carries_the_command<E>(
    s: StagingState,
    world: StageWorld<E>,
)
    requires
        s.phase == StagePhase::CreateDir,
        stage_run(s, world).outcome is Ok,
    ensures
        world.removal is Ok,
        stage_run(s, world).orders.filter(|o: StageOrder| o is Write) == seq![
            StageOrder::Write(world.removal->Ok_0 + seq!['\n']),
            StageOrder::Write(s.command + seq!['\n']),
        ],
        stage_run(s, world).orders[2] == StageOrder::Compose(
            seq!["rm"@, "-f"@, "--"@, decode_utf8(s.path)],
            s.shell_name,
        ),
{
    lemma_run(s, world);
    let orders = all_orders(s, world);
    let writes = |o: StageOrder| o is Write;
    reveal_with_fuel(Seq::filter, 9);
    assert(orders.filter(writes) == seq![orders[4], orders[5]]);
}

/// Whatever the command and however long, a staging that succeeds writes two texts
/// to the payload. The first is the whole line that removes it, the second the
/// whole command, every character of it in order, each with one line feed behind
/// it.
pub proof fn law_the_payload_carries_the_whole_command<E>(
    dir: Seq<u8>,
    command: Seq<char>,
    shell_name: Seq<char>,
    label: Seq<char>,
    process_id: nat,
    nanos: nat,
    world: StageWorld<E>,
)
    requires
        stage_run(
            staging_start(dir, command, shell_name, label, process_id, nanos),
            world,
        ).outcome is Ok,
    ensures
        ({
            let start = staging_start(dir, command, shell_name, label, process_id, nanos);
            let writes = stage_run(start, world).orders.filter(|o: StageOrder| o is Write);
            &&& writes.len() == 2
            &&& writes[0] matches StageOrder::Write(first) && world.removal matches Ok(removal) && {
                &&& first.len() == removal.len() + 1
                &&& first.take(removal.len() as int) == removal
                &&& first[removal.len() as int] == '\n'
            }
            &&& writes[1] matches StageOrder::Write(second) && {
                &&& second.len() == command.len() + 1
                &&& second.take(command.len() as int) == command
                &&& second[command.len() as int] == '\n'
            }
        }),
{
    let start = staging_start(dir, command, shell_name, label, process_id, nanos);
    law_payload_removes_itself_and_carries_the_command(start, world);
    assert((command + seq!['\n']).take(command.len() as int) == command);
    let removal = world.removal->Ok_0;
    assert((removal + seq!['\n']).take(removal.len() as int) == removal);
}

/// A staging works in the directory that it was given, on the command and for the
/// shell that it was given, and its payload lies in that directory under a name of
/// its own. What is done first is to create that directory.
pub proof fn law_a_staging_starts_with_what_it_was_given(
    dir: Seq<u8>,
    command: Seq<char>,
    shell_name: Seq<char>,
    label: Seq<char>,
    process_id: nat,
    nanos: nat,
)
    ensures
        ({
            let start = staging_start(dir, command, shell_name, label, process_id, nanos);
            &&& start.dir == dir
            &&& start.command == command
            &&& start.shell_name == shell_name
            &&& start.path == joined(dir, encode_utf8(payload_name_text(label, process_id, nanos)))
            &&& start.phase == StagePhase::CreateDir
            &&& stage_order(start) == StageOrder::CreateDir(dir)
        }),
{
}

/// The payload of a staged command, which is what a discard removes, is the file
/// that was created, and no other file was.
pub proof fn law_a_discard_removes_the_file_that_was_created<E>(
    s: StagingState,
    world: StageWorld<E>,
)
    requires
        s.phase == StagePhase::CreateDir,
        stage_run(s, world).outcome is Ok,
    ensures
        stage_run(s, world).outcome->Ok_0.payload is Some,
        stage_run(s, world).orders.filter(|o: StageOrder| o is CreatePayload) == seq![
            StageOrder::CreatePayload(
                NewFile {
                    path: stage_run(s, world).outcome->Ok_0.payload->0,
                    mode: 0o600,
                    must_be_new: true,
                    for_writing: true,
                },
            ),
        ],
{
    lemma_run(s, world);
    let orders = all_orders(s, world);
    let creates = |o: StageOrder| o is CreatePayload;
    reveal_with_fuel(Seq::filter, 9);
    assert(orders.filter(creates) == seq![orders[3]]);
}

/// The typed line is a function of the path, not of the payload: two commands
/// that are staged at one path, for one shell and in one world, have one outcome,
/// and but for the command itself the same is done for both.
pub proof fn law_typed_line_does_not_depend_on_the_command<E>(
    s: StagingState,
    t: StagingState,
    world: StageWorld<E>,
)
    requires
        s.phase == StagePhase::CreateDir,
        t == (StagingState { command: t.command, ..s }),
    ensures
        stage_run(s, world).outcome == stage_run(t, world).outcome,
        stage_run(s, world).orders.len() == stage_run(t, world).orders.len(),
        forall|i: int|
            0 <= i < stage_run(s, world).orders.len() && i != 5 ==> stage_run(s, world).orders[i]
                == stage_run(t, world).orders[i],
{
    reveal_with_fuel(stage_run, 9);
}

} // verus!
