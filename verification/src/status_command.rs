//! The process group of a status command.

use crate::errors::ErrorKind;
use vstd::prelude::*;

verus! {

/// Status commands run here.
pub fn status_commands_supported() -> (supported: bool)
    ensures
        supported,
{
    true
}

/// Why a command cannot be guarded.
#[derive(Clone, Copy, PartialEq, Eq, Structural, Debug)]
pub enum GuardError {
    /// The command has ended already.
    NoProcessId,
    /// The number of its process is not one that a signal can be sent to.
    ProcessIdTooLarge,
}

impl GuardError {
    /// The kind of this failure.
    pub fn kind(&self) -> (kind: ErrorKind)
        ensures
            kind == ErrorKind::Other,
    {
        ErrorKind::Other
    }

    /// What to tell the user.
    pub fn message(&self) -> (message: &'static str)
        ensures
            message@ == match *self {
                GuardError::NoProcessId => "status command has no process id"@,
                GuardError::ProcessIdTooLarge => "status command process id exceeds i32"@,
            },
    {
        match self {
            GuardError::NoProcessId => "status command has no process id",
            GuardError::ProcessIdTooLarge => "status command process id exceeds i32",
        }
    }
}

/// Sees to it that a status command, and whatever it has started, does not outlive
/// its use. The command is the leader of its process group.
#[derive(Debug)]
pub struct StatusCommandGuard {
    process_group_id: Option<i32>,
}

/// The process number to which a signal for a whole group is sent.
pub open spec fn kill_target(group: Option<i32>) -> Option<i32> {
    match group {
        Some(g) => Some((-g) as i32),
        None => None,
    }
}

impl StatusCommandGuard {
    /// The process group that is still to be killed.
    pub closed spec fn group(&self) -> Option<i32> {
        self.process_group_id
    }

    /// A process group has a number that is not negative.
    #[verifier::type_invariant]
    closed spec fn group_is_valid(&self) -> bool {
        self.process_group_id matches Some(g) ==> 0 <= g
    }

    /// Guards the command that runs as the given process.
    pub fn new(process_id: Option<u32>) -> (guard: Result<Self, GuardError>)
        ensures
            guard matches Ok(g) ==> process_id matches Some(id) && id <= i32::MAX && g.group()
                == Some(id as i32),
            guard is Ok <==> process_id is Some && process_id->0 <= i32::MAX,
            guard matches Err(e) ==> e == if process_id is None {
                GuardError::NoProcessId
            } else {
                GuardError::ProcessIdTooLarge
            },
    {
        match process_id {
            Some(id) => {
                if id <= 0x7fff_ffff {
                    Ok(StatusCommandGuard { process_group_id: Some(id as i32) })
                } else {
                    Err(GuardError::ProcessIdTooLarge)
                }
            },
            None => Err(GuardError::NoProcessId),
        }
    }

    /// Where to send the signal that kills the command's process group, and with
    /// it the descendants that are still there. There is nothing to kill a second
    /// time.
    pub fn terminate(&mut self) -> (target: Option<i32>)
        ensures
            target is Some <==> old(self).group() is Some,
            old(self).group() matches Some(g) ==> 0 <= g && target->0 == -(g as int),
            target == kill_target(old(self).group()),
            final(self).group() is None,
    {
        proof {
            use_type_invariant(&*self);
        }
        let group = self.process_group_id;
        self.process_group_id = None;
        match group {
            Some(g) => Some(-g),
            None => None,
        }
    }
}

/// A signal goes to the whole group, whose number is the target's with the sign
/// turned, and there is a target exactly where there is a group.
pub proof fn law_a_signal_goes_to_the_whole_group(group: Option<i32>)
    requires
        group matches Some(g) ==> 0 <= g,
    ensures
        kill_target(group) is Some <==> group is Some,
        group is Some ==> kill_target(group)->0 + group->0 == 0,
{
}

/// The targets of that many terminations, one after the other.
pub open spec fn kill_targets(group: Option<i32>, times: nat) -> Seq<i32>
    decreases times,
{
    if times == 0 {
        Seq::empty()
    } else {
        match kill_target(group) {
            Some(target) => seq![target] + kill_targets(None, (times - 1) as nat),
            None => kill_targets(None, (times - 1) as nat),
        }
    }
}

/// However often a guard is asked to terminate, a group is killed once, and where
/// there is none nothing is.
pub proof fn law_a_group_is_killed_once(group: Option<i32>, times: nat)
    requires
        times > 0,
    ensures
        kill_targets(group, times) == match kill_target(group) {
            Some(target) => seq![target],
            None => Seq::empty(),
        },
    decreases times,
{
    if times > 1 {
        law_a_group_is_killed_once(None, (times - 1) as nat);
    } else {
        assert(kill_targets(None, 0) == Seq::<i32>::empty());
    }
    match kill_target(group) {
        Some(target) => {
            assert(seq![target] + Seq::<i32>::empty() == seq![target]);
        },
        None => {},
    }
}

} // verus!
