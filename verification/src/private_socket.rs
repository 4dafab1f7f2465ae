//! Publishing a socket that its owner alone can connect to.
//!
//! The mode is applied to the socket descriptor before it is bound, so the
//! pathname is never changed afterwards and file systems that reject a change of
//! mode on a socket are never asked for one. Where the kernel cannot set the mode
//! of a socket before it is bound, the socket is bound first and restricted then.
//!
//! Binding alternates decisions with work on the file system. [`PrivateBind`]
//! holds the decisions: it names the next [`BindAction`], and the caller performs
//! it and hands back a [`BindEvent`].

use crate::errors::{ErrorKind, Fault};
use vstd::prelude::*;

verus! {

/// The mode of a private socket: read and written by its owner alone.
pub const SOCKET_PERMISSION_MODE: u32 = 0o600;

/// What the file system says of a pathname, itself and not what it links to.
#[derive(Clone, Copy, PartialEq, Eq, Structural, Debug)]
pub struct FileMetadata {
    pub is_socket: bool,
    pub device: u64,
    pub inode: u64,
}

/// The device and the inode of a socket.
pub type SocketIdentity = (u64, u64);

/// The socket that a pathname holds.
pub open spec fn identity_of(metadata: Option<FileMetadata>) -> Option<SocketIdentity> {
    match metadata {
        Some(m) => if m.is_socket {
            Some((m.device, m.inode))
        } else {
            None
        },
        None => None,
    }
}

/// Nothing but a socket is identified. Two sockets are taken for one exactly where
/// they have one inode on one device.
pub proof fn law_a_socket_is_known_by_device_and_inode(
    a: Option<FileMetadata>,
    b: Option<FileMetadata>,
)
    ensures
        identity_of(a) is Some <==> a is Some && a->0.is_socket,
        identity_of(a) is Some && identity_of(b) is Some ==> (identity_of(a) == identity_of(b)
            <==> a->0.device == b->0.device && a->0.inode == b->0.inode),
{
}

/// Identifies the socket at a pathname, or `None` when there is nothing or
/// something other than a socket.
pub fn socket_identity(metadata: Option<FileMetadata>) -> (identity: Option<SocketIdentity>)
    ensures
        identity == identity_of(metadata),
        identity is Some <==> metadata is Some && metadata->0.is_socket,
        identity is Some ==> (identity->0).0 == metadata->0.device && (identity->0).1
            == metadata->0.inode,
{
    match metadata {
        Some(m) => {
            if m.is_socket {
                Some((m.device, m.inode))
            } else {
                None
            }
        },
        None => None,
    }
}

/// Whether a pathname is to be unlinked: only while it still holds the socket
/// that was bound there, so that one which another process put in its place is
/// left alone.
pub fn remove_socket_if_unchanged(
    current: Option<SocketIdentity>,
    bound: Option<SocketIdentity>,
) -> (remove: bool)
    ensures
        remove == (bound is Some && current == bound),
{
    match (bound, current) {
        (Some(b), Some(c)) => b.0 == c.0 && b.1 == c.1,
        _ => false,
    }
}

/// The step that a binding has come to.
pub enum PrivateBind<E> {
    /// Bind with the mode.
    BindPrivate,
    /// Bind without one: the system cannot set it.
    BindOpen,
    /// Identify the socket that was bound.
    IdentifyBound,
    /// Restrict the socket that was bound.
    Restrict { bound: Option<SocketIdentity> },
    /// Give the socket up: it could not be restricted.
    Release { bound: Option<SocketIdentity>, error: E },
    /// Identify what is at the pathname now.
    IdentifyCurrent { bound: Option<SocketIdentity>, error: E },
    /// Take the pathname down.
    Unlink { error: E },
}

/// What the caller is to do next, at the socket's pathname.
#[derive(Clone, Copy, PartialEq, Eq, Structural, Debug)]
pub enum BindAction {
    /// Bind a listener, with the mode where there is one, and keep it.
    Bind(Option<u32>),
    /// Look at what the pathname holds.
    Inspect,
    /// Give the pathname the mode.
    Restrict(u32),
    /// Close the listener that is kept.
    Release,
    /// Remove the pathname. What comes of it does not matter.
    Unlink,
}

/// What came of an action.
pub enum BindEvent<E> {
    /// The action succeeded.
    Done,
    /// The action failed.
    Failed(Fault<E>),
    /// What the pathname holds, if anything.
    Inspected(Option<FileMetadata>),
}

/// Where a binding stands after an event.
pub enum BindProgress<E> {
    /// There is another action to perform.
    Perform(PrivateBind<E>),
    /// The binding is over. If it succeeded, the listener that is kept is the
    /// result.
    Finished(Result<(), E>),
}

/// The action that a step calls for.
pub open spec fn bind_order<E>(s: PrivateBind<E>) -> BindAction {
    match s {
        PrivateBind::BindPrivate => BindAction::Bind(Some(SOCKET_PERMISSION_MODE)),
        PrivateBind::BindOpen => BindAction::Bind(None),
        PrivateBind::IdentifyBound => BindAction::Inspect,
        PrivateBind::Restrict { .. } => BindAction::Restrict(SOCKET_PERMISSION_MODE),
        PrivateBind::Release { .. } => BindAction::Release,
        PrivateBind::IdentifyCurrent { .. } => BindAction::Inspect,
        PrivateBind::Unlink { .. } => BindAction::Unlink,
    }
}

/// An event that can come of an action: an inspection says what it found, the
/// listener closes without fail, and anything else succeeds or not.
pub open spec fn can_come_of<E>(action: BindAction, event: BindEvent<E>) -> bool {
    match action {
        BindAction::Inspect => event is Inspected,
        BindAction::Release => event is Done,
        _ => !(event is Inspected),
    }
}

/// Where a binding stands after an event.
pub open spec fn bind_next<E>(s: PrivateBind<E>, event: BindEvent<E>) -> BindProgress<E> {
    match (s, event) {
        (PrivateBind::BindPrivate, BindEvent::Failed(fault)) => if fault.kind
            == ErrorKind::Unsupported {
            BindProgress::Perform(PrivateBind::BindOpen)
        } else {
            BindProgress::Finished(Err(fault.error))
        },
        (PrivateBind::BindPrivate, _) => BindProgress::Finished(Ok(())),
        (PrivateBind::BindOpen, BindEvent::Failed(fault)) => BindProgress::Finished(
            Err(fault.error),
        ),
        (PrivateBind::BindOpen, _) => BindProgress::Perform(PrivateBind::IdentifyBound),
        (PrivateBind::IdentifyBound, BindEvent::Inspected(found)) => BindProgress::Perform(
            PrivateBind::Restrict { bound: identity_of(found) },
        ),
        (PrivateBind::IdentifyBound, _) => BindProgress::Perform(
            PrivateBind::Restrict { bound: None },
        ),
        (PrivateBind::Restrict { bound }, BindEvent::Failed(fault)) => BindProgress::Perform(
            PrivateBind::Release { bound, error: fault.error },
        ),
        (PrivateBind::Restrict { .. }, _) => BindProgress::Finished(Ok(())),
        (PrivateBind::Release { bound, error }, _) => if bound is Some {
            BindProgress::Perform(PrivateBind::IdentifyCurrent { bound, error })
        } else {
            BindProgress::Finished(Err(error))
        },
        (PrivateBind::IdentifyCurrent { bound, error }, BindEvent::Inspected(found)) => if bound
            is Some && identity_of(found) == bound {
            BindProgress::Perform(PrivateBind::Unlink { error })
        } else {
            BindProgress::Finished(Err(error))
        },
        (PrivateBind::IdentifyCurrent { error, .. }, _) => BindProgress::Finished(Err(error)),
        (PrivateBind::Unlink { error }, _) => BindProgress::Finished(Err(error)),
    }
}

/// Binds a listener for private local traffic with owner-only permissions.
pub fn bind_private_socket_with<E>() -> (binding: PrivateBind<E>)
    ensures
        binding == PrivateBind::<E>::BindPrivate,
{
    PrivateBind::BindPrivate
}

impl<E> PrivateBind<E> {
    /// The next action.
    pub fn action(&self) -> (action: BindAction)
        ensures
            action == bind_order(*self),
            *self is BindPrivate ==> action == BindAction::Bind(Some(0o600u32)),
            *self is BindOpen ==> action == BindAction::Bind(None),
            *self is IdentifyBound || *self is IdentifyCurrent ==> action == BindAction::Inspect,
            *self is Restrict ==> action == BindAction::Restrict(0o600),
            *self is Release ==> action == BindAction::Release,
            *self is Unlink ==> action == BindAction::Unlink,
    {
        match self {
            PrivateBind::BindPrivate => BindAction::Bind(Some(SOCKET_PERMISSION_MODE)),
            PrivateBind::BindOpen => BindAction::Bind(None),
            PrivateBind::IdentifyBound => BindAction::Inspect,
            PrivateBind::Restrict { .. } => BindAction::Restrict(SOCKET_PERMISSION_MODE),
            PrivateBind::Release { .. } => BindAction::Release,
            PrivateBind::IdentifyCurrent { .. } => BindAction::Inspect,
            PrivateBind::Unlink { .. } => BindAction::Unlink,
        }
    }

    /// Goes on after the outcome of the action.
    pub fn advance(self, event: BindEvent<E>) -> (progress: BindProgress<E>)
        requires
            can_come_of(bind_order(self), event),
        ensures
            progress == bind_next(self, event),
            self is BindPrivate && event is Done ==> progress == BindProgress::<E>::Finished(
                Ok(()),
            ),
            self is BindPrivate && event is Failed ==> progress == if event->Failed_0.kind
                == ErrorKind::Unsupported {
                BindProgress::Perform(PrivateBind::BindOpen)
            } else {
                BindProgress::Finished(Err(event->Failed_0.error))
            },
            self is BindOpen && event is Done ==> progress == BindProgress::Perform(
                PrivateBind::<E>::IdentifyBound,
            ),
            self is BindOpen && event is Failed ==> progress == BindProgress::Finished(
                Err(event->Failed_0.error),
            ),
            self is IdentifyBound && event is Inspected ==> progress == BindProgress::Perform(
                PrivateBind::<E>::Restrict {
                    bound: match event->Inspected_0 {
                        Some(m) if m.is_socket => Some((m.device, m.inode)),
                        _ => None,
                    },
                },
            ),
            self is Restrict && event is Done ==> progress == BindProgress::<E>::Finished(Ok(())),
            event is Failed ==> (self matches PrivateBind::Restrict { bound } ==> progress
                == BindProgress::Perform(
                PrivateBind::Release { bound, error: event->Failed_0.error },
            )),
            self matches PrivateBind::Release { bound, error } ==> progress == if bound is Some {
                BindProgress::Perform(PrivateBind::IdentifyCurrent { bound, error })
            } else {
                BindProgress::Finished(Err(error))
            },
            event is Inspected ==> (self matches PrivateBind::IdentifyCurrent { bound, error }
                ==> progress == if bound is Some && event->Inspected_0 is Some
                && event->Inspected_0->0.is_socket && event->Inspected_0->0.device == (bound->0).0
                && event->Inspected_0->0.inode == (bound->0).1 {
                BindProgress::Perform(PrivateBind::Unlink { error })
            } else {
                BindProgress::Finished(Err(error))
            }),
            self matches PrivateBind::Unlink { error } ==> progress == BindProgress::Finished(
                Err(error),
            ),
    {
        match self {
            PrivateBind::BindPrivate => match event {
                BindEvent::Failed(fault) => {
                    // The system cannot set the mode before the socket is bound:
                    // it is bound first and restricted then.
                    if fault.kind == ErrorKind::Unsupported {
                        BindProgress::Perform(PrivateBind::BindOpen)
                    } else {
                        BindProgress::Finished(Err(fault.error))
                    }
                },
                _ => BindProgress::Finished(Ok(())),
            },
            PrivateBind::BindOpen => match event {
                BindEvent::Failed(fault) => BindProgress::Finished(Err(fault.error)),
                _ => BindProgress::Perform(PrivateBind::IdentifyBound),
            },
            PrivateBind::IdentifyBound => match event {
                BindEvent::Inspected(found) => BindProgress::Perform(
                    PrivateBind::Restrict { bound: socket_identity(found) },
                ),
                _ => BindProgress::Perform(PrivateBind::Restrict { bound: None }),
            },
            PrivateBind::Restrict { bound } => match event {
                // The socket is published but unrestricted. Nothing else takes its
                // pathname down.
                BindEvent::Failed(fault) => BindProgress::Perform(
                    PrivateBind::Release { bound, error: fault.error },
                ),
                _ => BindProgress::Finished(Ok(())),
            },
            PrivateBind::Release { bound, error } => {
                if bound.is_some() {
                    BindProgress::Perform(PrivateBind::IdentifyCurrent { bound, error })
                } else {
                    BindProgress::Finished(Err(error))
                }
            },
            PrivateBind::IdentifyCurrent { bound, error } => match event {
                BindEvent::Inspected(found) => {
                    if remove_socket_if_unchanged(socket_identity(found), bound) {
                        BindProgress::Perform(PrivateBind::Unlink { error })
                    } else {
                        BindProgress::Finished(Err(error))
                    }
                },
                _ => BindProgress::Finished(Err(error)),
            },
            PrivateBind::Unlink { error } => BindProgress::Finished(Err(error)),
        }
    }
}

// ---------------------------------------------------------------------------
// What holds of every binding
// ---------------------------------------------------------------------------
/// What the world answers to each action of a binding.
pub struct BindWorld<E> {
    pub bind_private: Option<Fault<E>>,
    pub bind_open: Option<Fault<E>>,
    pub bound: Option<FileMetadata>,
    pub restrict: Option<Fault<E>>,
    pub current: Option<FileMetadata>,
    pub unlink: Option<Fault<E>>,
}

/// An action that succeeds, or does not.
pub open spec fn outcome_event<E>(fault: Option<Fault<E>>) -> BindEvent<E> {
    match fault {
        Some(f) => BindEvent::Failed(f),
        None => BindEvent::Done,
    }
}

/// The event that the world makes of a step.
pub open spec fn bind_reply<E>(s: PrivateBind<E>, world: BindWorld<E>) -> BindEvent<E> {
    match s {
        PrivateBind::BindPrivate => outcome_event(world.bind_private),
        PrivateBind::BindOpen => outcome_event(world.bind_open),
        PrivateBind::IdentifyBound => BindEvent::Inspected(world.bound),
        PrivateBind::Restrict { .. } => outcome_event(world.restrict),
        PrivateBind::Release { .. } => BindEvent::Done,
        PrivateBind::IdentifyCurrent { .. } => BindEvent::Inspected(world.current),
        PrivateBind::Unlink { .. } => outcome_event(world.unlink),
    }
}

/// Every reply of a world is one that can come of the action, so a caller that
/// hands back what came of each action can carry every binding through.
pub proof fn law_every_reply_can_come_of_its_action<E>(s: PrivateBind<E>, world: BindWorld<E>)
    ensures
        can_come_of(bind_order(s), bind_reply(s, world)),
{
}

/// The number of steps that are left at most.
pub open spec fn bind_steps_left<E>(s: PrivateBind<E>) -> nat {
    match s {
        PrivateBind::BindPrivate => 7,
        PrivateBind::BindOpen => 6,
        PrivateBind::IdentifyBound => 5,
        PrivateBind::Restrict { .. } => 4,
        PrivateBind::Release { .. } => 3,
        PrivateBind::IdentifyCurrent { .. } => 2,
        PrivateBind::Unlink { .. } => 1,
    }
}

/// A binding that was carried through: the actions, in order, and the outcome.
pub struct BindRun<E> {
    pub actions: Seq<BindAction>,
    pub outcome: Result<(), E>,
}

/// Carries a binding through, in a world.
pub open spec fn bind_run<E>(s: PrivateBind<E>, world: BindWorld<E>) -> BindRun<E>
    decreases bind_steps_left(s),
{
    let action = bind_order(s);
    match bind_next(s, bind_reply(s, world)) {
        BindProgress::Finished(outcome) => BindRun { actions: seq![action], outcome },
        BindProgress::Perform(next) => {
            let rest = bind_run(next, world);
            BindRun { actions: seq![action] + rest.actions, outcome: rest.outcome }
        },
    }
}

/// A world whose system cannot set the mode of a socket before it is bound, and
/// which lets it be bound without one.
pub open spec fn falls_back<E>(world: BindWorld<E>) -> bool {
    &&& world.bind_private matches Some(fault) && fault.kind == ErrorKind::Unsupported
    &&& world.bind_open is None
}

/// A published socket belongs to its owner alone: a binding succeeds exactly where
/// the socket was bound with the mode, or was bound without it and then given it.
pub proof fn law_a_published_socket_is_private<E>(world: BindWorld<E>)
    ensures
        bind_run(PrivateBind::BindPrivate, world).outcome is Ok <==> world.bind_private is None || (
        falls_back(world) && world.restrict is None),
        world.bind_private is None ==> bind_run(PrivateBind::BindPrivate, world).actions == seq![
            BindAction::Bind(Some(0o600)),
        ],
        falls_back(world) && world.restrict is None ==> bind_run(
            PrivateBind::BindPrivate,
            world,
        ).actions == seq![
            BindAction::Bind(Some(0o600)),
            BindAction::Bind(None),
            BindAction::Inspect,
            BindAction::Restrict(0o600),
        ],
{
    reveal_with_fuel(bind_run, 8);
}

/// Any error of the first attempt but that of a system which cannot set the mode
/// is final, and so is any error of the second. Nothing else is done then.
pub proof fn law_other_errors_are_fatal<E>(world: BindWorld<E>)
    ensures
        (world.bind_private matches Some(fault) && fault.kind != ErrorKind::Unsupported) ==> {
            let run = bind_run(PrivateBind::BindPrivate, world);
            &&& run.outcome == Err::<(), E>(world.bind_private->0.error)
            &&& run.actions == seq![BindAction::Bind(Some(0o600))]
        },
        (world.bind_private matches Some(fault) && fault.kind == ErrorKind::Unsupported
            && world.bind_open is Some) ==> {
            let run = bind_run(PrivateBind::BindPrivate, world);
            &&& run.outcome == Err::<(), E>(world.bind_open->0.error)
            &&& run.actions == seq![
                BindAction::Bind(Some(0o600)),
                BindAction::Bind(None),
            ]
        },
{
    reveal_with_fuel(bind_run, 8);
}

/// An unrestricted socket does not stay published: where the restriction fails,
/// its error is reported, the listener is closed, and the pathname is unlinked
/// exactly where it still holds the socket that was bound. One that another
/// process put there is left alone.
pub proof fn law_a_socket_that_cannot_be_restricted_is_taken_down<E>(world: BindWorld<E>)
    requires
        falls_back(world),
        world.restrict is Some,
    ensures
        ({
            let run = bind_run(PrivateBind::BindPrivate, world);
            let tried = seq![
                BindAction::Bind(Some(0o600)),
                BindAction::Bind(None),
                BindAction::Inspect,
                BindAction::Restrict(0o600),
                BindAction::Release,
            ];
            &&& run.outcome == Err::<(), E>(world.restrict->0.error)
            &&& run.actions == if identity_of(world.bound) is None {
                tried
            } else if identity_of(world.current) == identity_of(world.bound) {
                tried + seq![BindAction::Inspect, BindAction::Unlink]
            } else {
                tried + seq![BindAction::Inspect]
            }
        }),
{
    reveal_with_fuel(bind_run, 8);
}

/// The mode of a pathname is changed only where the system cannot set it before
/// the socket is bound.
pub proof fn law_a_pathname_is_restricted_only_as_a_fallback<E>(world: BindWorld<E>)
    requires
        bind_run(PrivateBind::BindPrivate, world).actions.contains(
            BindAction::Restrict(0o600),
        ),
    ensures
        falls_back(world),
{
    reveal_with_fuel(bind_run, 8);
}

/// A pathname is unlinked in no other case: not unless a socket was bound there,
/// could not be restricted, was closed, and is still there.
pub proof fn law_nothing_else_is_unlinked<E>(world: BindWorld<E>)
    requires
        bind_run(PrivateBind::BindPrivate, world).actions.contains(BindAction::Unlink),
    ensures
        falls_back(world),
        world.restrict is Some,
        identity_of(world.bound) is Some,
        identity_of(world.current) == identity_of(world.bound),
{
    reveal_with_fuel(bind_run, 8);
}

} // verus!
