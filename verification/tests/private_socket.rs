//! Publishing private sockets, at a pathname that is kept in memory.

use std::cell::RefCell;
use std::io;

use herdr_platform::{
    bind_private_socket_with, remove_socket_if_unchanged, socket_identity, BindAction, BindEvent,
    BindProgress, ErrorKind, Fault, FileMetadata, PrivateBind,
};

/// What a pathname holds.
#[derive(Clone, Copy, PartialEq, Eq, Debug)]
struct Inode {
    number: u64,
    mode: u32,
    is_socket: bool,
}

type Pathname = RefCell<Option<Inode>>;

fn fault(error: io::Error) -> Fault<io::Error> {
    let kind = match error.kind() {
        io::ErrorKind::Unsupported => ErrorKind::Unsupported,
        io::ErrorKind::AlreadyExists => ErrorKind::AlreadyExists,
        _ => ErrorKind::Other,
    };
    Fault { kind, error }
}

fn event(outcome: io::Result<()>) -> BindEvent<io::Error> {
    match outcome {
        Ok(()) => BindEvent::Done,
        Err(error) => BindEvent::Failed(fault(error)),
    }
}

fn inspect(path: &Pathname) -> Option<FileMetadata> {
    path.borrow().map(|inode| FileMetadata {
        is_socket: inode.is_socket,
        device: 1,
        inode: inode.number,
    })
}

fn carry_through(
    path: &Pathname,
    actions: &mut Vec<BindAction>,
    mut bind: impl FnMut(&Pathname, Option<u32>) -> io::Result<()>,
    restrict: impl Fn(&Pathname, u32) -> io::Result<()>,
) -> io::Result<()> {
    let mut binding: PrivateBind<io::Error> = bind_private_socket_with();
    loop {
        let action = binding.action();
        actions.push(action);
        let outcome = match action {
            BindAction::Bind(mode) => event(bind(path, mode)),
            BindAction::Inspect => BindEvent::Inspected(inspect(path)),
            BindAction::Restrict(mode) => event(restrict(path, mode)),
            BindAction::Release => BindEvent::Done,
            BindAction::Unlink => {
                *path.borrow_mut() = None;
                BindEvent::Done
            }
        };
        match binding.advance(outcome) {
            BindProgress::Perform(next) => binding = next,
            BindProgress::Finished(result) => return result,
        }
    }
}

fn bind_socket(path: &Pathname, mode: Option<u32>) -> io::Result<()> {
    *path.borrow_mut() = Some(Inode {
        number: 7,
        mode: mode.unwrap_or(0o755),
        is_socket: true,
    });
    Ok(())
}

fn bind_without_modes(path: &Pathname, mode: Option<u32>) -> io::Result<()> {
    if mode.is_some() {
        return Err(io::Error::from(io::ErrorKind::Unsupported));
    }
    bind_socket(path, None)
}

fn restrict_socket_permissions(path: &Pathname, mode: u32) -> io::Result<()> {
    if let Some(inode) = path.borrow_mut().as_mut() {
        inode.mode = mode;
    }
    Ok(())
}

fn attempts(actions: &[BindAction]) -> Vec<Option<u32>> {
    actions
        .iter()
        .filter_map(|action| match action {
            BindAction::Bind(mode) => Some(*mode),
            _ => None,
        })
        .collect()
}

#[test]
fn private_local_listener_restricts_socket_to_owner() {
    let socket: Pathname = RefCell::new(None);
    let mut actions = Vec::new();
    carry_through(&socket, &mut actions, bind_socket, |_, _| {
        panic!("the pathname is not changed")
    })
    .unwrap();
    assert_eq!(socket.borrow().unwrap().mode & 0o777, 0o600);
    assert_eq!(
        actions,
        [BindAction::Bind(Some(0o600))],
        "binding a private socket must not alter its parent directory"
    );
}

#[test]
fn private_socket_restricts_after_bind_when_creation_mode_is_unsupported() {
    let socket: Pathname = RefCell::new(None);
    let mut actions = Vec::new();
    carry_through(
        &socket,
        &mut actions,
        bind_without_modes,
        restrict_socket_permissions,
    )
    .unwrap();
    assert_eq!(attempts(&actions), [Some(0o600), None]);
    assert_eq!(socket.borrow().unwrap().mode & 0o777, 0o600);
}

#[test]
fn private_socket_keeps_other_creation_errors_fatal() {
    let socket: Pathname = RefCell::new(None);
    let mut actions = Vec::new();
    let err = carry_through(
        &socket,
        &mut actions,
        |_, _| Err(io::Error::from(io::ErrorKind::PermissionDenied)),
        restrict_socket_permissions,
    )
    .unwrap_err();
    assert_eq!(err.kind(), io::ErrorKind::PermissionDenied);
    assert_eq!(attempts(&actions), [Some(0o600)]);
    assert_eq!(actions.len(), 1);
    assert!(socket.borrow().is_none());
}

#[test]
fn private_socket_is_removed_when_post_bind_restriction_fails() {
    let socket: Pathname = RefCell::new(None);
    let mut actions = Vec::new();
    let err = carry_through(&socket, &mut actions, bind_without_modes, |_, _| {
        Err(io::Error::from(io::ErrorKind::PermissionDenied))
    })
    .unwrap_err();
    assert_eq!(err.kind(), io::ErrorKind::PermissionDenied);
    assert!(
        socket.borrow().is_none(),
        "an unrestricted socket must not stay published"
    );
    assert_eq!(
        actions,
        [
            BindAction::Bind(Some(0o600)),
            BindAction::Bind(None),
            BindAction::Inspect,
            BindAction::Restrict(0o600),
            BindAction::Release,
            BindAction::Inspect,
            BindAction::Unlink,
        ]
    );
}

#[test]
fn restriction_failure_leaves_a_replaced_pathname_alone() {
    let socket: Pathname = RefCell::new(None);
    let mut actions = Vec::new();
    let err = carry_through(&socket, &mut actions, bind_without_modes, |path, _| {
        *path.borrow_mut() = Some(Inode {
            number: 8,
            mode: 0o755,
            is_socket: true,
        });
        Err(io::Error::from(io::ErrorKind::PermissionDenied))
    })
    .unwrap_err();
    assert_eq!(err.kind(), io::ErrorKind::PermissionDenied);
    assert!(
        socket.borrow().is_some(),
        "a pathname Herdr no longer owns must not be unlinked"
    );
    assert!(!actions.contains(&BindAction::Unlink));
}

#[test]
fn a_socket_that_was_never_seen_is_not_unlinked() {
    let socket: Pathname = RefCell::new(None);
    let mut actions = Vec::new();
    let vanishing = |path: &Pathname, mode: Option<u32>| {
        bind_without_modes(path, mode)?;
        *path.borrow_mut() = None;
        Ok(())
    };
    let err = carry_through(&socket, &mut actions, vanishing, |_, _| {
        Err(io::Error::from(io::ErrorKind::NotFound))
    })
    .unwrap_err();
    assert_eq!(err.kind(), io::ErrorKind::NotFound);
    assert_eq!(actions.last(), Some(&BindAction::Release));
}

#[test]
fn a_second_bind_that_fails_is_final() {
    let socket: Pathname = RefCell::new(None);
    let mut actions = Vec::new();
    let err = carry_through(
        &socket,
        &mut actions,
        |_, mode| {
            Err(io::Error::from(match mode {
                Some(_) => io::ErrorKind::Unsupported,
                None => io::ErrorKind::AddrInUse,
            }))
        },
        restrict_socket_permissions,
    )
    .unwrap_err();
    assert_eq!(err.kind(), io::ErrorKind::AddrInUse);
    assert_eq!(attempts(&actions), [Some(0o600), None]);
    assert_eq!(actions.len(), 2);
}

#[test]
fn only_a_socket_has_an_identity() {
    assert_eq!(socket_identity(None), None);
    let file = FileMetadata {
        is_socket: false,
        device: 3,
        inode: 4,
    };
    assert_eq!(socket_identity(Some(file)), None);
    let socket = FileMetadata {
        is_socket: true,
        device: 3,
        inode: 4,
    };
    assert_eq!(socket_identity(Some(socket)), Some((3, 4)));
}

#[test]
fn only_the_same_socket_is_removed() {
    assert!(remove_socket_if_unchanged(Some((3, 4)), Some((3, 4))));
    assert!(!remove_socket_if_unchanged(Some((3, 5)), Some((3, 4))));
    assert!(!remove_socket_if_unchanged(Some((2, 4)), Some((3, 4))));
    assert!(!remove_socket_if_unchanged(None, Some((3, 4))));
    assert!(!remove_socket_if_unchanged(None, None));
}
