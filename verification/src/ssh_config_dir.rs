//! Finding a private directory for the configuration of an SSH connection.
//!
//! The directory must be new, and short enough for the control socket in it to
//! have an address. Up to a hundred names are tried below the temporary
//! directory, and then below `/tmp`. [`SshConfigDirSearch`] holds the decisions:
//! it names the next directory to create, and the caller tries to and hands back
//! a [`DirReply`].

use crate::creation::{create_remote_private_dir, private_dir, DirCreation, NewDir};
use crate::errors::{ErrorKind, Fault};
use crate::remote_paths::fits;
use crate::text::{digits, digits_of};
use crate::unix_path::{fits_unix_socket_path, joined, same_path, UnixPath};
use vstd::prelude::*;
use vstd::utf8::*;

verus! {

/// How many names are tried below one directory.
pub const ATTEMPTS: u32 = 100;

/// Why there is no directory.
#[derive(Debug)]
pub enum SshDirError<E> {
    /// Creating one failed.
    Io(E),
    /// Every name is taken.
    NoFreeName,
    /// With every name the control socket's pathname is too long.
    SocketPathTooLong,
}

impl<E> SshDirError<E> {
    /// The kind of this failure, where it is the search's own.
    pub fn kind(&self) -> (kind: Option<ErrorKind>)
        ensures
            kind == match *self {
                SshDirError::Io(_) => None,
                SshDirError::NoFreeName => Some(ErrorKind::AlreadyExists),
                SshDirError::SocketPathTooLong => Some(ErrorKind::InvalidInput),
            },
    {
        match self {
            SshDirError::Io(_) => None,
            SshDirError::NoFreeName => Some(ErrorKind::AlreadyExists),
            SshDirError::SocketPathTooLong => Some(ErrorKind::InvalidInput),
        }
    }

    /// What to tell the user, where it is the search's own failure.
    pub fn message(&self) -> (message: Option<&'static str>)
        ensures
            message is None <==> *self is Io,
            *self is NoFreeName ==> message->0@
                == "failed to create private herdr ssh config directory"@,
            *self is SocketPathTooLong ==> message->0@
                == "SSH control socket path exceeds the Unix socket length limit"@,
    {
        match self {
            SshDirError::Io(_) => None,
            SshDirError::NoFreeName => Some("failed to create private herdr ssh config directory"),
            SshDirError::SocketPathTooLong => Some(
                "SSH control socket path exceeds the Unix socket length limit",
            ),
        }
    }
}

/// What came of an attempt to create a directory.
pub enum DirReply<E> {
    Created,
    Failed(Fault<E>),
}

/// A name is taken: something of that name is there already.
pub open spec fn is_taken<E>(reply: DirReply<E>) -> bool {
    reply matches DirReply::Failed(fault) && fault.kind == ErrorKind::AlreadyExists
}

/// Creating the directory failed, and not because its name is taken.
pub open spec fn is_refused<E>(reply: DirReply<E>) -> bool {
    reply matches DirReply::Failed(fault) && fault.kind != ErrorKind::AlreadyExists
}

/// A search, at the directory to try next.
pub struct SshConfigDirSearch<E> {
    bases: Vec<UnixPath>,
    process_id: u32,
    socket_name: String,
    base: usize,
    attempt: u32,
    last_error: Option<E>,
    path_fits: bool,
}

/// What is searched for, and where.
pub struct SearchPlan {
    /// The directories below which names are tried.
    pub bases: Seq<Seq<u8>>,
    /// The number of this process.
    pub process_id: nat,
    /// The name of the control socket.
    pub socket_name: Seq<char>,
}

/// What a [`SshConfigDirSearch`] stands for.
pub struct SearchState<E> {
    /// What is searched for, and where.
    pub plan: SearchPlan,
    /// The place of the current one among `bases`.
    pub base: int,
    /// The number of the current name.
    pub attempt: int,
    /// The last error that was not about a name being taken.
    pub last_error: Option<E>,
    /// Whether there was a name with which the control socket has an address.
    pub path_fits: bool,
}

/// The bytes of several paths.
pub open spec fn paths(v: Seq<UnixPath>) -> Seq<Seq<u8>> {
    v.map_values(|p: UnixPath| p@)
}

impl<E> View for SshConfigDirSearch<E> {
    type V = SearchState<E>;

    closed spec fn view(&self) -> SearchState<E> {
        SearchState {
            plan: SearchPlan {
                bases: paths(self.bases@),
                process_id: self.process_id as nat,
                socket_name: self.socket_name@,
            },
            base: self.base as int,
            attempt: self.attempt as int,
            last_error: self.last_error,
            path_fits: self.path_fits,
        }
    }
}

/// Where a search stands.
pub enum SearchProgress<E> {
    /// There is another directory to try.
    Try(SshConfigDirSearch<E>),
    /// The search is over.
    Finished(Result<UnixPath, SshDirError<E>>),
}

/// What a [`SearchProgress`] stands for.
pub enum SearchStanding<E> {
    Try(SearchState<E>),
    Finished(Result<Seq<u8>, SshDirError<E>>),
}

impl<E> View for SearchProgress<E> {
    type V = SearchStanding<E>;

    open spec fn view(&self) -> SearchStanding<E> {
        match self {
            SearchProgress::Try(search) => SearchStanding::Try(search@),
            SearchProgress::Finished(Ok(dir)) => SearchStanding::Finished(Ok(dir@)),
            SearchProgress::Finished(Err(e)) => SearchStanding::Finished(Err(*e)),
        }
    }
}

/// The directories below which names are tried: the temporary one, and `/tmp`
/// where that is another.
pub open spec fn search_bases(temp_dir: Seq<u8>) -> Seq<Seq<u8>> {
    if same_path(temp_dir, encode_utf8("/tmp"@)) {
        seq![temp_dir]
    } else {
        seq![temp_dir, encode_utf8("/tmp"@)]
    }
}

/// The name of the directory that is tried at an attempt.
pub open spec fn dir_name(process_id: nat, attempt: nat) -> Seq<char> {
    "herdr-ssh-"@ + digits(process_id, 10) + "-"@ + digits(attempt, 10)
}

/// The directory that is tried below `base` at an attempt.
pub open spec fn candidate(base: Seq<u8>, process_id: nat, attempt: int) -> Seq<u8> {
    joined(base, encode_utf8(dir_name(process_id, attempt as nat)))
}

/// The directory of a base and an attempt.
pub open spec fn dir_at(plan: SearchPlan, base: int, attempt: int) -> Seq<u8> {
    candidate(plan.bases[base], plan.process_id, attempt)
}

/// Whether the control socket has an address in the directory of a base and an
/// attempt.
pub open spec fn usable(plan: SearchPlan, base: int, attempt: int) -> bool {
    fits(joined(dir_at(plan, base, attempt), encode_utf8(plan.socket_name)))
}

/// A search looks below the temporary directory first, whatever that is, and then
/// below `/tmp`, unless that is the same path. It looks nowhere else.
pub proof fn law_where_a_search_looks(temp_dir: Seq<u8>)
    ensures
        search_bases(temp_dir).len() >= 1,
        search_bases(temp_dir)[0] == temp_dir,
        search_bases(temp_dir).len() == if same_path(temp_dir, encode_utf8("/tmp"@)) {
            1int
        } else {
            2int
        },
        search_bases(temp_dir).len() == 2 ==> search_bases(temp_dir)[1] == encode_utf8("/tmp"@),
{
}

/// The directory of an attempt lies below its base, and its name tells the number
/// of the process and that of the attempt, both in decimal. It is usable where the
/// pathname of the control socket in it has at most 103 bytes.
pub proof fn law_what_is_tried(plan: SearchPlan, base: int, attempt: int)
    requires
        0 <= attempt,
    ensures
        dir_at(plan, base, attempt) == joined(
            plan.bases[base],
            encode_utf8(
                "herdr-ssh-"@ + digits(plan.process_id, 10) + seq!['-'] + digits(
                    attempt as nat,
                    10,
                ),
            ),
        ),
        usable(plan, base, attempt) <==> joined(
            dir_at(plan, base, attempt),
            encode_utf8(plan.socket_name),
        ).len() <= 103,
{
    reveal_strlit("-");
    assert("-"@ == seq!['-']);
}

/// The search for a directory, before its first attempt.
pub open spec fn search_start<E>(
    temp_dir: Seq<u8>,
    process_id: nat,
    socket_name: Seq<char>,
) -> SearchState<E> {
    SearchState {
        plan: SearchPlan { bases: search_bases(temp_dir), process_id, socket_name },
        base: 0,
        attempt: 0,
        last_error: None,
        path_fits: false,
    }
}

/// The search at the first usable directory from where it is, if there is one, and
/// behind the last base otherwise.
pub open spec fn settled<E>(s: SearchState<E>) -> SearchState<E>
    decreases s.plan.bases.len() - s.base, ATTEMPTS - s.attempt,
{
    if s.base >= s.plan.bases.len() {
        s
    } else if s.attempt >= ATTEMPTS {
        settled(SearchState { base: s.base + 1, attempt: 0, ..s })
    } else if usable(s.plan, s.base, s.attempt) {
        SearchState { path_fits: true, ..s }
    } else {
        settled(SearchState { attempt: s.attempt + 1, ..s })
    }
}

/// Passing over what is not usable changes neither what is searched for nor the
/// last error.
proof fn lemma_plan_is_kept<E>(s: SearchState<E>)
    ensures
        settled(s).plan == s.plan,
        settled(s).last_error == s.last_error,
    decreases s.plan.bases.len() - s.base, ATTEMPTS - s.attempt,
{
    if s.base >= s.plan.bases.len() {
    } else if s.attempt >= ATTEMPTS {
        lemma_plan_is_kept(SearchState { base: s.base + 1, attempt: 0, ..s });
    } else if !usable(s.plan, s.base, s.attempt) {
        lemma_plan_is_kept(SearchState { attempt: s.attempt + 1, ..s });
    }
}

/// The failure of a search that has tried everything.
pub open spec fn search_failure<E>(s: SearchState<E>) -> SshDirError<E> {
    match s.last_error {
        Some(e) => SshDirError::Io(e),
        None => if s.path_fits {
            SshDirError::NoFreeName
        } else {
            SshDirError::SocketPathTooLong
        },
    }
}

/// Where a search stands once it has passed over what is not usable.
pub open spec fn search_standing<E>(s: SearchState<E>) -> SearchStanding<E> {
    let here = settled(s);
    if here.base >= here.plan.bases.len() {
        SearchStanding::Finished(Err(search_failure(here)))
    } else {
        SearchStanding::Try(here)
    }
}

/// Where a search stands after a reply: a name that is taken leads to the next
/// name, any other error to the next base.
pub open spec fn search_next<E>(s: SearchState<E>, reply: DirReply<E>) -> SearchStanding<E> {
    match reply {
        DirReply::Created => SearchStanding::Finished(Ok(dir_at(s.plan, s.base, s.attempt))),
        DirReply::Failed(fault) => if fault.kind == ErrorKind::AlreadyExists {
            search_standing(SearchState { attempt: s.attempt + 1, ..s })
        } else {
            search_standing(
                SearchState {
                    base: s.base + 1,
                    attempt: 0,
                    last_error: Some(fault.error),
                    ..s
                },
            )
        },
    }
}

/// The creation that a search calls for.
pub open spec fn search_order<E>(s: SearchState<E>) -> NewDir {
    private_dir(dir_at(s.plan, s.base, s.attempt))
}

/// A search that is at a directory to try.
pub open spec fn at_a_directory<E>(s: SearchState<E>) -> bool {
    &&& 0 <= s.base < s.plan.bases.len()
    &&& 0 <= s.attempt < ATTEMPTS
}

/// The directory of an attempt, below `base`.
fn directory_below(base: &UnixPath, process_id: u32, attempt: u32) -> (dir: UnixPath)
    ensures
        dir@ == candidate(base@, process_id as nat, attempt as int),
{
    let mut name = "herdr-ssh-".to_string();
    name.append(digits_of(process_id as u128, 10).as_str());
    name.append("-");
    name.append(digits_of(attempt as u128, 10).as_str());
    base.join(name.as_str())
}

impl<E> SshConfigDirSearch<E> {
    /// Passes over the directories that are not usable.
    fn settle(self) -> (progress: SearchProgress<E>)
        ensures
            progress@ == search_standing(self@),
            progress matches SearchProgress::Try(search) ==> at_a_directory(search@),
    {
        let mut search = self;
        while search.base < search.bases.len()
            invariant
                settled(search@) == settled(self@),
            decreases search@.plan.bases.len() - search@.base, ATTEMPTS - search@.attempt,
        {
            if search.attempt >= ATTEMPTS {
                search.base = search.base + 1;
                search.attempt = 0;
            } else {
                let dir = directory_below(
                    &search.bases[search.base],
                    search.process_id,
                    search.attempt,
                );
                if fits_unix_socket_path(&dir.join(search.socket_name.as_str())) {
                    search.path_fits = true;
                    return SearchProgress::Try(search);
                }
                search.attempt = search.attempt + 1;
            }
        }
        SearchProgress::Finished(
            Err(
                match search.last_error {
                    Some(e) => SshDirError::Io(e),
                    None => if search.path_fits {
                        SshDirError::NoFreeName
                    } else {
                        SshDirError::SocketPathTooLong
                    },
                },
            ),
        )
    }

    /// The directory that is tried.
    fn candidate_dir(&self) -> (dir: UnixPath)
        requires
            at_a_directory(self@),
        ensures
            dir@ == dir_at(self@.plan, self@.base, self@.attempt),
    {
        directory_below(&self.bases[self.base], self.process_id, self.attempt)
    }

    /// The directory to create, for its owner alone.
    pub fn directory(&self) -> (creation: DirCreation)
        requires
            at_a_directory(self@),
        ensures
            creation@ == search_order(self@),
            creation.path@ == dir_at(self@.plan, self@.base, self@.attempt),
            creation.path@ == joined(
                self@.plan.bases[self@.base],
                encode_utf8(
                    "herdr-ssh-"@ + digits(self@.plan.process_id, 10) + seq!['-'] + digits(
                        self@.attempt as nat,
                        10,
                    ),
                ),
            ),
            creation.mode == 0o700,
            creation.must_be_new,
    {
        proof {
            law_what_is_tried(self@.plan, self@.base, self@.attempt);
        }
        create_remote_private_dir(self.candidate_dir())
    }

    /// Goes on after the attempt to create it.
    pub fn advance(self, reply: DirReply<E>) -> (progress: SearchProgress<E>)
        requires
            at_a_directory(self@),
        ensures
            progress@ == search_next(self@, reply),
            progress matches SearchProgress::Try(search) ==> at_a_directory(search@),
            reply is Created ==> (progress matches SearchProgress::Finished(Ok(dir)) && dir@
                == joined(
                self@.plan.bases[self@.base],
                encode_utf8(
                    "herdr-ssh-"@ + digits(self@.plan.process_id, 10) + seq!['-'] + digits(
                        self@.attempt as nat,
                        10,
                    ),
                ),
            )),
            reply is Failed ==> !(progress matches SearchProgress::Finished(Ok(_))),
    {
        proof {
            law_what_is_tried(self@.plan, self@.base, self@.attempt);
        }
        let mut search = self;
        match reply {
            DirReply::Created => SearchProgress::Finished(Ok(search.candidate_dir())),
            DirReply::Failed(fault) => {
                if fault.kind == ErrorKind::AlreadyExists {
                    search.attempt = search.attempt + 1;
                } else {
                    assert(search.base < search.bases.len());
                    search.last_error = Some(fault.error);
                    search.base = search.base + 1;
                    search.attempt = 0;
                }
                search.settle()
            },
        }
    }
}

/// Searches a private directory in which a control socket of the given name has
/// an address.
pub fn create_remote_ssh_config_dir<E>(
    temp_dir: &UnixPath,
    process_id: u32,
    control_socket_name: &str,
) -> (progress: SearchProgress<E>)
    ensures
        progress@ == search_standing(
            search_start::<E>(temp_dir@, process_id as nat, control_socket_name@),
        ),
        progress matches SearchProgress::Try(search) ==> at_a_directory(search@),
        progress matches SearchProgress::Try(search) ==> {
            &&& search@.plan.bases.len() >= 1
            &&& search@.plan.bases[0] == temp_dir@
            &&& search@.plan.bases.len() == if same_path(temp_dir@, encode_utf8("/tmp"@)) {
                1int
            } else {
                2int
            }
            &&& search@.plan.bases.len() == 2 ==> search@.plan.bases[1] == encode_utf8("/tmp"@)
            &&& search@.plan.process_id == process_id
            &&& search@.plan.socket_name == control_socket_name@
            &&& search@.last_error is None
        },
        !(progress matches SearchProgress::Finished(Ok(_))),
{
    proof {
        lemma_plan_is_kept(
            search_start::<E>(temp_dir@, process_id as nat, control_socket_name@),
        );
    }
    let short_tmp = UnixPath::from_text("/tmp");
    let mut bases: Vec<UnixPath> = Vec::new();
    bases.push(temp_dir.clone());
    if !temp_dir.same_as(&short_tmp) {
        bases.push(short_tmp);
    }
    assert(paths(bases@) == search_bases(temp_dir@));
    let search: SshConfigDirSearch<E> = SshConfigDirSearch {
        bases,
        process_id,
        socket_name: control_socket_name.to_string(),
        base: 0,
        attempt: 0,
        last_error: None,
        path_fits: false,
    };
    search.settle()
}

} // verus!
