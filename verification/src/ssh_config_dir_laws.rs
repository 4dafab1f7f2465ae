//! What holds of every search for a configuration directory.

use crate::creation::{private_dir, NewDir};
use crate::errors::ErrorKind;
use crate::ssh_config_dir::{
    at_a_directory, dir_at, is_refused, is_taken, law_what_is_tried, law_where_a_search_looks,
    search_failure, search_next, search_order, search_standing, search_start, settled, usable,
    DirReply, SearchPlan, SearchStanding, SearchState, SshDirError, ATTEMPTS,
};
use crate::text::digits;
use crate::unix_path::{joined, MAX_SOCKET_PATH};
use vstd::prelude::*;
use vstd::utf8::*;

verus! {

/// What the world answers when the directory of a base and an attempt is to be
/// created.
pub type DirWorld<E> = spec_fn(int, int) -> DirReply<E>;

/// The outcome of a search from where it is, in a world.
pub open spec fn search_outcome<E>(s: SearchState<E>, world: DirWorld<E>) -> Result<
    Seq<u8>,
    SshDirError<E>,
>
    decreases s.plan.bases.len() - s.base, ATTEMPTS - s.attempt,
{
    if s.base >= s.plan.bases.len() {
        Err(search_failure(s))
    } else if s.attempt >= ATTEMPTS {
        search_outcome(SearchState { base: s.base + 1, attempt: 0, ..s }, world)
    } else if !usable(s.plan, s.base, s.attempt) {
        search_outcome(SearchState { attempt: s.attempt + 1, ..s }, world)
    } else {
        match world(s.base, s.attempt) {
            DirReply::Created => Ok(dir_at(s.plan, s.base, s.attempt)),
            DirReply::Failed(fault) => if fault.kind == ErrorKind::AlreadyExists {
                search_outcome(
                    SearchState { attempt: s.attempt + 1, path_fits: true, ..s },
                    world,
                )
            } else {
                search_outcome(
                    SearchState {
                        base: s.base + 1,
                        attempt: 0,
                        last_error: Some(fault.error),
                        path_fits: true,
                        ..s
                    },
                    world,
                )
            },
        }
    }
}

/// An attempt that was made: what was to be created, and what came of it.
pub struct DirAttempt<E> {
    pub order: NewDir,
    pub reply: DirReply<E>,
}

/// The attempts of a search from where it is, in a world.
pub open spec fn search_attempts<E>(s: SearchState<E>, world: DirWorld<E>) -> Seq<DirAttempt<E>>
    decreases s.plan.bases.len() - s.base, ATTEMPTS - s.attempt,
{
    if s.base >= s.plan.bases.len() {
        Seq::empty()
    } else if s.attempt >= ATTEMPTS {
        search_attempts(SearchState { base: s.base + 1, attempt: 0, ..s }, world)
    } else if !usable(s.plan, s.base, s.attempt) {
        search_attempts(SearchState { attempt: s.attempt + 1, ..s }, world)
    } else {
        let reply = world(s.base, s.attempt);
        let made = seq![DirAttempt { order: search_order(s), reply }];
        if is_taken(reply) {
            made + search_attempts(SearchState { attempt: s.attempt + 1, ..s }, world)
        } else if is_refused(reply) {
            made + search_attempts(SearchState { base: s.base + 1, attempt: 0, ..s }, world)
        } else {
            made
        }
    }
}

/// The attempts of a search that stands somewhere.
pub open spec fn standing_attempts<E>(p: SearchStanding<E>, world: DirWorld<E>) -> Seq<
    DirAttempt<E>,
> {
    match p {
        SearchStanding::Finished(_) => Seq::empty(),
        SearchStanding::Try(s) => search_attempts(s, world),
    }
}

/// Where a search is, what it looks for, and the world, decide its attempts.
proof fn lemma_attempts<E>(s: SearchState<E>, t: SearchState<E>, world: DirWorld<E>)
    requires
        s.plan == t.plan,
        s.base == t.base,
        s.attempt == t.attempt,
    ensures
        search_attempts(s, world) == search_attempts(t, world),
    decreases s.plan.bases.len() - s.base, ATTEMPTS - s.attempt,
{
    if s.base < s.plan.bases.len() {
        if s.attempt < ATTEMPTS {
            lemma_attempts(
                SearchState { attempt: s.attempt + 1, ..s },
                SearchState { attempt: t.attempt + 1, ..t },
                world,
            );
        }
        lemma_attempts(
            SearchState { base: s.base + 1, attempt: 0, ..s },
            SearchState { base: t.base + 1, attempt: 0, ..t },
            world,
        );
    }
}

/// The outcome of a search that stands somewhere.
pub open spec fn standing_outcome<E>(p: SearchStanding<E>, world: DirWorld<E>) -> Result<
    Seq<u8>,
    SshDirError<E>,
> {
    match p {
        SearchStanding::Finished(outcome) => outcome,
        SearchStanding::Try(s) => search_outcome(s, world),
    }
}

/// A search that has come to a usable directory.
pub open spec fn ready<E>(s: SearchState<E>) -> bool {
    &&& at_a_directory(s)
    &&& usable(s.plan, s.base, s.attempt)
    &&& s.path_fits
}

/// Passing over what is not usable leaves the outcome as it is, goes forward, and
/// ends at a usable directory or behind the last base.
proof fn lemma_settled<E>(s: SearchState<E>, world: DirWorld<E>)
    requires
        0 <= s.base,
        0 <= s.attempt,
    ensures
        search_outcome(settled(s), world) == search_outcome(s, world),
        search_attempts(settled(s), world) == search_attempts(s, world),
        settled(s).plan == s.plan,
        settled(s).last_error == s.last_error,
        settled(s).base >= s.plan.bases.len() ==> settled(s).path_fits == s.path_fits,
        settled(s).base < s.plan.bases.len() ==> ready(settled(s)),
        settled(s).base > s.base || (settled(s).base == s.base && settled(s).attempt >= s.attempt),
    decreases s.plan.bases.len() - s.base, ATTEMPTS - s.attempt,
{
    if s.base >= s.plan.bases.len() {
    } else if s.attempt >= ATTEMPTS {
        lemma_settled(SearchState { base: s.base + 1, attempt: 0, ..s }, world);
    } else if !usable(s.plan, s.base, s.attempt) {
        lemma_settled(SearchState { attempt: s.attempt + 1, ..s }, world);
    } else {
        lemma_attempts(settled(s), s, world);
    }
}

/// However the search is begun, its attempts and its outcome are those of the
/// start.
pub proof fn law_a_search_begins_with_its_outcome<E>(
    temp_dir: Seq<u8>,
    process_id: nat,
    socket_name: Seq<char>,
    world: DirWorld<E>,
)
    ensures
        ({
            let start = search_start::<E>(temp_dir, process_id, socket_name);
            &&& is_start(start)
            &&& start.plan.process_id == process_id
            &&& start.plan.socket_name == socket_name
            &&& standing_outcome(search_standing(start), world) == search_outcome(start, world)
            &&& standing_attempts(search_standing(start), world) == search_attempts(start, world)
            &&& search_standing(start) matches SearchStanding::Try(s) ==> ready(s) && s.plan
                == start.plan
        }),
{
    lemma_settled(search_start::<E>(temp_dir, process_id, socket_name), world);
}

/// Every attempt leads on to the outcome, and forward: none is made twice, so a
/// search ends, and it ends with its outcome.
pub proof fn law_every_attempt_leads_to_the_outcome<E>(s: SearchState<E>, world: DirWorld<E>)
    requires
        ready(s),
    ensures
        ({
            let next = search_next(s, world(s.base, s.attempt));
            &&& standing_outcome(next, world) == search_outcome(s, world)
            &&& search_attempts(s, world) == seq![
                DirAttempt { order: search_order(s), reply: world(s.base, s.attempt) },
            ] + standing_attempts(next, world)
            &&& next matches SearchStanding::Try(t) ==> {
                &&& ready(t)
                &&& t.plan == s.plan
                &&& t.base > s.base || (t.base == s.base && t.attempt > s.attempt)
            }
        }),
{
    match world(s.base, s.attempt) {
        DirReply::Created => {},
        DirReply::Failed(fault) => {
            if fault.kind == ErrorKind::AlreadyExists {
                let t = SearchState { attempt: s.attempt + 1, ..s };
                lemma_settled(t, world);
            } else {
                let t = SearchState {
                    base: s.base + 1,
                    attempt: 0,
                    last_error: Some(fault.error),
                    ..s
                };
                lemma_settled(t, world);
                lemma_attempts(t, SearchState { base: s.base + 1, attempt: 0, ..s }, world);
            }
        },
    }
}

/// What a search comes to once it has passed over what does not fit.
proof fn lemma_passed_over<E>(s: SearchState<E>)
    requires
        0 <= s.base,
        0 <= s.attempt,
    ensures
        settled(s).plan == s.plan,
        settled(s).last_error == s.last_error,
        settled(s).base >= s.plan.bases.len() ==> settled(s).path_fits == s.path_fits,
        settled(s).base >= s.base,
        settled(s).base == s.base ==> settled(s).attempt >= s.attempt,
        settled(s).base < s.plan.bases.len() ==> ready(settled(s)),
        forall|b: int, a: int|
            s.base <= b <= settled(s).base && b < s.plan.bases.len() && 0 <= a < 100 && (b == s.base
                ==> s.attempt <= a) && (b == settled(s).base ==> a < settled(s).attempt)
                ==> !#[trigger] usable(s.plan, b, a),
    decreases s.plan.bases.len() - s.base, ATTEMPTS - s.attempt,
{
    if s.base >= s.plan.bases.len() {
    } else if s.attempt >= ATTEMPTS {
        lemma_passed_over(SearchState { base: s.base + 1, attempt: 0, ..s });
    } else if !usable(s.plan, s.base, s.attempt) {
        lemma_passed_over(SearchState { attempt: s.attempt + 1, ..s });
    }
}

/// A search stops at the first name, from where it is, with which the pathname of
/// the control socket has at most 103 bytes. A hundred names are looked at below
/// each base, in order, and then the next base; none that fits is passed over.
/// Where none does the search is over, and it fails with the last error, where
/// there was one, or else for want of a free name, where some name had fitted, or
/// else for the length of the pathname.
pub proof fn law_a_search_stops_at_the_first_name_that_fits<E>(s: SearchState<E>)
    requires
        0 <= s.base,
        0 <= s.attempt,
    ensures
        match search_standing(s) {
            SearchStanding::Try(t) => {
                &&& t.plan == s.plan
                &&& t.last_error == s.last_error
                &&& t.path_fits
                &&& s.base <= t.base < s.plan.bases.len()
                &&& 0 <= t.attempt < 100
                &&& t.base == s.base ==> s.attempt <= t.attempt
                &&& joined(
                    joined(
                        s.plan.bases[t.base],
                        encode_utf8(
                            "herdr-ssh-"@ + digits(s.plan.process_id, 10) + seq!['-'] + digits(
                                t.attempt as nat,
                                10,
                            ),
                        ),
                    ),
                    encode_utf8(s.plan.socket_name),
                ).len() <= 103
                &&& forall|b: int, a: nat|
                    #![trigger s.plan.bases[b], digits(a, 10)]
                    s.base <= b <= t.base && a < 100 && (b == s.base ==> s.attempt <= a) && (b
                        == t.base ==> a < t.attempt) ==> joined(
                    joined(
                        s.plan.bases[b],
                        encode_utf8(
                            "herdr-ssh-"@ + digits(s.plan.process_id, 10) + seq!['-'] + digits(
                                a,
                                10,
                            ),
                        ),
                    ),
                    encode_utf8(s.plan.socket_name),
                ).len() > 103
            },
            SearchStanding::Finished(Ok(_)) => false,
            SearchStanding::Finished(Err(e)) => {
                &&& e == match s.last_error {
                    Some(last) => SshDirError::Io(last),
                    None => if s.path_fits {
                        SshDirError::NoFreeName
                    } else {
                        SshDirError::SocketPathTooLong
                    },
                }
                &&& forall|b: int, a: nat|
                    #![trigger s.plan.bases[b], digits(a, 10)]
                    s.base <= b < s.plan.bases.len() && a < 100 && (b == s.base ==> s.attempt
                        <= a) ==> joined(
                    joined(
                        s.plan.bases[b],
                        encode_utf8(
                            "herdr-ssh-"@ + digits(s.plan.process_id, 10) + seq!['-'] + digits(
                                a,
                                10,
                            ),
                        ),
                    ),
                    encode_utf8(s.plan.socket_name),
                ).len() > 103
            },
        },
{
    lemma_passed_over(s);
    let t = settled(s);
    if t.base < s.plan.bases.len() {
        law_what_is_tried(s.plan, t.base, t.attempt);
    }
    assert forall|b: int, a: nat|
        #![trigger s.plan.bases[b], digits(a, 10)]
        s.base <= b <= t.base && b < s.plan.bases.len() && a < 100 && (b == s.base
            ==> s.attempt <= a) && (b == t.base ==> a < t.attempt) implies joined(
                    joined(
                        s.plan.bases[b],
                        encode_utf8(
                            "herdr-ssh-"@ + digits(s.plan.process_id, 10) + seq!['-'] + digits(
                                a,
                                10,
                            ),
                        ),
                    ),
                    encode_utf8(s.plan.socket_name),
                ).len() > 103 by {
        law_what_is_tried(s.plan, b, a as int);
        assert(!usable(s.plan, b, a as int));
    }
}

/// A directory that was created is the one that is found. Where its name was taken
/// the search goes on with the next name below the same base. Any other error is
/// kept, and the search goes on with the first name below the next base.
pub proof fn law_what_a_reply_leads_to<E>(s: SearchState<E>, reply: DirReply<E>)
    requires
        0 <= s.attempt,
    ensures
        reply is Created ==> search_next(s, reply) == SearchStanding::<E>::Finished(
            Ok(
                joined(
                    s.plan.bases[s.base],
                    encode_utf8(
                        "herdr-ssh-"@ + digits(s.plan.process_id, 10) + seq!['-'] + digits(
                            s.attempt as nat,
                            10,
                        ),
                    ),
                ),
            ),
        ),
        reply matches DirReply::Failed(fault) ==> search_next(s, reply) == if fault.kind
            == ErrorKind::AlreadyExists {
            search_standing(
                SearchState {
                    plan: s.plan,
                    base: s.base,
                    attempt: s.attempt + 1,
                    last_error: s.last_error,
                    path_fits: s.path_fits,
                },
            )
        } else {
            search_standing(
                SearchState {
                    plan: s.plan,
                    base: s.base + 1,
                    attempt: 0,
                    last_error: Some(fault.error),
                    path_fits: s.path_fits,
                },
            )
        },
{
    law_what_is_tried(s.plan, s.base, s.attempt);
}

/// Whatever the temporary directory is, it is tried first: where the control
/// socket has an address in the first directory below it, that directory is the
/// first to be created, and where creating it succeeds it is the one that is
/// found.
pub proof fn law_the_temporary_directory_comes_first<E>(
    temp_dir: Seq<u8>,
    process_id: nat,
    socket_name: Seq<char>,
    world: DirWorld<E>,
)
    requires
        joined(
            joined(temp_dir, encode_utf8("herdr-ssh-"@ + digits(process_id, 10) + "-0"@)),
            encode_utf8(socket_name),
        ).len() <= 103,
    ensures
        ({
            let start = search_start::<E>(temp_dir, process_id, socket_name);
            let first = joined(
                temp_dir,
                encode_utf8("herdr-ssh-"@ + digits(process_id, 10) + "-0"@),
            );
            &&& search_standing(start) matches SearchStanding::Try(s) && search_order(s).path
                == first && search_order(s).mode == 0o700 && search_order(s).must_be_new
            &&& world(0, 0) is Created ==> search_outcome(start, world) == Ok::<
                Seq<u8>,
                SshDirError<E>,
            >(first)
        }),
{
    let start = search_start::<E>(temp_dir, process_id, socket_name);
    reveal_strlit("-0");
    reveal_strlit("0123456789abcdef");
    law_where_a_search_looks(temp_dir);
    law_what_is_tried(start.plan, 0, 0);
    assert(digits(0, 10) == seq!['0']);
    assert("herdr-ssh-"@ + digits(process_id, 10) + seq!['-'] + digits(0, 10) == "herdr-ssh-"@
        + digits(process_id, 10) + "-0"@);
    assert(usable(start.plan, 0, 0));
}

/// An attempt that there is.
pub open spec fn is_attempt(plan: SearchPlan, base: int, attempt: int) -> bool {
    0 <= base < plan.bases.len() && 0 <= attempt < 100
}

/// All usable names below `base` before `attempt` are taken.
pub open spec fn taken_before<E>(
    plan: SearchPlan,
    world: DirWorld<E>,
    base: int,
    attempt: int,
) -> bool {
    forall|a: int|
        0 <= a < attempt && #[trigger] usable(plan, base, a) ==> is_taken(world(base, a))
}

/// The first usable name below `base` that is not taken is that of `attempt`.
pub open spec fn decides<E>(
    plan: SearchPlan,
    world: DirWorld<E>,
    base: int,
    attempt: int,
) -> bool {
    &&& is_attempt(plan, base, attempt)
    &&& usable(plan, base, attempt)
    &&& taken_before(plan, world, base, attempt)
    &&& !is_taken(world(base, attempt))
}

/// The outcome of a search that has tried everything up to where it is.
proof fn lemma_outcome<E>(s: SearchState<E>, world: DirWorld<E>)
    requires
        0 <= s.base <= s.plan.bases.len(),
        0 <= s.attempt <= ATTEMPTS,
        taken_before(s.plan, world, s.base, s.attempt),
    ensures
        match search_outcome(s, world) {
            Ok(dir) => exists|b: int, a: int|
                s.base <= b && #[trigger] decides(s.plan, world, b, a) && world(b, a) is Created
                    && dir == dir_at(s.plan, b, a) && (forall|c: int, d: int|
                    s.base <= c < b && #[trigger] decides(s.plan, world, c, d) ==> is_refused(
                        world(c, d),
                    )),
            Err(SshDirError::Io(e)) => {
                &&& forall|b: int, a: int|
                    s.base <= b && #[trigger] decides(s.plan, world, b, a) ==> is_refused(world(b, a))
                &&& {
                    ||| s.last_error == Some(e) && (forall|b: int, a: int|
                        s.base <= b ==> !#[trigger] decides(s.plan, world, b, a))
                    ||| exists|b: int, a: int|
                        s.base <= b && #[trigger] decides(s.plan, world, b, a) && is_refused(
                            world(b, a),
                        ) && world(b, a)->Failed_0.error == e && (forall|c: int, d: int|
                            b < c ==> !#[trigger] decides(s.plan, world, c, d))
                }
            },
            Err(SshDirError::NoFreeName) => {
                &&& s.last_error is None
                &&& forall|b: int, a: int| s.base <= b ==> !#[trigger] decides(s.plan, world, b, a)
                &&& s.path_fits || exists|b: int, a: int|
                    s.base <= b && is_attempt(s.plan, b, a) && #[trigger] usable(s.plan, b, a)
            },
            Err(SshDirError::SocketPathTooLong) => {
                &&& s.last_error is None
                &&& !s.path_fits
                &&& forall|b: int, a: int|
                    s.base <= b && is_attempt(s.plan, b, a) && (b == s.base ==> s.attempt <= a)
                        ==> !#[trigger] usable(s.plan, b, a)
            },
        },
    decreases s.plan.bases.len() - s.base, ATTEMPTS - s.attempt,
{
    if s.base >= s.plan.bases.len() {
    } else if s.attempt >= ATTEMPTS {
        let t = SearchState { base: s.base + 1, attempt: 0, ..s };
        assert(forall|a: int| !#[trigger] decides(s.plan, world, s.base, a));
        lemma_outcome(t, world);
    } else if !usable(s.plan, s.base, s.attempt) {
        let t = SearchState { attempt: s.attempt + 1, ..s };
        lemma_outcome(t, world);
    } else {
        match world(s.base, s.attempt) {
            DirReply::Created => {
                assert(decides(s.plan, world, s.base, s.attempt));
            },
            DirReply::Failed(fault) => {
                if fault.kind == ErrorKind::AlreadyExists {
                    let t = SearchState { attempt: s.attempt + 1, path_fits: true, ..s };
                    lemma_outcome(t, world);
                } else {
                    let t = SearchState {
                        base: s.base + 1,
                        attempt: 0,
                        last_error: Some(fault.error),
                        path_fits: true,
                        ..s
                    };
                    lemma_outcome(t, world);
                    assert(decides(s.plan, world, s.base, s.attempt));
                    assert forall|a: int| #[trigger] decides(s.plan, world, s.base, a) implies a
                        == s.attempt by {
                        if a > s.attempt {
                            assert(usable(s.plan, s.base, s.attempt));
                        }
                    }
                }
            },
        }
    }
}

/// Where not every usable name up to an attempt is taken, some attempt decides.
proof fn lemma_some_attempt_decides<E>(
    plan: SearchPlan,
    world: DirWorld<E>,
    base: int,
    attempt: int,
)
    requires
        is_attempt(plan, base, attempt),
        usable(plan, base, attempt),
        !is_taken(world(base, attempt)),
    ensures
        exists|a: int| a <= attempt && #[trigger] decides(plan, world, base, a),
    decreases attempt,
{
    if taken_before(plan, world, base, attempt) {
        assert(decides(plan, world, base, attempt));
    } else {
        let a = choose|a: int|
            0 <= a < attempt && #[trigger] usable(plan, base, a) && !is_taken(
                world(base, a),
            );
        lemma_some_attempt_decides(plan, world, base, a);
    }
}

/// A search that has not begun.
pub open spec fn is_start<E>(s: SearchState<E>) -> bool {
    &&& s.base == 0
    &&& s.attempt == 0
    &&& s.last_error is None
    &&& !s.path_fits
}

/// A search finds a directory exactly where, below some base, the first usable
/// name that is not taken can be created. It is then the directory of the first
/// such base, and below each base before it creating one had failed.
pub proof fn law_when_a_directory_is_found<E>(s: SearchState<E>, world: DirWorld<E>)
    requires
        is_start(s),
    ensures
        search_outcome(s, world) is Ok <==> exists|b: int, a: int|
            #[trigger] decides(s.plan, world, b, a) && world(b, a) is Created,
        search_outcome(s, world) matches Ok(dir) ==> exists|b: int, a: int|
            #[trigger] decides(s.plan, world, b, a) && world(b, a) is Created && dir == dir_at(
                s.plan,
                b,
                a,
            ) && (forall|c: int, d: int|
                c < b && #[trigger] decides(s.plan, world, c, d) ==> is_refused(world(c, d))),
{
    lemma_outcome(s, world);
}

/// What the attempts of a search are, from where it is.
proof fn lemma_attempts_made<E>(s: SearchState<E>, world: DirWorld<E>)
    requires
        0 <= s.base,
        0 <= s.attempt,
    ensures
        forall|i: int|
            0 <= i < search_attempts(s, world).len() ==> {
                let order = (#[trigger] search_attempts(s, world)[i]).order;
                &&& order.mode == 0o700
                &&& order.must_be_new
                &&& joined(order.path, encode_utf8(s.plan.socket_name)).len() <= MAX_SOCKET_PATH
            },
        forall|i: int|
            0 <= i < search_attempts(s, world).len() - 1 ==> (#[trigger] search_attempts(
                s,
                world,
            )[i]).reply is Failed,
        match search_outcome(s, world) {
            Ok(dir) => {
                &&& search_attempts(s, world).len() > 0
                &&& search_attempts(s, world).last().reply is Created
                &&& search_attempts(s, world).last().order == private_dir(dir)
            },
            Err(_) => search_attempts(s, world).len() > 0 ==> search_attempts(
                s,
                world,
            ).last().reply is Failed,
        },
    decreases s.plan.bases.len() - s.base, ATTEMPTS - s.attempt,
{
    if s.base >= s.plan.bases.len() {
    } else if s.attempt >= ATTEMPTS {
        lemma_attempts_made(SearchState { base: s.base + 1, attempt: 0, ..s }, world);
    } else if !usable(s.plan, s.base, s.attempt) {
        lemma_attempts_made(SearchState { attempt: s.attempt + 1, ..s }, world);
    } else {
        match world(s.base, s.attempt) {
            DirReply::Created => {},
            DirReply::Failed(fault) => {
                let t = if fault.kind == ErrorKind::AlreadyExists {
                    SearchState { attempt: s.attempt + 1, path_fits: true, ..s }
                } else {
                    SearchState {
                        base: s.base + 1,
                        attempt: 0,
                        last_error: Some(fault.error),
                        path_fits: true,
                        ..s
                    }
                };
                lemma_attempts_made(t, world);
                lemma_attempts(t, SearchState { base: t.base, attempt: t.attempt, ..s }, world);
                let made = seq![
                    DirAttempt { order: search_order(s), reply: world(s.base, s.attempt) },
                ];
                assert(search_attempts(s, world) == made + search_attempts(t, world));
            },
        }
    }
}

/// Every directory that a search tries is to be new, for its owner alone, and has
/// room for the control socket's address. At most one is created: the one that
/// is found, which is the last that is tried, and none where the search fails.
pub proof fn law_one_private_directory_is_created<E>(s: SearchState<E>, world: DirWorld<E>)
    requires
        is_start(s),
    ensures
        forall|i: int|
            0 <= i < search_attempts(s, world).len() ==> {
                let order = (#[trigger] search_attempts(s, world)[i]).order;
                &&& order.mode == 0o700
                &&& order.must_be_new
                &&& joined(order.path, encode_utf8(s.plan.socket_name)).len() <= MAX_SOCKET_PATH
            },
        forall|i: int|
            0 <= i < search_attempts(s, world).len() && (#[trigger] search_attempts(
                s,
                world,
            )[i]).reply is Created ==> {
                &&& i == search_attempts(s, world).len() - 1
                &&& search_outcome(s, world) == Ok::<Seq<u8>, SshDirError<E>>(
                    search_attempts(s, world)[i].order.path,
                )
            },
        search_outcome(s, world) matches Ok(dir) ==> {
            &&& search_attempts(s, world).len() > 0
            &&& search_attempts(s, world).last().reply is Created
            &&& search_attempts(s, world).last().order == private_dir(dir)
        },
{
    lemma_attempts_made(s, world);
}

/// The control socket has an address in the directory that is found.
pub proof fn law_the_socket_fits_the_directory_that_is_found<E>(
    s: SearchState<E>,
    world: DirWorld<E>,
)
    requires
        is_start(s),
        search_outcome(s, world) is Ok,
    ensures
        joined(search_outcome(s, world)->Ok_0, encode_utf8(s.plan.socket_name)).len()
            <= MAX_SOCKET_PATH,
{
    lemma_outcome(s, world);
}

/// An error of the file system is reported exactly where no directory is found
/// and creating one failed below some base. It is that of the last such base,
/// even where below a later one every name was taken.
pub proof fn law_when_an_error_is_reported<E>(s: SearchState<E>, world: DirWorld<E>)
    requires
        is_start(s),
    ensures
        search_outcome(s, world) is Err && search_outcome(s, world)->Err_0 is Io <==> {
            &&& exists|b: int, a: int| #[trigger] decides(s.plan, world, b, a)
            &&& forall|b: int, a: int| #[trigger]
                decides(s.plan, world, b, a) ==> is_refused(world(b, a))
        },
        search_outcome(s, world) matches Err(SshDirError::Io(e)) ==> exists|b: int, a: int|
            #[trigger] decides(s.plan, world, b, a) && is_refused(world(b, a)) && world(
                b,
                a,
            )->Failed_0.error == e && (forall|c: int, d: int| b < c ==> !#[trigger] decides(s.plan, world, c, d)),
{
    lemma_outcome(s, world);
}

/// A search ends for want of a free name exactly where there is a usable name, and
/// every usable name is taken.
pub proof fn law_when_no_name_is_free<E>(s: SearchState<E>, world: DirWorld<E>)
    requires
        is_start(s),
    ensures
        search_outcome(s, world) is Err && search_outcome(s, world)->Err_0 is NoFreeName <==> {
            &&& exists|b: int, a: int|
                is_attempt(s.plan, b, a) && #[trigger] usable(s.plan, b, a)
            &&& forall|b: int, a: int|
                is_attempt(s.plan, b, a) && #[trigger] usable(s.plan, b, a) ==> is_taken(
                    world(b, a),
                )
        },
{
    lemma_outcome(s, world);
    assert forall|b: int, a: int|
        is_attempt(s.plan, b, a) && #[trigger] usable(s.plan, b, a) && (forall|c: int, d: int|
            !#[trigger] decides(s.plan, world, c, d)) implies is_taken(world(b, a)) by {
        if !is_taken(world(b, a)) {
            lemma_some_attempt_decides(s.plan, world, b, a);
        }
    }
}

/// The length of the control socket's pathname is reported exactly where no name
/// is usable. Nothing is tried then: the search is over before it begins.
pub proof fn law_when_the_socket_path_is_too_long<E>(s: SearchState<E>, world: DirWorld<E>)
    requires
        is_start(s),
    ensures
        search_outcome(s, world) is Err && search_outcome(s, world)->Err_0 is SocketPathTooLong
            <==> forall|b: int, a: int|
            is_attempt(s.plan, b, a) ==> !#[trigger] usable(s.plan, b, a),
        search_standing(s) == SearchStanding::Finished(
            Err::<Seq<u8>, SshDirError<E>>(SshDirError::SocketPathTooLong),
        ) <==> forall|b: int, a: int|
            is_attempt(s.plan, b, a) ==> !#[trigger] usable(s.plan, b, a),
{
    lemma_outcome(s, world);
    lemma_settled(s, world);
}

/// A control socket whose name alone is longer than an address gets no directory,
/// wherever the temporary directory is, and none is created for it.
pub proof fn law_an_overlong_socket_name_is_rejected<E>(
    temp_dir: Seq<u8>,
    process_id: nat,
    socket_name: Seq<char>,
)
    requires
        encode_utf8(socket_name).len() > MAX_SOCKET_PATH,
    ensures
        search_standing(search_start::<E>(temp_dir, process_id, socket_name))
            == SearchStanding::Finished(
            Err::<Seq<u8>, SshDirError<E>>(SshDirError::SocketPathTooLong),
        ),
{
    let s = search_start::<E>(temp_dir, process_id, socket_name);
    law_when_the_socket_path_is_too_long(s, |b: int, a: int| DirReply::Created);
}

} // verus!
