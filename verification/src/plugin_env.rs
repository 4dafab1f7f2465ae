//! The environment of a plugin's pane.

use crate::text::{from_utf8_lossy, utf8_lossy};
use crate::unix_path::UnixPath;
use vstd::prelude::*;
use vstd::utf8::*;

verus! {

/// Whether a variable is set.
pub open spec fn is_set(env: Seq<(String, String)>, name: Seq<char>) -> bool {
    exists|i: int| 0 <= i < env.len() && (#[trigger] env[i]).0@ == name
}

/// `after` is `before` with `PWD` set to the directory behind it, unless `PWD` was
/// set already.
pub open spec fn pwd_defaulted(
    before: Seq<(String, String)>,
    after: Seq<(String, String)>,
    directory: Seq<char>,
) -> bool {
    if is_set(before, "PWD"@) {
        after == before
    } else {
        &&& after.len() == before.len() + 1
        &&& after.drop_last() == before
        &&& after.last().0@ == "PWD"@
        &&& after.last().1@ == directory
    }
}

/// Once `PWD` has its default it is set, and nothing overrides it: neither an
/// explicit value nor an earlier default.
pub proof fn law_a_default_is_set_once(
    before: Seq<(String, String)>,
    after: Seq<(String, String)>,
    later: Seq<(String, String)>,
    first: Seq<char>,
    second: Seq<char>,
)
    requires
        pwd_defaulted(before, after, first),
        pwd_defaulted(after, later, second),
    ensures
        is_set(after, "PWD"@),
        later == after,
        forall|i: int| 0 <= i < before.len() ==> later[i] == before[i],
{
    if !is_set(before, "PWD"@) {
        assert(after[after.len() - 1].0@ == "PWD"@);
        assert forall|i: int| 0 <= i < before.len() implies after[i] == before[i] by {
            assert(after.drop_last()[i] == after[i]);
        }
    }
}

/// An entry named `PWD`, wherever it stands among the others, keeps the
/// environment as it was: nothing is added, dropped or changed.
pub proof fn law_an_explicit_pwd_is_left_alone(
    before: Seq<(String, String)>,
    after: Seq<(String, String)>,
    directory: Seq<char>,
    at: int,
)
    requires
        pwd_defaulted(before, after, directory),
        0 <= at < before.len(),
        before[at].0@ == "PWD"@,
    ensures
        after.len() == before.len(),
        forall|i: int| 0 <= i < before.len() ==> after[i] == before[i],
{
}

/// An entry is added exactly where none of those before it, at any place, is named
/// `PWD`. It is one entry, it stands behind the others, which stay as they were,
/// and it gives `PWD` the directory.
pub proof fn law_pwd_is_added_only_where_no_entry_has_it(
    before: Seq<(String, String)>,
    after: Seq<(String, String)>,
    directory: Seq<char>,
)
    requires
        pwd_defaulted(before, after, directory),
    ensures
        after.len() != before.len() <==> forall|i: int|
            0 <= i < before.len() ==> (#[trigger] before[i]).0@ != "PWD"@,
        after.len() != before.len() ==> {
            &&& after.len() == before.len() + 1
            &&& forall|i: int| 0 <= i < before.len() ==> after[i] == before[i]
            &&& after[before.len() as int].0@ == "PWD"@
            &&& after[before.len() as int].1@ == directory
        },
{
    if !is_set(before, "PWD"@) {
        assert forall|i: int| 0 <= i < before.len() implies after[i] == before[i] by {
            assert(after.drop_last()[i] == after[i]);
        }
    }
}

/// Sets `PWD` to the given directory, unless it is set already.
pub fn set_default_pwd(env: &mut Vec<(String, String)>, directory: String)
    ensures
        pwd_defaulted(old(env)@, final(env)@, directory@),
        (exists|i: int| 0 <= i < old(env)@.len() && (#[trigger] old(env)@[i]).0@ == "PWD"@)
            ==> final(env)@ == old(env)@,
        (forall|i: int| 0 <= i < old(env)@.len() ==> (#[trigger] old(env)@[i]).0@ != "PWD"@) ==> {
            &&& final(env)@.len() == old(env)@.len() + 1
            &&& forall|i: int| 0 <= i < old(env)@.len() ==> final(env)@[i] == old(env)@[i]
            &&& final(env)@.last().0@ == "PWD"@
            &&& final(env)@.last().1@ == directory@
        },
{
    let name = "PWD".to_string();
    let mut at: usize = 0;
    while at < env.len()
        invariant
            at <= env@.len(),
            env@ == old(env)@,
            name@ == "PWD"@,
            forall|i: int| 0 <= i < at ==> (#[trigger] env@[i]).0@ != "PWD"@,
        decreases env@.len() - at,
    {
        if env[at].0 == name {
            assert(env@[at as int].0@ == "PWD"@);
            return;
        }
        at = at + 1;
    }
    env.push((name, directory));
    assert(env@.drop_last() == old(env)@);
}

/// Sets `PWD` to the working directory, unless it is set already. What is not
/// UTF-8 in the directory is replaced.
pub fn set_default_plugin_pane_pwd(env: &mut Vec<(String, String)>, cwd: &UnixPath)
    ensures
        pwd_defaulted(old(env)@, final(env)@, utf8_lossy(cwd@)),
        valid_utf8(cwd@) ==> pwd_defaulted(old(env)@, final(env)@, decode_utf8(cwd@)),
        (exists|i: int| 0 <= i < old(env)@.len() && (#[trigger] old(env)@[i]).0@ == "PWD"@)
            ==> final(env)@ == old(env)@,
        (forall|i: int| 0 <= i < old(env)@.len() ==> (#[trigger] old(env)@[i]).0@ != "PWD"@) ==> {
            &&& final(env)@.len() == old(env)@.len() + 1
            &&& forall|i: int| 0 <= i < old(env)@.len() ==> final(env)@[i] == old(env)@[i]
            &&& final(env)@.last().0@ == "PWD"@
            &&& final(env)@.last().1@ == utf8_lossy(cwd@)
            &&& valid_utf8(cwd@) ==> final(env)@.last().1@ == decode_utf8(cwd@)
        },
{
    set_default_pwd(env, from_utf8_lossy(cwd.as_bytes()));
}

} // verus!
