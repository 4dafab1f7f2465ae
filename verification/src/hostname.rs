//! The machine's node name.

use crate::text::{from_utf8_lossy, utf8_lossy};
use vstd::prelude::*;
use vstd::slice::slice_subrange;
use vstd::utf8::*;

verus! {

/// The bytes of a C string: those before the first zero, or all where there is
/// none.
pub open spec fn c_string(buffer: Seq<u8>) -> Seq<u8>
    decreases buffer.len(),
{
    if buffer.len() == 0 || buffer[0] == 0 {
        Seq::empty()
    } else {
        seq![buffer[0]] + c_string(buffer.drop_first())
    }
}

/// The C string ends at the first zero.
proof fn lemma_c_string(buffer: Seq<u8>, end: int)
    requires
        0 <= end <= buffer.len(),
        forall|k: int| 0 <= k < end ==> buffer[k] != 0,
        end < buffer.len() ==> buffer[end] == 0,
    ensures
        c_string(buffer) == buffer.take(end),
        !c_string(buffer).contains(0),
    decreases end,
{
    if end > 0 {
        lemma_c_string(buffer.drop_first(), end - 1);
        assert(buffer.take(end) == seq![buffer[0]] + buffer.drop_first().take(end - 1));
    } else {
        assert(buffer.take(0) == Seq::<u8>::empty());
    }
}

/// A C string is the front of its buffer: it holds no zero, and it ends where the
/// buffer does or where a zero follows.
pub proof fn law_a_c_string_ends_at_the_first_zero(buffer: Seq<u8>)
    ensures
        c_string(buffer).len() <= buffer.len(),
        forall|i: int| 0 <= i < c_string(buffer).len() ==> c_string(buffer)[i] == buffer[i],
        forall|i: int| 0 <= i < c_string(buffer).len() ==> c_string(buffer)[i] != 0,
        c_string(buffer).len() < buffer.len() ==> buffer[c_string(buffer).len() as int] == 0,
    decreases buffer.len(),
{
    if buffer.len() > 0 && buffer[0] != 0 {
        let rest = buffer.drop_first();
        law_a_c_string_ends_at_the_first_zero(rest);
        let whole = c_string(buffer);
        assert forall|i: int| 0 <= i < whole.len() implies whole[i] == buffer[i] && whole[i]
            != 0 by {
            if i > 0 {
                assert(whole[i] == c_string(rest)[i - 1]);
                assert(rest[i - 1] == buffer[i]);
            }
        }
        if whole.len() < buffer.len() {
            assert(rest[c_string(rest).len() as int] == buffer[whole.len() as int]);
        }
    }
}

/// A node name, unless it is empty.
pub fn node_name(text: String) -> (name: Option<String>)
    ensures
        name is Some <==> text@.len() > 0,
        name matches Some(n) ==> n == text,
{
    if text.as_str().is_empty() {
        None
    } else {
        Some(text)
    }
}

/// The node name that the system put into `buffer`, where its `status` is zero and
/// the name is not empty. What is not UTF-8 in it is replaced.
pub fn hostname(status: i32, buffer: &[u8]) -> (name: Option<String>)
    ensures
        name is Some <==> status == 0 && c_string(buffer@).len() > 0,
        name matches Some(n) ==> {
            &&& n@.len() > 0
            &&& !n@.contains('\0')
            &&& n@ == utf8_lossy(c_string(buffer@))
            &&& valid_utf8(c_string(buffer@)) ==> n@ == decode_utf8(c_string(buffer@))
        },
        name is Some <==> status == 0 && buffer@.len() > 0 && buffer@[0] != 0,
        forall|end: int|
            #![trigger buffer@.take(end)]
            0 <= end <= buffer@.len() && (forall|k: int| 0 <= k < end ==> buffer@[k] != 0) && (end
                < buffer@.len() ==> buffer@[end] == 0) && name is Some ==> name->0@ == utf8_lossy(
                buffer@.take(end),
            ) && (valid_utf8(buffer@.take(end)) ==> name->0@ == decode_utf8(buffer@.take(end))),
{
    if status != 0 {
        return None;
    }
    let mut end: usize = 0;
    while end < buffer.len() && buffer[end] != 0
        invariant
            end <= buffer@.len(),
            forall|k: int| 0 <= k < end ==> buffer@[k] != 0,
        decreases buffer@.len() - end,
    {
        end = end + 1;
    }
    proof {
        lemma_c_string(buffer@, end as int);
        assert forall|other: int|
            #![trigger buffer@.take(other)]
            0 <= other <= buffer@.len() && (forall|k: int| 0 <= k < other ==> buffer@[k] != 0) && (
            other < buffer@.len() ==> buffer@[other] == 0) implies other == end by {
            if other < end {
                assert(buffer@[other] != 0);
            } else if end < other {
                assert(buffer@[end as int] != 0);
            }
        }
    }
    node_name(from_utf8_lossy(slice_subrange(buffer, 0, end)))
}

} // verus!
