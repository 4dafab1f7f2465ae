//! Unix paths as the byte strings they are.

use vstd::prelude::*;
use vstd::utf8::*;

verus! {

/// The byte that separates the components of a path.
pub const SEPARATOR: u8 = 0x2f;

/// The byte that, alone in a component, names the directory itself.
pub const DOT: u8 = 0x2e;

/// The longest pathname, in bytes, that a Unix socket address can hold on every
/// supported system.
pub const MAX_SOCKET_PATH: usize = 103;

/// A Unix path: any byte string, UTF-8 or not.
#[derive(Debug)]
pub struct UnixPath {
    bytes: Vec<u8>,
}

impl View for UnixPath {
    type V = Seq<u8>;

    closed spec fn view(&self) -> Seq<u8> {
        self.bytes@
    }
}

/// A path that starts at the root directory.
pub open spec fn is_rooted(path: Seq<u8>) -> bool {
    path.len() > 0 && path[0] == SEPARATOR
}

/// `name` looked up from `base`: a rooted name stands for itself, any other is
/// put behind `base`, with one separator between them where `base` does not
/// already end in one. Nothing is put behind an empty `base` but the name.
pub open spec fn joined(base: Seq<u8>, name: Seq<u8>) -> Seq<u8> {
    if is_rooted(name) {
        name
    } else if base.len() == 0 || base.last() == SEPARATOR {
        base + name
    } else {
        base.push(SEPARATOR) + name
    }
}

/// The number of bytes before the first separator.
pub open spec fn piece_len(path: Seq<u8>) -> nat
    decreases path.len(),
{
    if path.len() == 0 || path[0] == SEPARATOR {
        0
    } else {
        1 + piece_len(path.drop_first())
    }
}

/// What follows the first separator.
pub open spec fn after_piece(path: Seq<u8>) -> Seq<u8> {
    if piece_len(path) < path.len() {
        path.skip((piece_len(path) + 1) as int)
    } else {
        Seq::empty()
    }
}

/// The components of a path that name something: empty ones, which repeated
/// separators make, and single dots are left out.
pub open spec fn names(path: Seq<u8>) -> Seq<Seq<u8>>
    decreases path.len(),
{
    if path.len() == 0 {
        Seq::empty()
    } else {
        let piece = path.take(piece_len(path) as int);
        if piece.len() == 0 || piece == seq![DOT] {
            names(after_piece(path))
        } else {
            seq![piece] + names(after_piece(path))
        }
    }
}

/// A path whose first component is a single dot.
pub open spec fn starts_with_dot(path: Seq<u8>) -> bool {
    piece_len(path) == 1 && path[0] == DOT
}

/// Two spellings of one path: they differ in repeated or trailing separators and
/// in dots that are not in front, and in nothing else.
pub open spec fn same_path(a: Seq<u8>, b: Seq<u8>) -> bool {
    &&& is_rooted(a) == is_rooted(b)
    &&& starts_with_dot(a) == starts_with_dot(b)
    &&& names(a) == names(b)
}

/// The contents of several byte strings.
pub open spec fn byte_strings(v: Seq<Vec<u8>>) -> Seq<Seq<u8>> {
    v.map_values(|b: Vec<u8>| b@)
}

/// The first separator is where the bytes before it hold none.
proof fn lemma_piece_len_at(path: Seq<u8>, at: int)
    requires
        0 <= at <= path.len(),
        forall|k: int| 0 <= k < at ==> path[k] != SEPARATOR,
        at < path.len() ==> path[at] == SEPARATOR,
    ensures
        piece_len(path) == at,
    decreases at,
{
    if at > 0 {
        let rest = path.drop_first();
        assert forall|k: int| 0 <= k < at - 1 implies rest[k] != SEPARATOR by {
            assert(rest[k] == path[k + 1]);
        }
        lemma_piece_len_at(rest, at - 1);
    }
}

/// The bytes before the first separator hold none, and it follows them unless the
/// path ends there.
proof fn lemma_piece(path: Seq<u8>)
    ensures
        piece_len(path) <= path.len(),
        forall|k: int| 0 <= k < piece_len(path) ==> path[k] != SEPARATOR,
        piece_len(path) < path.len() ==> path[piece_len(path) as int] == SEPARATOR,
    decreases path.len(),
{
    if path.len() > 0 && path[0] != SEPARATOR {
        let rest = path.drop_first();
        lemma_piece(rest);
        assert forall|k: int| 0 <= k < piece_len(path) implies path[k] != SEPARATOR by {
            if k > 0 {
                assert(rest[k - 1] == path[k]);
            }
        }
    }
}

/// A name that is not rooted is put behind the base, whole, and the base is kept
/// whole before it. Between the two stands one separator, unless there is no base
/// or it ends in one. A rooted name stands alone.
pub proof fn law_joining_keeps_the_base_and_the_name(base: Seq<u8>, name: Seq<u8>)
    ensures
        name.len() > 0 && name[0] == 0x2f ==> joined(base, name) == name,
        !(name.len() > 0 && name[0] == 0x2f) ==> {
            let path = joined(base, name);
            &&& path.len() == base.len() + name.len() + if base.len() > 0 && base[base.len() - 1]
                != 0x2f {
                1int
            } else {
                0int
            }
            &&& path.take(base.len() as int) == base
            &&& path.skip(path.len() - name.len()) == name
            &&& base.len() > 0 ==> path[path.len() - name.len() - 1] == 0x2f
        },
{
}

/// The components that name something, of two paths with a separator between them,
/// are those of the first and then those of the second. A path without a separator
/// is one such component, unless it is empty or a single dot.
pub proof fn law_components_stand_between_separators(a: Seq<u8>, b: Seq<u8>)
    ensures
        names(a + seq![0x2fu8] + b) == names(a) + names(b),
        (forall|i: int| 0 <= i < a.len() ==> a[i] != 0x2f) ==> names(a) == if a.len() == 0 || a
            == seq![0x2eu8] {
            Seq::empty()
        } else {
            seq![a]
        },
    decreases a.len(),
{
    let path = a + seq![0x2fu8] + b;
    lemma_piece(a);
    let n = piece_len(a) as int;
    lemma_piece_len_at(path, n);
    assert(path.take(n) == a.take(n));
    let piece = a.take(n);
    let front = if piece.len() == 0 || piece == seq![DOT] {
        Seq::<Seq<u8>>::empty()
    } else {
        seq![piece]
    };
    assert(names(path) == front + names(after_piece(path)));
    if n == a.len() {
        assert(a.take(n) == a);
        assert(after_piece(path) == b);
        assert(names(Seq::<u8>::empty()) == Seq::<Seq<u8>>::empty());
        assert(names(a) == front + Seq::<Seq<u8>>::empty());
        assert(front + Seq::<Seq<u8>>::empty() == front);
    } else {
        let rest = after_piece(a);
        law_components_stand_between_separators(rest, b);
        assert(after_piece(path) == rest + seq![0x2fu8] + b);
        assert(names(a) == front + names(rest));
        assert(front + (names(rest) + names(b)) == front + names(rest) + names(b));
    }
}

/// Two byte strings spell one path exactly where both or neither start with a
/// separator, both or neither start with a single dot as their first component,
/// and they have the same named components.
pub proof fn law_what_tells_paths_apart(a: Seq<u8>, b: Seq<u8>)
    ensures
        same_path(a, b) <==> {
            &&& (a.len() > 0 && a[0] == 0x2f) == (b.len() > 0 && b[0] == 0x2f)
            &&& (a.len() > 0 && a[0] == 0x2e && (a.len() == 1 || a[1] == 0x2f)) == (b.len() > 0
                && b[0] == 0x2e && (b.len() == 1 || b[1] == 0x2f))
            &&& names(a) == names(b)
        },
{
    reveal_with_fuel(piece_len, 3);
}

/// To be spellings of one path is an equivalence.
pub proof fn law_same_path_is_an_equivalence(a: Seq<u8>, b: Seq<u8>, c: Seq<u8>)
    ensures
        same_path(a, a),
        same_path(a, b) == same_path(b, a),
        same_path(a, b) && same_path(b, c) ==> same_path(a, c),
{
}

/// A separator at the end, one more separator, and a single dot between two
/// separators make no other path. A path that is put behind another with a
/// separator, and is not empty or a lone dot, does.
pub proof fn law_spellings_of_one_path(a: Seq<u8>, b: Seq<u8>)
    ensures
        a.len() > 0 ==> same_path(a, a + seq![0x2fu8]),
        same_path(a + seq![0x2fu8] + b, a + seq![0x2fu8, 0x2fu8] + b),
        same_path(a + seq![0x2fu8] + b, a + seq![0x2fu8, 0x2eu8, 0x2fu8] + b),
        b.len() > 0 && b != seq![0x2eu8] && (forall|i: int| 0 <= i < b.len() ==> b[i] != 0x2f)
            ==> !same_path(a, a + seq![0x2fu8] + b),
{
    let none = Seq::<u8>::empty();
    let slash = seq![0x2fu8];
    let dot = seq![0x2eu8];
    law_components_stand_between_separators(a, b);
    law_components_stand_between_separators(a, none);
    law_components_stand_between_separators(none, b);
    law_components_stand_between_separators(dot, b);
    law_components_stand_between_separators(b, none);
    law_components_stand_between_separators(a, none + slash + b);
    law_components_stand_between_separators(a, dot + slash + b);
    assert(a + slash + none == a + slash);
    assert(a + slash + (none + slash + b) == a + seq![0x2fu8, 0x2fu8] + b);
    assert(a + slash + (dot + slash + b) == a + seq![0x2fu8, 0x2eu8, 0x2fu8] + b);
    assert(names(none) == Seq::<Seq<u8>>::empty());
    assert(names(a) + names(none) == names(a));
    assert(names(none) + names(b) == names(b));
    assert(names(dot) == Seq::<Seq<u8>>::empty());
    assert(names(dot) + names(b) == names(b));
    law_what_tells_paths_apart(a, a + slash);
    law_what_tells_paths_apart(a + slash + b, a + seq![0x2fu8, 0x2fu8] + b);
    law_what_tells_paths_apart(a + slash + b, a + seq![0x2fu8, 0x2eu8, 0x2fu8] + b);
    if b.len() > 0 && b != dot && (forall|i: int| 0 <= i < b.len() ==> b[i] != 0x2f) {
        assert(names(b) == seq![b]);
        assert(names(a + slash + b).len() == names(a).len() + 1);
    }
}

/// Where the piece that starts at `start` ends.
fn piece_end(bytes: &[u8], start: usize) -> (end: usize)
    requires
        start <= bytes@.len(),
    ensures
        start <= end <= bytes@.len(),
        end - start == piece_len(bytes@.skip(start as int)),
{
    let mut end: usize = start;
    while end < bytes.len() && bytes[end] != SEPARATOR
        invariant
            start <= end <= bytes@.len(),
            forall|k: int| start <= k < end ==> bytes@[k] != SEPARATOR,
        decreases bytes@.len() - end,
    {
        end = end + 1;
    }
    proof {
        lemma_piece_len_at(bytes@.skip(start as int), end - start);
    }
    end
}

/// A copy of the bytes from `start` up to `end`.
fn copy_range(bytes: &[u8], start: usize, end: usize) -> (copy: Vec<u8>)
    requires
        start <= end <= bytes@.len(),
    ensures
        copy@ == bytes@.subrange(start as int, end as int),
{
    let mut copy: Vec<u8> = Vec::new();
    let mut at: usize = start;
    while at < end
        invariant
            start <= at <= end <= bytes@.len(),
            copy@ == bytes@.subrange(start as int, at as int),
        decreases end - at,
    {
        copy.push(bytes[at]);
        at = at + 1;
    }
    copy
}

/// The named components of a path, in order.
fn names_of(bytes: &[u8]) -> (found: Vec<Vec<u8>>)
    ensures
        byte_strings(found@) == names(bytes@),
{
    let mut found: Vec<Vec<u8>> = Vec::new();
    let mut at: usize = 0;
    assert(bytes@.skip(0) == bytes@);
    assert(byte_strings(found@) + names(bytes@) == names(bytes@));
    while at < bytes.len()
        invariant
            at <= bytes@.len(),
            byte_strings(found@) + names(bytes@.skip(at as int)) == names(bytes@),
        decreases bytes@.len() - at,
    {
        let ghost rest = bytes@.skip(at as int);
        let ghost before = byte_strings(found@);
        let end = piece_end(bytes, at);
        let piece = copy_range(bytes, at, end);
        assert(piece@ == rest.take(piece_len(rest) as int));
        let next: usize = if end < bytes.len() {
            end + 1
        } else {
            end
        };
        assert(bytes@.skip(next as int) == after_piece(rest));
        if piece.len() == 0 || (piece.len() == 1 && piece[0] == DOT) {
            assert(piece@.len() == 1 ==> piece@ == seq![DOT]);
        } else {
            let ghost name = piece@;
            found.push(piece);
            assert(byte_strings(found@) == before.push(name));
            assert(before.push(name) + names(after_piece(rest)) == before + (seq![name] + names(
                after_piece(rest),
            )));
        }
        at = next;
    }
    assert(bytes@.skip(at as int).len() == 0);
    assert(byte_strings(found@) + Seq::<Seq<u8>>::empty() == byte_strings(found@));
    found
}

/// Whether two byte strings are the same.
fn same_bytes(a: &[u8], b: &[u8]) -> (same: bool)
    ensures
        same == (a@ == b@),
{
    if a.len() != b.len() {
        return false;
    }
    let mut at: usize = 0;
    while at < a.len()
        invariant
            at <= a@.len(),
            a@.len() == b@.len(),
            forall|k: int| 0 <= k < at ==> a@[k] == b@[k],
        decreases a@.len() - at,
    {
        if a[at] != b[at] {
            return false;
        }
        at = at + 1;
    }
    assert(a@ =~= b@);
    true
}

/// Whether two lists of byte strings are the same.
fn same_byte_strings(a: &Vec<Vec<u8>>, b: &Vec<Vec<u8>>) -> (same: bool)
    ensures
        same == (byte_strings(a@) == byte_strings(b@)),
{
    if a.len() != b.len() {
        assert(byte_strings(a@).len() != byte_strings(b@).len());
        return false;
    }
    let mut at: usize = 0;
    while at < a.len()
        invariant
            at <= a@.len(),
            a@.len() == b@.len(),
            forall|k: int| 0 <= k < at ==> #[trigger] a@[k]@ == b@[k]@,
        decreases a@.len() - at,
    {
        if !same_bytes(a[at].as_slice(), b[at].as_slice()) {
            assert(byte_strings(a@)[at as int] != byte_strings(b@)[at as int]);
            return false;
        }
        at = at + 1;
    }
    assert(byte_strings(a@) =~= byte_strings(b@));
    true
}

impl Clone for UnixPath {
    fn clone(&self) -> (copy: Self)
        ensures
            copy@ == self@,
    {
        UnixPath { bytes: copy_range(self.bytes.as_slice(), 0, self.bytes.len()) }
    }
}

impl UnixPath {
    /// The path made of the given bytes.
    pub fn from_bytes(bytes: Vec<u8>) -> (path: Self)
        ensures
            path@ == bytes@,
    {
        UnixPath { bytes }
    }

    /// The path that the given text spells.
    pub fn from_text(text: &str) -> (path: Self)
        ensures
            path@ == encode_utf8(text@),
    {
        UnixPath { bytes: text.as_bytes_vec() }
    }

    /// The bytes of the path.
    pub fn as_bytes(&self) -> (bytes: &[u8])
        ensures
            bytes@ == self@,
    {
        self.bytes.as_slice()
    }

    /// The bytes of the path, for keeps.
    pub fn into_bytes(self) -> (bytes: Vec<u8>)
        ensures
            bytes@ == self@,
    {
        self.bytes
    }

    /// The path of `name`, looked up from this one.
    pub fn join(&self, name: &str) -> (path: UnixPath)
        ensures
            path@ == joined(self@, encode_utf8(name@)),
            path@ == if encode_utf8(name@).len() > 0 && encode_utf8(name@)[0] == 0x2f {
                encode_utf8(name@)
            } else if self@.len() == 0 || self@.last() == 0x2f {
                self@ + encode_utf8(name@)
            } else {
                self@ + seq![0x2fu8] + encode_utf8(name@)
            },
    {
        let tail = name.as_bytes();
        if tail.len() > 0 && tail[0] == SEPARATOR {
            return UnixPath { bytes: copy_range(tail, 0, tail.len()) };
        }
        let mut bytes = copy_range(self.bytes.as_slice(), 0, self.bytes.len());
        if bytes.len() > 0 && bytes[bytes.len() - 1] != SEPARATOR {
            bytes.push(SEPARATOR);
        }
        let ghost start = bytes@;
        let mut at: usize = 0;
        while at < tail.len()
            invariant
                at <= tail@.len(),
                bytes@ == start + tail@.take(at as int),
            decreases tail@.len() - at,
        {
            bytes.push(tail[at]);
            at = at + 1;
        }
        assert(tail@.take(at as int) == tail@);
        UnixPath { bytes }
    }

    /// Whether the two are spellings of one path.
    pub fn same_as(&self, other: &UnixPath) -> (same: bool)
        ensures
            same == same_path(self@, other@),
    {
        let a = self.bytes.as_slice();
        let b = other.bytes.as_slice();
        let a_rooted = a.len() > 0 && a[0] == SEPARATOR;
        let b_rooted = b.len() > 0 && b[0] == SEPARATOR;
        assert(a@.skip(0) == a@);
        assert(b@.skip(0) == b@);
        let a_dot = piece_end(a, 0) == 1 && a[0] == DOT;
        let b_dot = piece_end(b, 0) == 1 && b[0] == DOT;
        a_rooted == b_rooted && a_dot == b_dot && same_byte_strings(&names_of(a), &names_of(b))
    }
}

/// Whether a socket can be bound at `path`: a socket address has room for
/// `MAX_SOCKET_PATH` bytes.
pub fn fits_unix_socket_path(path: &UnixPath) -> (fits: bool)
    ensures
        fits == (path@.len() <= 103),
{
    path.as_bytes().len() <= MAX_SOCKET_PATH
}

} // verus!
