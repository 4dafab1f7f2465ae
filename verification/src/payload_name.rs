//! The file names of staged commands.

use crate::shell_quote::all_plain;
use crate::text::{
    digits, digits_of, is_ascii_alnum, law_digits_are_injective, lemma_digits_are_alphanumeric,
    lemma_digits_len, places_limit,
};
use crate::unix_path::{joined, SEPARATOR};
use vstd::prelude::*;
use vstd::utf8::*;

verus! {

/// A character of a label as it stands in a file name.
pub open spec fn label_char(c: char) -> char {
    if is_ascii_alnum(c) || c == '-' {
        c
    } else {
        '-'
    }
}

/// A label as it stands in a file name: every character that does not belong in a
/// path has become a dash.
pub open spec fn label_text(label: Seq<char>) -> Seq<char> {
    label.map_values(|c: char| label_char(c))
}

/// The file name of a payload: its label, the number of the process that staged
/// it, and the time, in nanoseconds since the epoch, at which it did.
pub open spec fn payload_name_text(label: Seq<char>, process_id: nat, nanos: nat) -> Seq<char> {
    label_text(label) + seq!['-'] + digits(process_id, 10) + seq!['-'] + digits(nanos, 16)
}

/// A file name starts with its label, character by character: a letter or a
/// numeral of ASCII stands for itself, and a dash for everything else. Behind
/// a dash follow the number of the process in decimal and, behind another, the
/// time in hexadecimal.
pub proof fn law_what_a_payload_name_is_made_of(label: Seq<char>, process_id: nat, nanos: nat)
    ensures
        ({
            let name = payload_name_text(label, process_id, nanos);
            &&& name.len() >= label.len() + 1
            &&& forall|i: int|
                0 <= i < label.len() ==> #[trigger] name[i] == if ('a' <= label[i] <= 'z') || ('A'
                    <= label[i] <= 'Z') || ('0' <= label[i] <= '9') {
                    label[i]
                } else {
                    '-'
                }
            &&& name[label.len() as int] == '-'
            &&& name.skip(label.len() + 1int) == digits(process_id, 10) + seq!['-'] + digits(
                nanos,
                16,
            )
        }),
{
    let name = payload_name_text(label, process_id, nanos);
    assert(name.skip(label.len() + 1int) == digits(process_id, 10) + seq!['-'] + digits(nanos, 16));
}

/// A unique, readable file name. The label is what the user sees in the pane, so
/// it is kept intact apart from characters that do not belong in a path.
pub fn payload_name(label: &str, process_id: u32, nanos: u128) -> (name: String)
    ensures
        name@ == payload_name_text(label@, process_id as nat, nanos as nat),
        name@.len() >= label@.len() + 1,
        forall|i: int|
            0 <= i < label@.len() ==> #[trigger] name@[i] == if ('a' <= label@[i] <= 'z') || ('A'
                <= label@[i] <= 'Z') || ('0' <= label@[i] <= '9') {
                label@[i]
            } else {
                '-'
            },
        name@[label@.len() as int] == '-',
        name@.skip(label@.len() + 1int) == digits(process_id as nat, 10) + seq!['-'] + digits(
            nanos as nat,
            16,
        ),
{
    proof {
        law_what_a_payload_name_is_made_of(label@, process_id as nat, nanos as nat);
    }
    let mut name = String::new();
    for c in it: label.chars()
        invariant
            it.seq() == label@,
            name@ == label_text(label@.take(it.index() as int)),
    {
        let ghost done = label@.take(it.index() as int);
        let kept: char = if ('a' <= c && c <= 'z') || ('A' <= c && c <= 'Z') || ('0' <= c && c
            <= '9') || c == '-' {
            c
        } else {
            '-'
        };
        name.push(kept);
        assert(label@.take(it.index() + 1) == done.push(c));
        assert(label_text(done.push(c)) == label_text(done).push(label_char(c)));
    }
    assert(label@.take(label@.len() as int) == label@);
    name.push('-');
    name.append(digits_of(process_id as u128, 10).as_str());
    name.push('-');
    name.append(digits_of(nanos, 16).as_str());
    assert(name@ == payload_name_text(label@, process_id as nat, nanos as nat));
    name
}

/// A text without dashes.
spec fn dash_free(text: Seq<char>) -> bool {
    forall|i: int| 0 <= i < text.len() ==> #[trigger] text[i] != '-'
}

/// What stands where in two texts with a dash between them.
proof fn lemma_around_a_dash(a: Seq<char>, b: Seq<char>)
    ensures
        ({
            let whole = a + seq!['-'] + b;
            &&& whole.len() == a.len() + 1 + b.len()
            &&& whole[a.len() as int] == '-'
            &&& whole.take(a.len() as int) == a
            &&& whole.skip(a.len() + 1int) == b
        }),
{
    let front = a + seq!['-'];
    let whole = front + b;
    assert(front.len() == a.len() + 1);
    assert(front[a.len() as int] == '-');
    assert(whole[a.len() as int] == front[a.len() as int]);
    assert(whole.take(a.len() as int) =~= a);
    assert(whole.skip(a.len() + 1int) =~= b);
}

/// Behind a dash that is followed by none, there is no other.
proof fn lemma_no_dash_behind(a: Seq<char>, b: Seq<char>, at: int)
    requires
        dash_free(b),
        a.len() < at < a.len() + 1 + b.len(),
    ensures
        (a + seq!['-'] + b)[at] != '-',
{
    lemma_around_a_dash(a, b);
    let whole = a + seq!['-'] + b;
    let i = at - a.len() - 1;
    assert(whole.skip(a.len() + 1int)[i] == whole[at]);
    assert(b[i] != '-');
}

/// The last dash divides a text in one way only.
proof fn lemma_last_dash(a: Seq<char>, b: Seq<char>, c: Seq<char>, d: Seq<char>)
    requires
        dash_free(b),
        dash_free(d),
        a + seq!['-'] + b == c + seq!['-'] + d,
    ensures
        a == c,
        b == d,
{
    lemma_around_a_dash(a, b);
    lemma_around_a_dash(c, d);
    if a.len() < c.len() {
        lemma_no_dash_behind(a, b, c.len() as int);
    } else if c.len() < a.len() {
        lemma_no_dash_behind(c, d, a.len() as int);
    }
}

/// File names are unique: two that are the same come from one process at one
/// moment, and from labels that differ at most in what does not belong in a path.
pub proof fn law_payload_names_are_unique(
    label_a: Seq<char>,
    process_a: nat,
    nanos_a: nat,
    label_b: Seq<char>,
    process_b: nat,
    nanos_b: nat,
)
    requires
        payload_name_text(label_a, process_a, nanos_a) == payload_name_text(
            label_b,
            process_b,
            nanos_b,
        ),
    ensures
        process_a == process_b,
        nanos_a == nanos_b,
        label_text(label_a) == label_text(label_b),
{
    lemma_digits_are_alphanumeric(process_a, 10);
    lemma_digits_are_alphanumeric(process_b, 10);
    lemma_digits_are_alphanumeric(nanos_a, 16);
    lemma_digits_are_alphanumeric(nanos_b, 16);
    let front_a = label_text(label_a) + seq!['-'] + digits(process_a, 10);
    let front_b = label_text(label_b) + seq!['-'] + digits(process_b, 10);
    lemma_last_dash(front_a, digits(nanos_a, 16), front_b, digits(nanos_b, 16));
    lemma_last_dash(
        label_text(label_a),
        digits(process_a, 10),
        label_text(label_b),
        digits(process_b, 10),
    );
    law_digits_are_injective(process_a, process_b, 10);
    law_digits_are_injective(nanos_a, nanos_b, 16);
}

/// A label whose characters all belong in a path is kept intact, in front of the
/// file name.
pub proof fn law_a_clean_label_is_kept(label: Seq<char>, process_id: nat, nanos: nat)
    requires
        forall|i: int| 0 <= i < label.len() ==> is_ascii_alnum(#[trigger] label[i]) || label[i] == '-',
    ensures
        payload_name_text(label, process_id, nanos).take(label.len() as int) == label,
{
    assert(label_text(label) == label);
}

/// A file name is made of ASCII letters, numerals and dashes.
proof fn lemma_name_chars(label: Seq<char>, process_id: nat, nanos: nat)
    ensures
        payload_name_text(label, process_id, nanos).len() > 0,
        forall|i: int|
            0 <= i < payload_name_text(label, process_id, nanos).len() ==> {
                let c = #[trigger] payload_name_text(label, process_id, nanos)[i];
                is_ascii_alnum(c) || c == '-'
            },
{
    lemma_digits_are_alphanumeric(process_id, 10);
    lemma_digits_are_alphanumeric(nanos, 16);
    let name = payload_name_text(label, process_id, nanos);
    let l = label.len() as int;
    let p = digits(process_id, 10).len() as int;
    assert forall|i: int| 0 <= i < name.len() implies is_ascii_alnum(#[trigger] name[i]) || name[i]
        == '-' by {
        if i < l {
            assert(name[i] == label_char(label[i]));
        } else if i == l || i == l + 1 + p {
            assert(name[i] == '-');
        } else if i < l + 1 + p {
            assert(name[i] == digits(process_id, 10)[i - l - 1]);
        } else {
            assert(name[i] == digits(nanos, 16)[i - l - p - 2]);
        }
    }
}

/// A file name is little longer than its label, whatever the process and the
/// time: it takes at most 44 bytes more.
pub proof fn law_payload_names_are_short(label: Seq<char>, process_id: u32, nanos: u128)
    ensures
        encode_utf8(payload_name_text(label, process_id as nat, nanos as nat)).len() <= label.len()
            + 44,
{
    let text = payload_name_text(label, process_id as nat, nanos as nat);
    lemma_name_chars(label, process_id as nat, nanos as nat);
    assert(is_ascii_chars(text));
    is_ascii_chars_encode_utf8(text);
    reveal_with_fuel(places_limit, 33);
    lemma_digits_len(process_id as nat, 10, 10);
    lemma_digits_len(nanos as nat, 16, 32);
}

/// Whatever the label, a shell reads the file name as it stands, without quotes.
pub proof fn law_payload_names_are_plain(label: Seq<char>, process_id: nat, nanos: nat)
    ensures
        all_plain(payload_name_text(label, process_id, nanos)),
{
    lemma_name_chars(label, process_id, nanos);
}

/// Whatever the label, the payload lies directly in its directory: the file name
/// is one component, and joining it only adds it behind a separator.
pub proof fn law_payloads_stay_in_their_directory(
    dir: Seq<u8>,
    label: Seq<char>,
    process_id: nat,
    nanos: nat,
)
    ensures
        ({
            let name = encode_utf8(payload_name_text(label, process_id, nanos));
            &&& name.len() > 0
            &&& forall|i: int| 0 <= i < name.len() ==> #[trigger] name[i] != SEPARATOR
            &&& joined(dir, name) == if dir.len() == 0 || dir.last() == SEPARATOR {
                dir + name
            } else {
                dir.push(SEPARATOR) + name
            }
        }),
{
    let text = payload_name_text(label, process_id, nanos);
    lemma_name_chars(label, process_id, nanos);
    assert(is_ascii_chars(text)) by {
        assert forall|i: int| 0 <= i < text.len() implies '\0' <= #[trigger] text[i] <= '\u{7f}' by {
            assert(is_ascii_alnum(text[i]) || text[i] == '-');
        }
    }
    is_ascii_chars_encode_utf8(text);
    let name = encode_utf8(text);
    assert forall|i: int| 0 <= i < name.len() implies #[trigger] name[i] != SEPARATOR by {
        assert(name[i] == text[i] as u8);
        assert(is_ascii_alnum(text[i]) || text[i] == '-');
    }
}

} // verus!
