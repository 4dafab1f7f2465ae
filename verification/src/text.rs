//! Text building blocks: digits, substrings, and the two ways of reading bytes
//! as text.

use vstd::prelude::*;
use vstd::utf8::*;

verus! {

/// The digits, in order of value, of every radix up to sixteen.
pub open spec fn digit_alphabet() -> Seq<char> {
    "0123456789abcdef"@
}

/// `n` written in positional notation with the given radix, most significant
/// digit first and without leading zeros.
pub open spec fn digits(n: nat, radix: nat) -> Seq<char>
    decreases n,
{
    if radix < 2 || n < radix {
        seq![digit_alphabet()[n as int]]
    } else {
        proof {
            vstd::arithmetic::div_mod::lemma_div_decreases(n as int, radix as int);
            vstd::arithmetic::div_mod::lemma_div_pos_is_pos(n as int, radix as int);
        }
        digits(n / radix, radix).push(digit_alphabet()[(n % radix) as int])
    }
}

/// A letter or a digit of ASCII.
pub open spec fn is_ascii_alnum(c: char) -> bool {
    ||| 'a' <= c <= 'z'
    ||| 'A' <= c <= 'Z'
    ||| '0' <= c <= '9'
}

/// The value of a digit of the alphabet.
spec fn digit_value(c: char) -> int {
    if c <= '9' {
        c as int - '0' as int
    } else {
        c as int - 'a' as int + 10
    }
}

/// Every digit is a letter or a numeral of ASCII, and has its own value.
proof fn lemma_digit(d: int)
    requires
        0 <= d < 16,
    ensures
        is_ascii_alnum(digit_alphabet()[d]),
        digit_value(digit_alphabet()[d]) == d,
        digit_alphabet()[d] as u32 == if d < 10 {
            0x30 + d
        } else {
            0x57 + d
        },
{
    reveal_strlit("0123456789abcdef");
    assert(d == 0 || d == 1 || d == 2 || d == 3 || d == 4 || d == 5 || d == 6 || d == 7 || d == 8
        || d == 9 || d == 10 || d == 11 || d == 12 || d == 13 || d == 14 || d == 15);
}

/// A written number is not empty and made of ASCII letters and numerals alone.
pub proof fn lemma_digits_are_alphanumeric(n: nat, radix: nat)
    requires
        2 <= radix <= 16,
    ensures
        digits(n, radix).len() > 0,
        forall|i: int| 0 <= i < digits(n, radix).len() ==> is_ascii_alnum(#[trigger] digits(n, radix)[i]),
    decreases n,
{
    if n < radix {
        lemma_digit(n as int);
    } else {
        vstd::arithmetic::div_mod::lemma_div_decreases(n as int, radix as int);
        vstd::arithmetic::div_mod::lemma_mod_bound(n as int, radix as int);
        lemma_digits_are_alphanumeric(n / radix, radix);
        lemma_digit((n % radix) as int);
    }
}

/// The least number that takes more than `places` digits.
pub open spec fn places_limit(radix: nat, places: nat) -> nat
    decreases places,
{
    if places == 0 {
        1
    } else {
        radix * places_limit(radix, (places - 1) as nat)
    }
}

/// A number below the limit of that many places is written with that many digits
/// at most.
pub proof fn lemma_digits_len(n: nat, radix: nat, places: nat)
    requires
        2 <= radix <= 16,
        places > 0,
        n < places_limit(radix, places),
    ensures
        digits(n, radix).len() <= places,
    decreases places,
{
    let fewer = (places - 1) as nat;
    if n >= radix {
        let limit = places_limit(radix, fewer);
        assert(n / radix < limit) by (nonlinear_arith)
            requires
                n < radix * limit,
                radix > 0,
        ;
        if fewer == 0 {
            assert(n / radix >= 1) by (nonlinear_arith)
                requires
                    n >= radix,
                    radix > 0,
            ;
        }
        lemma_digits_len(n / radix, radix, fewer);
    }
}

/// No two numbers are written alike.
pub proof fn law_digits_are_injective(a: nat, b: nat, radix: nat)
    requires
        2 <= radix <= 16,
        digits(a, radix) == digits(b, radix),
    ensures
        a == b,
    decreases a,
{
    vstd::arithmetic::div_mod::lemma_mod_bound(a as int, radix as int);
    vstd::arithmetic::div_mod::lemma_mod_bound(b as int, radix as int);
    if a < radix && b < radix {
        assert(digits(a, radix)[0] == digit_alphabet()[a as int]);
        assert(digits(b, radix)[0] == digit_alphabet()[b as int]);
        lemma_digit(a as int);
        lemma_digit(b as int);
    } else if a < radix {
        lemma_digits_are_alphanumeric(b / radix, radix);
        assert(digits(a, radix).len() == 1);
        assert(digits(a, radix).len() != digits(b, radix).len());
    } else if b < radix {
        lemma_digits_are_alphanumeric(a / radix, radix);
        assert(digits(b, radix).len() == 1);
        assert(digits(a, radix) == digits(a / radix, radix).push(digit_alphabet()[(a % radix) as int]));
        assert(digits(a, radix).len() != digits(b, radix).len());
    } else {
        vstd::arithmetic::div_mod::lemma_div_decreases(a as int, radix as int);
        lemma_digit((a % radix) as int);
        lemma_digit((b % radix) as int);
        assert(digits(a, radix).last() == digit_alphabet()[(a % radix) as int]);
        assert(digits(b, radix).last() == digit_alphabet()[(b % radix) as int]);
        assert(a % radix == b % radix);
        assert(digits(a, radix).drop_last() == digits(a / radix, radix));
        assert(digits(b, radix).drop_last() == digits(b / radix, radix));
        law_digits_are_injective(a / radix, b / radix, radix);
        assert(a == b) by (nonlinear_arith)
            requires
                radix > 0,
                a / radix == b / radix,
                a % radix == b % radix,
        ;
    }
}

/// One more place multiplies a number by the radix and adds the new digit: its
/// notation is that of the number with the digit behind it. A single digit is a
/// numeral up to nine, and a small letter above.
pub proof fn law_a_place_more_is_a_digit_more(n: nat, digit: nat, radix: nat)
    requires
        2 <= radix <= 16,
        digit < radix,
    ensures
        digits(digit, radix).len() == 1,
        digits(digit, radix)[0] as u32 == if digit < 10 {
            0x30 + digit
        } else {
            0x57 + digit
        },
        n > 0 ==> digits((n * radix + digit) as nat, radix) == digits(n, radix) + digits(
            digit,
            radix,
        ),
{
    lemma_digit(digit as int);
    let more = n * radix + digit;
    if n > 0 {
        assert(more >= radix) by (nonlinear_arith)
            requires
                more == n * radix + digit,
                n > 0,
                digit >= 0,
                radix >= 0,
        ;
        vstd::arithmetic::div_mod::lemma_fundamental_div_mod_converse(
            more as int,
            radix as int,
            n as int,
            digit as int,
        );
        assert(digits(digit, radix) == seq![digit_alphabet()[digit as int]]);
        assert(digits(n, radix).push(digit_alphabet()[digit as int]) == digits(n, radix) + digits(
            digit,
            radix,
        ));
    }
}

/// The letters and numerals of ASCII, by their codes.
pub proof fn law_which_characters_are_alphanumeric(c: char)
    ensures
        is_ascii_alnum(c) <==> (0x30 <= c as u32 <= 0x39) || (0x41 <= c as u32 <= 0x5a) || (0x61
            <= c as u32 <= 0x7a),
{
}

/// `needle` stands somewhere in `haystack`.
pub open spec fn contains_seq(haystack: Seq<char>, needle: Seq<char>) -> bool {
    exists|at: int|
        0 <= at <= haystack.len() - needle.len() && #[trigger] haystack.subrange(
            at,
            at + needle.len(),
        ) == needle
}

/// A text holds another exactly where it is that other with something in front of
/// it and something behind it, either of which may be empty.
pub proof fn law_what_a_text_holds(haystack: Seq<char>, needle: Seq<char>)
    ensures
        contains_seq(haystack, needle) <==> exists|front: Seq<char>, back: Seq<char>|
            haystack == #[trigger] (front + needle + back),
{
    if contains_seq(haystack, needle) {
        let at = choose|at: int|
            0 <= at <= haystack.len() - needle.len() && #[trigger] haystack.subrange(
                at,
                at + needle.len(),
            ) == needle;
        let front = haystack.take(at);
        let back = haystack.skip(at + needle.len());
        assert(haystack == front + needle + back);
    }
    if exists|front: Seq<char>, back: Seq<char>| haystack == #[trigger] (front + needle + back) {
        let (front, back) = choose|front: Seq<char>, back: Seq<char>|
            haystack == #[trigger] (front + needle + back);
        let at = front.len() as int;
        assert(haystack.subrange(at, at + needle.len()) == needle);
    }
}

/// `String::push`: the text gains exactly the given character at its end.
pub assume_specification[ String::push ](text: &mut String, c: char)
    ensures
        final(text)@ == old(text)@.push(c),
;

/// What `String::from_utf8_lossy` makes of `bytes`.
pub uninterp spec fn utf8_lossy(bytes: Seq<u8>) -> Seq<char>;

/// Reads bytes as text with `String::from_utf8_lossy`: well-formed UTF-8 is
/// decoded as it stands, anything else is replaced by U+FFFD. The text is empty
/// only where there were no bytes, and holds a zero character only where they hold
/// a zero.
#[verifier::external_body]
pub(crate) fn from_utf8_lossy(bytes: &[u8]) -> (text: String)
    ensures
        text@ == utf8_lossy(bytes@),
        valid_utf8(bytes@) ==> text@ == decode_utf8(bytes@),
        text@.len() == 0 <==> bytes@.len() == 0,
        text@.contains('\0') ==> bytes@.contains(0),
{
    String::from_utf8_lossy(bytes).into_owned()
}

/// Reads bytes as text with `String::from_utf8`, which accepts well-formed UTF-8
/// and nothing else.
#[verifier::external_body]
pub(crate) fn from_utf8(bytes: Vec<u8>) -> (text: Option<String>)
    ensures
        text is Some <==> valid_utf8(bytes@),
        text matches Some(t) ==> t@ == decode_utf8(bytes@),
{
    String::from_utf8(bytes).ok()
}

/// A number in positional notation, as it is printed in decimal (radix 10) or in
/// lower-case hexadecimal (radix 16).
pub fn digits_of(n: u128, radix: u128) -> (text: String)
    requires
        2 <= radix <= 16,
    ensures
        text@ == digits(n as nat, radix as nat),
    decreases n,
{
    let alphabet = "0123456789abcdef";
    proof {
        reveal_strlit("0123456789abcdef");
    }
    if n < radix {
        let mut text = String::new();
        text.push(alphabet.get_char(n as usize));
        text
    } else {
        proof {
            vstd::arithmetic::div_mod::lemma_div_decreases(n as int, radix as int);
            vstd::arithmetic::div_mod::lemma_mod_bound(n as int, radix as int);
        }
        let mut text = digits_of(n / radix, radix);
        text.push(alphabet.get_char((n % radix) as usize));
        text
    }
}

/// The characters of a text, in order.
pub fn chars_of(text: &str) -> (chars: Vec<char>)
    ensures
        chars@ == text@,
{
    let mut chars: Vec<char> = Vec::new();
    for c in it: text.chars()
        invariant
            it.seq() == text@,
            chars@ == text@.take(it.index() as int),
    {
        chars.push(c);
    }
    chars
}

/// Whether `needle` stands somewhere in `haystack`.
pub fn contains_text(haystack: &str, needle: &str) -> (found: bool)
    ensures
        found == contains_seq(haystack@, needle@),
        found <==> exists|at: int|
            0 <= at <= haystack@.len() - needle@.len() && #[trigger] haystack@.subrange(
                at,
                at + needle@.len(),
            ) == needle@,
{
    let hay = chars_of(haystack);
    let pin = chars_of(needle);
    if pin.len() > hay.len() {
        return false;
    }
    let last: usize = hay.len() - pin.len();
    let mut at: usize = 0;
    while at <= last
        invariant
            hay@ == haystack@,
            pin@ == needle@,
            last == hay@.len() - pin@.len(),
            hay@.len() <= usize::MAX,
            at <= last + 1,
            forall|k: int|
                0 <= k < at ==> #[trigger] haystack@.subrange(k, k + needle@.len()) != needle@,
        decreases last + 1 - at,
    {
        let mut same: usize = 0;
        while same < pin.len() && hay[at + same] == pin[same]
            invariant
                at <= last,
                last == hay@.len() - pin@.len(),
                hay@.len() <= usize::MAX,
                same <= pin@.len(),
                forall|k: int| 0 <= k < same ==> hay@[at + k] == #[trigger] pin@[k],
            decreases pin@.len() - same,
        {
            same = same + 1;
        }
        if same == pin.len() {
            assert(haystack@.subrange(at as int, at + needle@.len()) =~= needle@);
            return true;
        }
        assert(haystack@.subrange(at as int, at + needle@.len())[same as int] != needle@[same as int]);
        if at == last {
            return false;
        }
        at = at + 1;
    }
    false
}

} // verus!
