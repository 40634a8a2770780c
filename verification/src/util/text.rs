//! ASCII text: how bytes become a string, and how an integer is written out.

use vstd::prelude::*;
use vstd::utf8::encode_utf8;
use vstd::utf8::is_ascii_chars;
use vstd::utf8::is_ascii_chars_encode_utf8;

verus! {

/// The byte `0`, the first of the digits.
pub const DIGIT_ZERO: u8 = 0x30;

/// The byte `-`.
pub const MINUS: u8 = 0x2d;

/// The text with one character per byte.
pub open spec fn ascii_text(bytes: Seq<u8>) -> Seq<char> {
    Seq::new(bytes.len(), |i: int| bytes[i] as char)
}

/// Whether every byte is an ASCII character.
pub open spec fn is_ascii(bytes: Seq<u8>) -> bool {
    forall|i: int| 0 <= i < bytes.len() ==> bytes[i] < 128
}

/// The decimal digits of a natural number, most significant first.
pub open spec fn digits(n: nat) -> Seq<u8>
    decreases n,
{
    if n < 10 {
        seq![(DIGIT_ZERO + n) as u8]
    } else {
        digits(n / 10).push((DIGIT_ZERO + n % 10) as u8)
    }
}

/// An integer written out in decimal, with a minus sign if it is negative.
pub open spec fn decimal(n: int) -> Seq<u8> {
    if n < 0 {
        seq![MINUS] + digits((-n) as nat)
    } else {
        digits(n as nat)
    }
}

/// Turns ASCII bytes into text with `String::from_utf8`, which accepts every
/// ASCII byte string and keeps each byte as one character.
#[verifier::external_body]
pub(crate) fn string_from_ascii(bytes: Vec<u8>) -> (text: String)
    requires
        is_ascii(bytes@),
    ensures
        text@ == ascii_text(bytes@),
{
    String::from_utf8(bytes).unwrap_or_default()
}

/// ASCII text is encoded with one byte per character.
pub proof fn lemma_ascii_text_bytes(bytes: Seq<u8>)
    requires
        is_ascii(bytes),
    ensures
        encode_utf8(ascii_text(bytes)) == bytes,
{
    let text = ascii_text(bytes);
    assert(is_ascii_chars(text)) by {
        reveal(is_ascii_chars);
        assert forall|i: int| 0 <= i < text.len() implies 0 <= #[trigger] (text[i] as nat)
            < 128 by {
            assert(text[i] == bytes[i] as char);
        }
    }
    is_ascii_chars_encode_utf8(text);
    assert(encode_utf8(text) =~= bytes) by {
        assert forall|i: int| 0 <= i < bytes.len() implies (text[i] as u8) == bytes[i] by {
            assert(text[i] == bytes[i] as char);
        }
    }
}

/// The digits of a number are digits, and there is at least one.
pub proof fn lemma_digits_are_digits(n: nat)
    ensures
        digits(n).len() >= 1,
        forall|i: int|
            0 <= i < digits(n).len() ==> DIGIT_ZERO <= #[trigger] digits(n)[i] <= DIGIT_ZERO + 9,
    decreases n,
{
    if n >= 10 {
        lemma_digits_are_digits(n / 10);
    }
}

/// A number written out in decimal is ASCII text.
pub proof fn lemma_decimal_is_ascii(n: int)
    ensures
        is_ascii(decimal(n)),
{
    if n < 0 {
        lemma_digits_are_digits((-n) as nat);
    } else {
        lemma_digits_are_digits(n as nat);
    }
}

/// Writes an integer out in decimal.
pub fn decimal_bytes(n: i32) -> (text: Vec<u8>)
    ensures
        text@ == decimal(n as int),
{
    let negative = n < 0;
    let magnitude: u32 = if negative {
        (-(n as i64)) as u32
    } else {
        n as u32
    };
    // The digits from the least significant to the most significant.
    let mut reversed: Vec<u8> = Vec::new();
    reversed.push(DIGIT_ZERO + (magnitude % 10) as u8);
    let mut rest: u32 = magnitude / 10;
    assert(digits(magnitude as nat) =~= (if rest > 0 {
        digits(rest as nat)
    } else {
        Seq::<u8>::empty()
    }) + reversed@.reverse());
    while rest > 0
        invariant
            reversed@.len() >= 1,
            digits(magnitude as nat) == (if rest > 0 {
                digits(rest as nat)
            } else {
                Seq::<u8>::empty()
            }) + reversed@.reverse(),
        decreases rest,
    {
        let ghost before = reversed@;
        let ghost head = if rest >= 10 {
            digits((rest / 10) as nat)
        } else {
            Seq::<u8>::empty()
        };
        let digit: u8 = DIGIT_ZERO + (rest % 10) as u8;
        reversed.push(digit);
        assert(digits(rest as nat) =~= head.push(digit));
        assert(reversed@.reverse() =~= seq![digit] + before.reverse());
        assert(head.push(digit) + before.reverse() =~= head + (seq![digit] + before.reverse()));
        rest = rest / 10;
    }
    let mut text: Vec<u8> = Vec::new();
    if negative {
        text.push(MINUS);
    }
    let ghost sign = text@;
    let mut left: usize = reversed.len();
    while left > 0
        invariant
            left <= reversed@.len(),
            text@ == sign + reversed@.reverse().subrange(0, reversed@.len() - left),
        decreases left,
    {
        left = left - 1;
        text.push(reversed[left]);
        assert(reversed@.reverse().subrange(0, reversed@.len() - left) =~= reversed@.reverse().subrange(
            0,
            reversed@.len() - left - 1,
        ).push(reversed@[left as int]));
    }
    assert(reversed@.reverse().subrange(0, reversed@.len() as int) =~= reversed@.reverse());
    text
}

} // verus!
