//! Text helpers shared by the rest of the library: building strings one
//! character at a time, writing and reading decimal numbers, and reading
//! bytes as text.

use vstd::prelude::*;
use vstd::utf8::{decode_utf8, valid_utf8};

verus! {

/// `String::push` appends exactly one character to the end of the string.
pub assume_specification[ String::push ](text: &mut String, ch: char)
    ensures
        final(text)@ == old(text)@.push(ch),
;

/// The character that stands for a single decimal digit.
pub open spec fn digit_char(digit: int) -> char
    recommends
        0 <= digit <= 9,
{
    (digit + 48) as char
}

/// The decimal notation of a natural number, without padding or sign.
pub open spec fn decimal_text(value: nat) -> Seq<char>
    decreases value,
{
    if value < 10 {
        seq![digit_char(value as int)]
    } else {
        decimal_text(value / 10).push(digit_char((value % 10) as int))
    }
}

/// Whether `ch` is one of the ten ASCII digits.
pub open spec fn is_ascii_digit(ch: char) -> bool {
    '0' <= ch <= '9'
}

fn digit_to_char(digit: u8) -> (ch: char)
    requires
        digit <= 9,
    ensures
        ch == digit_char(digit as int),
        is_ascii_digit(ch),
{
    (digit + 48) as char
}

/// Appends the decimal notation of `value` to `text`.
pub fn push_decimal(text: &mut String, value: u64)
    ensures
        final(text)@ == old(text)@ + decimal_text(value as nat),
    decreases value,
{
    if value < 10 {
        text.push(digit_to_char(value as u8));
    } else {
        push_decimal(text, value / 10);
        text.push(digit_to_char((value % 10) as u8));
    }
}

/// The number that a run of ASCII digits denotes, read as decimal notation.
pub open spec fn digits_value(digits: Seq<char>) -> nat
    decreases digits.len(),
{
    if digits.len() == 0 {
        0
    } else {
        digits_value(digits.drop_last()) * 10 + (digits.last() as nat - 48) as nat
    }
}

/// Whether every character of `text` is an ASCII digit.
pub open spec fn all_ascii_digits(text: Seq<char>) -> bool {
    forall|i: int| 0 <= i < text.len() ==> is_ascii_digit(#[trigger] text[i])
}

/// What a text stands for as a number: a non-empty run of ASCII digits stands
/// for its value, whatever its size. Anything else stands for no number.
pub open spec fn number_of_text(text: Seq<char>) -> Option<nat> {
    if text.len() > 0 && all_ascii_digits(text) {
        Some(digits_value(text))
    } else {
        None
    }
}

/// `value` where it fits 64 bits, and the largest 64-bit number where it does
/// not.
pub open spec fn capped(value: nat) -> u64 {
    if value > u64::MAX {
        u64::MAX
    } else {
        value as u64
    }
}

/// The characters of `text`, one by one.
pub fn chars_of(text: &str) -> (chars: Vec<char>)
    ensures
        chars@ == text@,
{
    let mut chars: Vec<char> = Vec::new();
    for ch in it: text.chars()
        invariant
            it.seq() == text@,
            chars@ == text@.take(it.index() as int),
    {
        chars.push(ch);
        assert(text@.take(it.index() + 1) =~= text@.take(it.index() as int).push(ch));
    }
    assert(text@.take(text@.len() as int) =~= text@);
    chars
}

/// Reads the characters from `start` up to `end` as a decimal number. A
/// number that does not fit 64 bits is read as the largest that does. A range
/// that is not within the characters holds no number.
pub fn parse_number_within(chars: &Vec<char>, start: usize, end: usize) -> (parsed: Option<u64>)
    ensures
        parsed == if start <= end <= chars.len() {
            match number_of_text(chars@.subrange(start as int, end as int)) {
                Some(value) => Some(capped(value)),
                None => None,
            }
        } else {
            None
        },
{
    if start >= end || end > chars.len() {
        return None;
    }
    let ghost text = chars@.subrange(start as int, end as int);
    let mut value: u64 = 0;
    let mut index: usize = start;
    while index < end
        invariant
            start <= index <= end <= chars.len(),
            text == chars@.subrange(start as int, end as int),
            all_ascii_digits(text.take(index - start)),
            value == capped(digits_value(text.take(index - start))),
        decreases end - index,
    {
        let ch: char = chars[index];
        proof {
            assert(text[index - start] == ch);
        }
        if !('0' <= ch && ch <= '9') {
            assert(!is_ascii_digit(text[index - start]));
            return None;
        }
        let digit: u128 = (ch as u128) - 48;
        let next: u128 = (value as u128) * 10 + digit;
        proof {
            let longer = text.take(index - start + 1);
            assert(longer.drop_last() =~= text.take(index - start));
            assert(longer.last() == ch);
            assert(all_ascii_digits(longer)) by {
                assert forall|i: int| 0 <= i < longer.len() implies is_ascii_digit(
                    #[trigger] longer[i],
                ) by {
                    if i < index - start {
                        assert(text.take(index - start)[i] == longer[i]);
                    }
                }
            }
            assert(digits_value(longer) == digits_value(text.take(index - start)) * 10 + digit);
            assert(capped(digits_value(longer)) == capped(next as nat));
        }
        value = if next > 0xffff_ffff_ffff_ffff {
            0xffff_ffff_ffff_ffff
        } else {
            next as u64
        };
        index = index + 1;
    }
    proof {
        assert(text.take(text.len() as int) =~= text);
    }
    Some(value)
}

/// The decimal notation of a number is a run of digits that is worth the
/// number.
pub proof fn lemma_decimal_text_reads_back(value: nat)
    ensures
        decimal_text(value).len() > 0,
        all_ascii_digits(decimal_text(value)),
        digits_value(decimal_text(value)) == value,
    decreases value,
{
    if value < 10 {
        let text = decimal_text(value);
        assert(text.drop_last() =~= Seq::<char>::empty());
        assert(digits_value(text.drop_last()) == 0);
    } else {
        lemma_decimal_text_reads_back(value / 10);
        let text = decimal_text(value);
        assert(text.drop_last() =~= decimal_text(value / 10));
        assert forall|i: int| 0 <= i < text.len() implies is_ascii_digit(#[trigger] text[i]) by {
            if i < text.len() - 1 {
                assert(text[i] == decimal_text(value / 10)[i]);
            }
        }
    }
}

/// Calls `std::str::from_utf8`, which accepts exactly the byte strings that
/// are UTF-8 and gives the text that they encode.
#[verifier::external_body]
pub(crate) fn text_of_bytes(bytes: &[u8]) -> (text: Option<&str>)
    ensures
        match text {
            Some(text) => valid_utf8(bytes@) && text@ == decode_utf8(bytes@),
            None => !valid_utf8(bytes@),
        },
{
    std::str::from_utf8(bytes).ok()
}

} // verus!
