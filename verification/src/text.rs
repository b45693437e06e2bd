//! Reading text: pieces between separators, and decimal numbers.

use crate::layout::lines_of;
use vstd::prelude::*;

verus! {

/// The characters of a string, in order.
pub fn chars_of(text: &str) -> (chars: Vec<char>)
    ensures
        chars@ == text@,
{
    let mut chars: Vec<char> = Vec::new();
    for mark in rest: text.chars()
        invariant
            chars@ == rest.seq().take(rest.index() as int),
            rest.seq() == text@,
    {
        chars.push(mark);
    }
    chars
}

/// The pieces into which the separator `mark` cuts a text, in order. The
/// pieces hold no separator, and there is one more piece than there are
/// separators: a text that ends with one has an empty last piece.
pub open spec fn split(text: Seq<char>, mark: char) -> Seq<Seq<char>>
    decreases text.len(),
{
    if text.len() == 0 {
        seq![Seq::empty()]
    } else {
        let before = split(text.drop_last(), mark);
        if text.last() == mark {
            before.push(Seq::empty())
        } else {
            before.drop_last().push(before.last().push(text.last()))
        }
    }
}

/// Cuts a text into the pieces between the separators `mark`.
pub fn split_at(text: &Vec<char>, mark: char) -> (pieces: Vec<Vec<char>>)
    ensures
        lines_of(pieces) == split(text@, mark),
{
    let mut pieces: Vec<Vec<char>> = Vec::new();
    let mut piece: Vec<char> = Vec::new();
    let mut index: usize = 0;
    assert(text@.take(0) =~= Seq::empty());
    assert(lines_of(pieces).push(piece@) =~= split(text@.take(0), mark));
    while index < text.len()
        invariant
            index <= text.len(),
            lines_of(pieces).push(piece@) == split(text@.take(index as int), mark),
        decreases text.len() - index,
    {
        let ghost before = lines_of(pieces).push(piece@);
        assert(text@.take(index + 1).drop_last() =~= text@.take(index as int));
        if text[index] == mark {
            pieces.push(piece);
            piece = Vec::new();
            assert(lines_of(pieces).push(piece@) =~= before.push(Seq::empty()));
        } else {
            piece.push(text[index]);
            assert(lines_of(pieces).push(piece@) =~= before.drop_last().push(
                before.last().push(text@[index as int]),
            ));
        }
        index = index + 1;
    }
    assert(text@.take(index as int) =~= text@);
    pieces.push(piece);
    assert(lines_of(pieces) =~= split(text@, mark));
    pieces
}

/// Whether a character is one of the ten decimal digits.
pub open spec fn is_digit(mark: char) -> bool {
    '0' <= mark <= '9'
}

/// The value of a decimal digit.
pub open spec fn digit_value(mark: char) -> int {
    mark as int - '0' as int
}

/// Returns the value of a decimal digit, or `None` for any other character.
pub fn read_digit(mark: char) -> (value: Option<u64>)
    ensures
        value == if is_digit(mark) {
            Some(digit_value(mark) as u64)
        } else {
            None
        },
{
    if '0' <= mark && mark <= '9' {
        Some((mark as u32 - '0' as u32) as u64)
    } else {
        None
    }
}

/// Whether every character of a text is a decimal digit.
pub open spec fn all_digits(text: Seq<char>) -> bool {
    forall|index: int| 0 <= index < text.len() ==> is_digit(#[trigger] text[index])
}

/// The number that a row of decimal digits denotes, the first digit counting
/// most. Leading zeros change nothing.
pub open spec fn digits_value(text: Seq<char>) -> int
    decreases text.len(),
{
    if text.len() == 0 {
        0
    } else {
        digits_value(text.drop_last()) * 10 + digit_value(text.last())
    }
}

/// Whether a text starts with a sign, `+` or `-`.
pub open spec fn has_sign(text: Seq<char>) -> bool {
    text.len() > 0 && (text[0] == '+' || text[0] == '-')
}

/// The digits of a number: the text without its sign, if it has one.
pub open spec fn digits_of(text: Seq<char>) -> Seq<char> {
    if has_sign(text) {
        text.subrange(1, text.len() as int)
    } else {
        text
    }
}

/// The number that a text denotes: an optional sign and then one or more
/// decimal digits, with nothing before, between or after. Any other text
/// denotes none.
pub open spec fn number(text: Seq<char>) -> Option<int> {
    let digits = digits_of(text);
    if digits.len() > 0 && all_digits(digits) {
        Some(
            if text[0] == '-' {
                -digits_value(digits)
            } else {
                digits_value(digits)
            },
        )
    } else {
        None
    }
}

/// The number that a text denotes, if it is at least `least` and at most
/// `most`.
pub open spec fn number_within(text: Seq<char>, least: int, most: int) -> Option<int> {
    match number(text) {
        Some(value) => if least <= value <= most {
            Some(value)
        } else {
            None
        },
        None => None,
    }
}

/// A row of digits denotes no less than any of its beginnings.
pub proof fn lemma_digits_grow(text: Seq<char>, length: int)
    requires
        all_digits(text),
        0 <= length <= text.len(),
    ensures
        0 <= digits_value(text.take(length)) <= digits_value(text),
    decreases text.len() - length,
{
    if length == text.len() {
        assert(text.take(length) =~= text);
        lemma_digits_not_negative(text);
    } else {
        lemma_digits_grow(text, length + 1);
        assert(text.take(length + 1).drop_last() =~= text.take(length));
        assert(is_digit(text[length]));
        lemma_digits_not_negative(text.take(length));
    }
}

/// A row of digits denotes no negative number.
pub proof fn lemma_digits_not_negative(text: Seq<char>)
    requires
        all_digits(text),
    ensures
        0 <= digits_value(text),
    decreases text.len(),
{
    if text.len() > 0 {
        lemma_digits_not_negative(text.drop_last());
        assert(is_digit(text[text.len() - 1]));
    }
}

/// Reads a number whose size is at most the largest `u64`.
///
/// Returns the number that the text denotes, or `None` if it denotes none or
/// one that is larger or smaller than that.
#[verifier::loop_isolation(false)]
pub fn read_number(text: &Vec<char>) -> (value: Option<i128>)
    ensures
        value == match number_within(text@, -(u64::MAX as int), u64::MAX as int) {
            Some(number) => Some(number as i128),
            None => None,
        },
{
    if text.len() == 0 {
        return None;
    }
    let negative = text[0] == '-';
    let start: usize = if text[0] == '-' || text[0] == '+' {
        1
    } else {
        0
    };
    if start == text.len() {
        return None;
    }
    let ghost digits = digits_of(text@);
    let mut size: u64 = 0;
    let mut index: usize = start;
    assert(digits.take(0) =~= Seq::empty());
    while index < text.len()
        invariant
            start <= index <= text.len(),
            digits == text@.subrange(start as int, text.len() as int),
            digits == digits_of(text@),
            all_digits(digits.take(index - start)),
            size == digits_value(digits.take(index - start)),
        decreases text.len() - index,
    {
        let ghost seen = digits.take(index - start);
        let ghost next = digits.take(index - start + 1);
        assert(next.drop_last() =~= seen);
        assert(next.last() == text@[index as int]);
        match read_digit(text[index]) {
            None => {
                assert(!is_digit(digits[index - start]));
                return None;
            },
            Some(digit) => {
                assert forall|place: int| 0 <= place < next.len() implies is_digit(#[trigger] next[place]) by {
                    if place < seen.len() {
                        assert(is_digit(seen[place]));
                    }
                }
                if size > (u64::MAX - digit) / 10 {
                    proof {
                        assert(digits_value(next) > u64::MAX);
                        if all_digits(digits) {
                            lemma_digits_grow(digits, index - start + 1);
                        }
                    }
                    return None;
                }
                size = size * 10 + digit;
            },
        }
        index = index + 1;
    }
    assert(digits.take(index - start) =~= digits);
    if negative {
        Some(-(size as i128))
    } else {
        Some(size as i128)
    }
}

/// Reads a number that a `usize` can hold.
pub fn read_usize(text: &Vec<char>) -> (value: Option<usize>)
    ensures
        value == match number_within(text@, 0, usize::MAX as int) {
            Some(number) => Some(number as usize),
            None => None,
        },
{
    match read_number(text) {
        Some(number) => if 0 <= number && number <= usize::MAX as i128 {
            Some(number as usize)
        } else {
            None
        },
        None => None,
    }
}

/// Reads a number that a `u8` can hold.
pub fn read_u8(text: &Vec<char>) -> (value: Option<u8>)
    ensures
        value == match number_within(text@, 0, u8::MAX as int) {
            Some(number) => Some(number as u8),
            None => None,
        },
{
    match read_number(text) {
        Some(number) => if 0 <= number && number <= u8::MAX as i128 {
            Some(number as u8)
        } else {
            None
        },
        None => None,
    }
}

/// Reads a number that an `i32` can hold.
pub fn read_i32(text: &Vec<char>) -> (value: Option<i32>)
    ensures
        value == match number_within(text@, i32::MIN as int, i32::MAX as int) {
            Some(number) => Some(number as i32),
            None => None,
        },
{
    match read_number(text) {
        Some(number) => if i32::MIN as i128 <= number && number <= i32::MAX as i128 {
            Some(number as i32)
        } else {
            None
        },
        None => None,
    }
}

} // verus!
