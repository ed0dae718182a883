//! From a line that the player typed to a guess.

use vstd::prelude::*;
use crate::mastermind::CODE_LENGTH;

verus! {

/// The value of a decimal digit, and `None` for any other character.
pub open spec fn digit_value(c: char) -> Option<u32> {
    if '0' <= c <= '9' {
        Some((c as u32 - '0' as u32) as u32)
    } else {
        None
    }
}

/// The guess that a text stands for: the values of its first four
/// characters, provided that the text holds at least four characters and
/// nothing but decimal digits.
pub open spec fn guess_in(text: Seq<char>) -> Option<Seq<u32>> {
    if text.len() >= CODE_LENGTH && forall|i: int|
        0 <= i < text.len() ==> digit_value(#[trigger] text[i]) is Some {
        Some(Seq::new(CODE_LENGTH as nat, |i: int| digit_value(text[i]).unwrap()))
    } else {
        None
    }
}

/// What is left of a line once the white space at its two ends is taken
/// away.
pub uninterp spec fn trimmed(line: Seq<char>) -> Seq<char>;

/// Calls `str::trim`, which returns the part of a string between its leading
/// and its trailing white space. The contract gives that part a name and
/// claims nothing more of it.
#[verifier::external_body]
fn trim_line(line: &str) -> (rest: &str)
    ensures
        rest@ == trimmed(line@),
{
    line.trim()
}

/// The value of `c` as a decimal digit: what `char::to_digit` gives for the
/// radix ten.
pub fn decimal_digit(c: char) -> (value: Option<u32>)
    ensures
        value == digit_value(c),
{
    if '0' <= c && c <= '9' {
        Some(c as u32 - '0' as u32)
    } else {
        None
    }
}

/// Reads a guess from a text without surrounding white space.
pub fn parse_digits(text: &str) -> (guess: Option<[u32; 4]>)
    ensures
        match guess {
            Some(code) => guess_in(text@) == Some(code@),
            None => guess_in(text@) is None,
        },
{
    let mut code: [u32; 4] = [0; 4];
    let mut count: usize = 0;
    for c in it: text.chars()
        invariant
            it.seq() == text@,
            count == if it.index() < CODE_LENGTH { it.index() } else { CODE_LENGTH as int },
            forall|i: int| 0 <= i < it.index() ==> digit_value(#[trigger] text@[i]) is Some,
            forall|i: int| 0 <= i < count ==> digit_value(text@[i]) == Some(#[trigger] code@[i]),
    {
        match decimal_digit(c) {
            Some(value) => {
                if count < CODE_LENGTH {
                    code[count] = value;
                    count += 1;
                }
            },
            None => {
                return None;
            },
        }
    }
    if count < CODE_LENGTH {
        return None;
    }
    Some(code)
}

/// Reads a guess from a line as the player typed it: white space at the ends
/// of the line is ignored, and the rest is read as `parse_digits` reads it.
pub fn parse_guess(line: &str) -> (guess: Option<[u32; 4]>)
    ensures
        match guess {
            Some(code) => guess_in(trimmed(line@)) == Some(code@),
            None => guess_in(trimmed(line@)) is None,
        },
{
    parse_digits(trim_line(line))
}

} // verus!
