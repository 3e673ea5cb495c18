//! From a line that the player typed to a guess.

use crate::error::ErrorKind;
use crate::text::{
    all_digits, decimal_digits, decimal_value, is_digit, is_whitespace,
    lemma_blank_text_holds_no_number, lemma_digits_hold_their_number,
    lemma_foreign_character_holds_no_number, lemma_sign_and_padding_change_nothing,
    lemma_written_number_reads_back, parse_unsigned, parsed_unsigned,
};
use vstd::prelude::*;

verus! {

/// The guess that `line` holds: the line without its surrounding white space,
/// read as an unsigned number in base ten that fits in 32 bits. Any other
/// line is `InvalidInput`.
pub open spec fn parsed_guess(line: Seq<char>) -> Result<u32, ErrorKind> {
    match parsed_unsigned(line, u32::MAX as u64) {
        Some(number) => Ok(number as u32),
        None => Err(ErrorKind::InvalidInput),
    }
}

/// Reads a guess from one line of input.
pub fn parse_guess(line: &str) -> (guess: Result<u32, ErrorKind>)
    ensures
        guess == parsed_guess(line@),
{
    match parse_unsigned(line, u32::MAX as u64) {
        Some(number) => Ok(number as u32),
        None => Err(ErrorKind::InvalidInput),
    }
}

/// A line is either a guess or `InvalidInput`; no other error comes of a
/// line.
pub proof fn lemma_line_is_guess_or_invalid_input(line: Seq<char>)
    ensures
        parsed_guess(line) is Ok || parsed_guess(line) == Err::<u32, ErrorKind>(
            ErrorKind::InvalidInput,
        ),
{
}

/// A line of nothing but white space, the empty line among them, is
/// `InvalidInput`.
pub proof fn lemma_blank_line_is_invalid_input(line: Seq<char>)
    requires
        forall|i: int| 0 <= i < line.len() ==> is_whitespace(#[trigger] line[i]),
    ensures
        parsed_guess(line) == Err::<u32, ErrorKind>(ErrorKind::InvalidInput),
{
    lemma_blank_text_holds_no_number(line, u32::MAX as u64);
}

/// A line with a character in it that is neither white space nor a digit nor
/// `+` is `InvalidInput`: so is every line with a letter or a `-` in it.
pub proof fn lemma_foreign_character_is_invalid_input(line: Seq<char>, at: int)
    requires
        0 <= at < line.len(),
        !is_whitespace(line[at]),
        !is_digit(line[at]),
        line[at] != '+',
    ensures
        parsed_guess(line) == Err::<u32, ErrorKind>(ErrorKind::InvalidInput),
{
    lemma_foreign_character_holds_no_number(line, at, u32::MAX as u64);
}

/// Digits with white space around them, with or without a `+` before them,
/// are the guess that the digits spell if that fits in 32 bits, and
/// `InvalidInput` if it does not.
pub proof fn lemma_padded_digits_are_their_number(
    before: Seq<char>,
    digits: Seq<char>,
    after: Seq<char>,
)
    requires
        forall|i: int| 0 <= i < before.len() ==> is_whitespace(#[trigger] before[i]),
        forall|i: int| 0 <= i < after.len() ==> is_whitespace(#[trigger] after[i]),
        digits.len() > 0,
        all_digits(digits),
    ensures
        parsed_guess(before + (seq!['+'] + digits) + after) == parsed_guess(
            before + digits + after,
        ),
        decimal_value(digits) <= u32::MAX ==> parsed_guess(before + digits + after) == Ok::<
            u32,
            ErrorKind,
        >(decimal_value(digits) as u32),
        decimal_value(digits) > u32::MAX ==> parsed_guess(before + digits + after) == Err::<
            u32,
            ErrorKind,
        >(ErrorKind::InvalidInput),
{
    lemma_sign_and_padding_change_nothing(before, digits, after, u32::MAX as u64);
    lemma_digits_hold_their_number(digits, u32::MAX as u64);
}

/// Every guess can be typed: the usual writing of a number of 32 bits is a
/// line that holds it.
pub proof fn lemma_every_guess_can_be_typed(guess: u32)
    ensures
        parsed_guess(decimal_digits(guess as nat)) == Ok::<u32, ErrorKind>(guess),
{
    lemma_written_number_reads_back(guess as u64, u32::MAX as u64);
}

} // verus!
