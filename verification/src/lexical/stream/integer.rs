//! The integer literal parser.

use crate::lexical::token::lexeme::literal::integer::literal_of;
use crate::lexical::token::lexeme::literal::integer::UNDERSCORE;
use crate::lexical::token::lexeme::literal::Integer;
use crate::text::read_text;
use crate::text::text_of;
use vstd::prelude::*;
use vstd::slice::slice_subrange;

verus! {

/// Where the parser stands in a literal.
pub enum State {
    Start,
    ZeroOrHexadecimal,
    Decimal,
    Hexadecimal,
}

/// Why bytes are not an integer literal. The errors about a character hold
/// the character, its position counted from one, and the text up to and
/// with it.
#[derive(Debug, Clone)]
pub enum Error {
    NotAnInteger,
    InvalidDecimalCharacter(char, usize, String),
    InvalidHexadecimalFormat,
    InvalidHexadecimalCharacter(char, usize, String),
}

/// An error, with its text as a sequence of characters.
pub enum ErrorModel {
    NotAnInteger,
    InvalidDecimalCharacter(char, usize, Seq<char>),
    InvalidHexadecimalFormat,
    InvalidHexadecimalCharacter(char, usize, Seq<char>),
}

impl View for Error {
    type V = ErrorModel;

    open spec fn view(&self) -> ErrorModel {
        match self {
            Error::NotAnInteger => ErrorModel::NotAnInteger,
            Error::InvalidDecimalCharacter(character, position, text) => {
                ErrorModel::InvalidDecimalCharacter(*character, *position, text@)
            },
            Error::InvalidHexadecimalFormat => ErrorModel::InvalidHexadecimalFormat,
            Error::InvalidHexadecimalCharacter(character, position, text) => {
                ErrorModel::InvalidHexadecimalCharacter(*character, *position, text@)
            },
        }
    }
}

/// The digit zero.
pub const ZERO: u8 = 48;

/// The letter that marks the hexadecimal notation.
pub const LETTER_X: u8 = 120;

pub open spec fn is_digit(byte: u8) -> bool {
    48 <= byte <= 57
}

pub open spec fn is_alphabetic(byte: u8) -> bool {
    (65 <= byte <= 90) || (97 <= byte <= 122)
}

pub open spec fn is_hexadecimal_digit(byte: u8) -> bool {
    is_digit(byte) || (65 <= byte <= 70) || (97 <= byte <= 102)
}

/// Whether a byte goes on a literal of the given notation: a digit of the
/// notation, or an underscore.
pub open spec fn continues(byte: u8, hexadecimal: bool) -> bool {
    byte == UNDERSCORE || if hexadecimal {
        is_hexadecimal_digit(byte)
    } else {
        is_digit(byte)
    }
}

/// The index of the first byte from `from` on that does not go on the
/// literal, or the length of the input if every byte does.
pub open spec fn run_end(bytes: Seq<u8>, from: int, hexadecimal: bool) -> int
    decreases bytes.len() - from,
{
    if from < 0 || from >= bytes.len() || !continues(bytes[from], hexadecimal) {
        from
    } else {
        run_end(bytes, from + 1, hexadecimal)
    }
}

/// The error about the byte at `index`.
pub open spec fn offence(bytes: Seq<u8>, index: int, hexadecimal: bool) -> ErrorModel {
    if hexadecimal {
        ErrorModel::InvalidHexadecimalCharacter(
            bytes[index] as char,
            (index + 1) as usize,
            read_text(bytes.take(index + 1)),
        )
    } else {
        ErrorModel::InvalidDecimalCharacter(
            bytes[index] as char,
            (index + 1) as usize,
            read_text(bytes.take(index + 1)),
        )
    }
}

/// How many bytes at the beginning of the input make up an integer literal,
/// or why there is none.
///
/// No input is a literal of no bytes. Otherwise a literal begins with a
/// digit. After a zero, an `x` begins the hexadecimal notation, whose digits
/// and underscores go on to the first byte that is neither; that byte is an
/// error if it is a letter, and also if no byte has followed the `x`. A zero
/// that no `x` follows is a literal by itself, unless a letter follows it.
/// After another digit, decimal digits and underscores go on to the first
/// byte that is neither, which is an error if it is a letter.
pub open spec fn lexed(bytes: Seq<u8>) -> Result<int, ErrorModel> {
    if bytes.len() == 0 {
        Ok(0)
    } else if !is_digit(bytes[0]) {
        Err(ErrorModel::NotAnInteger)
    } else if bytes[0] == ZERO {
        if bytes.len() >= 2 && bytes[1] == LETTER_X {
            let end = run_end(bytes, 2, true);
            if end < bytes.len() && (is_alphabetic(bytes[end]) || end <= 2) {
                Err(offence(bytes, end, true))
            } else {
                Ok(end)
            }
        } else if bytes.len() >= 2 && is_alphabetic(bytes[1]) {
            Err(offence(bytes, 1, false))
        } else {
            Ok(1)
        }
    } else {
        let end = run_end(bytes, 1, false);
        if end < bytes.len() && is_alphabetic(bytes[end]) {
            Err(offence(bytes, end, false))
        } else {
            Ok(end)
        }
    }
}

/// What the parser knows of the bytes before `size` when it stands in
/// `state`.
pub open spec fn scanned(bytes: Seq<u8>, state: State, size: int) -> bool {
    match state {
        State::Start => size == 0,
        State::ZeroOrHexadecimal => size == 1 && bytes[0] == ZERO,
        State::Decimal => {
            &&& size >= 1
            &&& is_digit(bytes[0])
            &&& bytes[0] != ZERO
            &&& run_end(bytes, 1, false) == run_end(bytes, size, false)
        },
        State::Hexadecimal => {
            &&& size >= 2
            &&& bytes[0] == ZERO
            &&& bytes[1] == LETTER_X
            &&& run_end(bytes, 2, true) == run_end(bytes, size, true)
        },
    }
}

fn digit(byte: u8) -> (yes: bool)
    ensures
        yes == is_digit(byte),
{
    48 <= byte && byte <= 57
}

fn alphabetic(byte: u8) -> (yes: bool)
    ensures
        yes == is_alphabetic(byte),
{
    (65 <= byte && byte <= 90) || (97 <= byte && byte <= 122)
}

fn hexadecimal_digit(byte: u8) -> (yes: bool)
    ensures
        yes == is_hexadecimal_digit(byte),
{
    digit(byte) || (65 <= byte && byte <= 70) || (97 <= byte && byte <= 102)
}

/// The error about the byte at `index`.
fn offending(bytes: &[u8], index: usize, hexadecimal: bool) -> (error: Error)
    requires
        index < bytes@.len(),
    ensures
        error@ == offence(bytes@, index as int, hexadecimal),
{
    let length = bytes.len();
    let text = text_of(slice_subrange(bytes, 0, index + 1));
    assert(bytes@.subrange(0, index + 1) =~= bytes@.take(index + 1));
    if hexadecimal {
        Error::InvalidHexadecimalCharacter(bytes[index] as char, index + 1, text)
    } else {
        Error::InvalidDecimalCharacter(bytes[index] as char, index + 1, text)
    }
}

/// The literal of the first `size` bytes.
fn literal(bytes: &[u8], size: usize) -> (literal: Integer)
    requires
        size <= bytes@.len(),
    ensures
        literal@ == literal_of(bytes@.take(size as int)),
{
    assert(bytes@.subrange(0, size as int) =~= bytes@.take(size as int));
    Integer::new(slice_subrange(bytes, 0, size))
}

/// Parses an integer literal at the beginning of `bytes`: returns how many
/// bytes it takes and the literal, as `lexed` says, or the error that
/// `lexed` gives.
pub fn parse(bytes: &[u8]) -> (res: Result<(usize, Integer), Error>)
    ensures
        match res {
            Ok((size, literal)) => {
                &&& lexed(bytes@) == Ok::<_, ErrorModel>(size as int)
                &&& literal@ == literal_of(bytes@.take(size as int))
            },
            Err(e) => lexed(bytes@) == Err::<int, _>(e@),
        },
{
    let mut state = State::Start;
    let mut size: usize = 0;
    while size < bytes.len()
        invariant
            size <= bytes.len(),
            scanned(bytes@, state, size as int),
        decreases bytes.len() - size,
    {
        let byte = bytes[size];
        match state {
            State::Start => {
                if byte == ZERO {
                    state = State::ZeroOrHexadecimal;
                } else if digit(byte) {
                    state = State::Decimal;
                } else {
                    return Err(Error::NotAnInteger);
                }
            },
            State::ZeroOrHexadecimal => {
                if byte == LETTER_X {
                    state = State::Hexadecimal;
                } else if alphabetic(byte) {
                    return Err(offending(bytes, size, false));
                } else {
                    return Ok((size, literal(bytes, size)));
                }
            },
            State::Decimal => {
                if alphabetic(byte) {
                    return Err(offending(bytes, size, false));
                }
                if !digit(byte) && byte != UNDERSCORE {
                    return Ok((size, literal(bytes, size)));
                }
            },
            State::Hexadecimal => {
                if !hexadecimal_digit(byte) && byte != UNDERSCORE {
                    if alphabetic(byte) || size <= 2 {
                        return Err(offending(bytes, size, true));
                    } else {
                        return Ok((size, literal(bytes, size)));
                    }
                }
            },
        }
        size = size + 1;
    }
    assert(bytes@.take(size as int) =~= bytes@);
    Ok((size, literal(bytes, size)))
}

} // verus!
