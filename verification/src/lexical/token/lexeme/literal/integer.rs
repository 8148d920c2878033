//! The integer literal lexeme.

use crate::text::read_text;
use crate::text::text_of;
use vstd::prelude::*;

verus! {

/// An integer as written in the source: its digits, without the underscores
/// that set them apart and without the `0x` of the hexadecimal notation.
#[derive(Debug)]
pub enum Integer {
    Decimal { value: String },
    Hexadecimal { value: String },
}

/// An integer literal, with its digits as a sequence of characters.
pub enum IntegerModel {
    Decimal { value: Seq<char> },
    Hexadecimal { value: Seq<char> },
}

impl IntegerModel {
    /// The literal as it is written, without underscores.
    pub open spec fn text(self) -> Seq<char> {
        match self {
            IntegerModel::Decimal { value } => value,
            IntegerModel::Hexadecimal { value } => "0x"@ + value,
        }
    }
}

impl View for Integer {
    type V = IntegerModel;

    open spec fn view(&self) -> IntegerModel {
        match self {
            Integer::Decimal { value } => IntegerModel::Decimal { value: value@ },
            Integer::Hexadecimal { value } => IntegerModel::Hexadecimal { value: value@ },
        }
    }
}

/// The underscore, which may stand between the digits of a literal.
pub const UNDERSCORE: u8 = 95;

/// The bytes without the underscores among them.
pub open spec fn without_underscores(bytes: Seq<u8>) -> Seq<u8>
    decreases bytes.len(),
{
    if bytes.len() == 0 {
        Seq::empty()
    } else if bytes.last() == UNDERSCORE {
        without_underscores(bytes.drop_last())
    } else {
        without_underscores(bytes.drop_last()).push(bytes.last())
    }
}

/// Whether the bytes begin with `0x`.
pub open spec fn has_hexadecimal_prefix(bytes: Seq<u8>) -> bool {
    bytes.len() >= 2 && bytes[0] == 48 && bytes[1] == 120
}

/// The literal that a sequence of bytes is read as.
pub open spec fn literal_of(bytes: Seq<u8>) -> IntegerModel {
    if has_hexadecimal_prefix(bytes) {
        IntegerModel::Hexadecimal {
            value: read_text(without_underscores(bytes.subrange(2, bytes.len() as int))),
        }
    } else {
        IntegerModel::Decimal { value: read_text(without_underscores(bytes)) }
    }
}

impl Integer {
    /// The decimal literal with these digits.
    pub fn decimal(value: String) -> (literal: Self)
        ensures
            literal@ == (IntegerModel::Decimal { value: value@ }),
    {
        Integer::Decimal { value }
    }

    /// The hexadecimal literal with these digits.
    pub fn hexadecimal(value: String) -> (literal: Self)
        ensures
            literal@ == (IntegerModel::Hexadecimal { value: value@ }),
    {
        Integer::Hexadecimal { value }
    }

    /// Reads a literal from its bytes: hexadecimal where they begin with
    /// `0x`, decimal otherwise; the underscores are dropped.
    pub fn new(bytes: &[u8]) -> (literal: Self)
        ensures
            literal@ == literal_of(bytes@),
    {
        let hexadecimal = bytes.len() >= 2 && bytes[0] == 48 && bytes[1] == 120;
        let start: usize = if hexadecimal {
            2
        } else {
            0
        };
        let ghost body = bytes@.subrange(start as int, bytes@.len() as int);
        let mut digits: Vec<u8> = Vec::new();
        let mut i: usize = start;
        assert(body.take(0) =~= Seq::<u8>::empty());
        while i < bytes.len()
            invariant
                start <= i <= bytes.len(),
                body == bytes@.subrange(start as int, bytes@.len() as int),
                digits@ == without_underscores(body.take(i - start)),
            decreases bytes.len() - i,
        {
            assert(body.take(i - start + 1).drop_last() =~= body.take(i - start));
            assert(body.take(i - start + 1).last() == bytes@[i as int]);
            if bytes[i] != UNDERSCORE {
                digits.push(bytes[i]);
            }
            i = i + 1;
        }
        assert(body.take(bytes.len() - start) =~= body);
        assert(!hexadecimal ==> body =~= bytes@);
        let value = text_of(digits.as_slice());
        if hexadecimal {
            Integer::Hexadecimal { value }
        } else {
            Integer::Decimal { value }
        }
    }

    /// Writes the literal, without underscores.
    pub fn to_string(&self) -> (text: String)
        ensures
            text@ == self@.text(),
    {
        match self {
            Integer::Decimal { value } => value.clone(),
            Integer::Hexadecimal { value } => {
                let mut text = "0x".to_owned();
                text.append(value.as_str());
                text
            },
        }
    }
}

} // verus!
