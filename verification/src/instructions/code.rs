//! The binary form of the instructions.
//!
//! An instruction is written as the byte of its code and, behind it, its
//! arguments: a number of the machine's address size as eight bytes, the
//! lowest first; an arbitrary-precision constant as the byte of its sign,
//! the number of the bytes of its magnitude, and those bytes, the lowest
//! first.

use crate::number::bigint_from_bytes;
use crate::number::bigint_from_usize;
use crate::number::bigint_sub;
use crate::number::bigint_to_bytes;
use crate::number::bigint_value;
use crate::number::digits;
use crate::number::le_value;
use crate::number::magnitude_bytes;
use crate::number::signed;
use num_bigint::BigInt;
use vstd::bytes::spec_u64_from_le_bytes;
use vstd::bytes::spec_u64_to_le_bytes;
use vstd::bytes::u64_from_le_bytes;
use vstd::bytes::u64_to_le_bytes;
use vstd::prelude::*;
use vstd::slice::slice_subrange;

verus! {

/// Why bytes are not an instruction.
#[derive(Debug, Clone, Copy, PartialEq, Eq, Structural)]
pub enum DecodingError {
    /// The bytes end inside an instruction.
    UnexpectedEOF,
    /// The byte is the code of no instruction, or not of the one expected.
    UnknownInstructionCode(u8),
    /// A number is too large for the machine's address size.
    ConstantTooLong,
}

/// The codes of the instructions.
#[derive(Debug, Clone, Copy, PartialEq, Eq, Structural)]
pub enum InstructionCode {
    PushConst,
    Load,
    Store,
    LoadGlobal,
    StoreGlobal,
    LoadSequenceByIndex,
    Add,
    Sub,
    Mul,
    And,
    Or,
    Xor,
    Lt,
    Le,
    Gt,
    Ge,
    Eq,
    Ne,
    Not,
    LoopBegin,
    LoopEnd,
    Call,
    Return,
    If,
    Else,
    EndIf,
    Exit,
    Div,
    Rem,
}

impl InstructionCode {
    /// The byte that stands for the code.
    pub open spec fn byte(self) -> u8 {
        match self {
            InstructionCode::PushConst => 0,
            InstructionCode::Load => 1,
            InstructionCode::Store => 2,
            InstructionCode::LoadGlobal => 3,
            InstructionCode::StoreGlobal => 4,
            InstructionCode::LoadSequenceByIndex => 5,
            InstructionCode::Add => 6,
            InstructionCode::Sub => 7,
            InstructionCode::Mul => 8,
            InstructionCode::And => 9,
            InstructionCode::Or => 10,
            InstructionCode::Xor => 11,
            InstructionCode::Lt => 12,
            InstructionCode::Le => 13,
            InstructionCode::Gt => 14,
            InstructionCode::Ge => 15,
            InstructionCode::Eq => 16,
            InstructionCode::Ne => 17,
            InstructionCode::Not => 18,
            InstructionCode::LoopBegin => 19,
            InstructionCode::LoopEnd => 20,
            InstructionCode::Call => 21,
            InstructionCode::Return => 22,
            InstructionCode::If => 23,
            InstructionCode::Else => 24,
            InstructionCode::EndIf => 25,
            InstructionCode::Exit => 26,
            InstructionCode::Div => 27,
            InstructionCode::Rem => 28,
        }
    }

    /// The code that a byte stands for, if it stands for one.
    pub open spec fn of(byte: u8) -> Option<InstructionCode> {
        if byte == 0 {
            Some(InstructionCode::PushConst)
        } else if byte == 1 {
            Some(InstructionCode::Load)
        } else if byte == 2 {
            Some(InstructionCode::Store)
        } else if byte == 3 {
            Some(InstructionCode::LoadGlobal)
        } else if byte == 4 {
            Some(InstructionCode::StoreGlobal)
        } else if byte == 5 {
            Some(InstructionCode::LoadSequenceByIndex)
        } else if byte == 6 {
            Some(InstructionCode::Add)
        } else if byte == 7 {
            Some(InstructionCode::Sub)
        } else if byte == 8 {
            Some(InstructionCode::Mul)
        } else if byte == 9 {
            Some(InstructionCode::And)
        } else if byte == 10 {
            Some(InstructionCode::Or)
        } else if byte == 11 {
            Some(InstructionCode::Xor)
        } else if byte == 12 {
            Some(InstructionCode::Lt)
        } else if byte == 13 {
            Some(InstructionCode::Le)
        } else if byte == 14 {
            Some(InstructionCode::Gt)
        } else if byte == 15 {
            Some(InstructionCode::Ge)
        } else if byte == 16 {
            Some(InstructionCode::Eq)
        } else if byte == 17 {
            Some(InstructionCode::Ne)
        } else if byte == 18 {
            Some(InstructionCode::Not)
        } else if byte == 19 {
            Some(InstructionCode::LoopBegin)
        } else if byte == 20 {
            Some(InstructionCode::LoopEnd)
        } else if byte == 21 {
            Some(InstructionCode::Call)
        } else if byte == 22 {
            Some(InstructionCode::Return)
        } else if byte == 23 {
            Some(InstructionCode::If)
        } else if byte == 24 {
            Some(InstructionCode::Else)
        } else if byte == 25 {
            Some(InstructionCode::EndIf)
        } else if byte == 26 {
            Some(InstructionCode::Exit)
        } else if byte == 27 {
            Some(InstructionCode::Div)
        } else if byte == 28 {
            Some(InstructionCode::Rem)
        } else {
            None
        }
    }

    /// How many numbers of the address size follow the code.
    pub open spec fn arguments(self) -> nat {
        match self {
            InstructionCode::PushConst => 0,
            InstructionCode::Load => 1,
            InstructionCode::Store => 1,
            InstructionCode::LoadGlobal => 1,
            InstructionCode::StoreGlobal => 1,
            InstructionCode::LoadSequenceByIndex => 3,
            InstructionCode::Add => 0,
            InstructionCode::Sub => 0,
            InstructionCode::Mul => 0,
            InstructionCode::And => 0,
            InstructionCode::Or => 0,
            InstructionCode::Xor => 0,
            InstructionCode::Lt => 0,
            InstructionCode::Le => 0,
            InstructionCode::Gt => 0,
            InstructionCode::Ge => 0,
            InstructionCode::Eq => 0,
            InstructionCode::Ne => 0,
            InstructionCode::Not => 0,
            InstructionCode::LoopBegin => 1,
            InstructionCode::LoopEnd => 0,
            InstructionCode::Call => 2,
            InstructionCode::Return => 1,
            InstructionCode::If => 0,
            InstructionCode::Else => 0,
            InstructionCode::EndIf => 0,
            InstructionCode::Exit => 1,
            InstructionCode::Div => 0,
            InstructionCode::Rem => 0,
        }
    }

    pub fn to_byte(self) -> (byte: u8)
        ensures
            byte == self.byte(),
            Self::of(byte) == Some(self),
    {
        match self {
            InstructionCode::PushConst => 0,
            InstructionCode::Load => 1,
            InstructionCode::Store => 2,
            InstructionCode::LoadGlobal => 3,
            InstructionCode::StoreGlobal => 4,
            InstructionCode::LoadSequenceByIndex => 5,
            InstructionCode::Add => 6,
            InstructionCode::Sub => 7,
            InstructionCode::Mul => 8,
            InstructionCode::And => 9,
            InstructionCode::Or => 10,
            InstructionCode::Xor => 11,
            InstructionCode::Lt => 12,
            InstructionCode::Le => 13,
            InstructionCode::Gt => 14,
            InstructionCode::Ge => 15,
            InstructionCode::Eq => 16,
            InstructionCode::Ne => 17,
            InstructionCode::Not => 18,
            InstructionCode::LoopBegin => 19,
            InstructionCode::LoopEnd => 20,
            InstructionCode::Call => 21,
            InstructionCode::Return => 22,
            InstructionCode::If => 23,
            InstructionCode::Else => 24,
            InstructionCode::EndIf => 25,
            InstructionCode::Exit => 26,
            InstructionCode::Div => 27,
            InstructionCode::Rem => 28,
        }
    }

    pub fn from_byte(byte: u8) -> (code: Option<Self>)
        ensures
            code == Self::of(byte),
    {
        if byte == 0 {
            Some(InstructionCode::PushConst)
        } else if byte == 1 {
            Some(InstructionCode::Load)
        } else if byte == 2 {
            Some(InstructionCode::Store)
        } else if byte == 3 {
            Some(InstructionCode::LoadGlobal)
        } else if byte == 4 {
            Some(InstructionCode::StoreGlobal)
        } else if byte == 5 {
            Some(InstructionCode::LoadSequenceByIndex)
        } else if byte == 6 {
            Some(InstructionCode::Add)
        } else if byte == 7 {
            Some(InstructionCode::Sub)
        } else if byte == 8 {
            Some(InstructionCode::Mul)
        } else if byte == 9 {
            Some(InstructionCode::And)
        } else if byte == 10 {
            Some(InstructionCode::Or)
        } else if byte == 11 {
            Some(InstructionCode::Xor)
        } else if byte == 12 {
            Some(InstructionCode::Lt)
        } else if byte == 13 {
            Some(InstructionCode::Le)
        } else if byte == 14 {
            Some(InstructionCode::Gt)
        } else if byte == 15 {
            Some(InstructionCode::Ge)
        } else if byte == 16 {
            Some(InstructionCode::Eq)
        } else if byte == 17 {
            Some(InstructionCode::Ne)
        } else if byte == 18 {
            Some(InstructionCode::Not)
        } else if byte == 19 {
            Some(InstructionCode::LoopBegin)
        } else if byte == 20 {
            Some(InstructionCode::LoopEnd)
        } else if byte == 21 {
            Some(InstructionCode::Call)
        } else if byte == 22 {
            Some(InstructionCode::Return)
        } else if byte == 23 {
            Some(InstructionCode::If)
        } else if byte == 24 {
            Some(InstructionCode::Else)
        } else if byte == 25 {
            Some(InstructionCode::EndIf)
        } else if byte == 26 {
            Some(InstructionCode::Exit)
        } else if byte == 27 {
            Some(InstructionCode::Div)
        } else if byte == 28 {
            Some(InstructionCode::Rem)
        } else {
            None
        }
    }
}

/// How many bytes a number takes.
pub const WORD: usize = 8;

/// A number as bytes.
pub open spec fn word(value: usize) -> Seq<u8> {
    spec_u64_to_le_bytes(value as u64)
}

/// The number that the eight bytes from `position` on stand for.
pub open spec fn word_at(bytes: Seq<u8>, position: int) -> u64 {
    spec_u64_from_le_bytes(bytes.subrange(position, position + 8))
}

/// The argument of the given number behind the code byte.
pub open spec fn argument(bytes: Seq<u8>, number: int) -> u64 {
    word_at(bytes, 1 + 8 * number)
}

/// A code byte and arguments as bytes.
pub open spec fn encoded(code: u8, arguments: Seq<usize>) -> Seq<u8>
    decreases arguments.len(),
{
    if arguments.len() == 0 {
        seq![code]
    } else {
        encoded(code, arguments.drop_last()) + word(arguments.last())
    }
}

/// Why bytes are not the instruction of this code with `count` arguments,
/// if they are not.
pub open spec fn arguments_error(code: u8, bytes: Seq<u8>, count: nat) -> Option<DecodingError> {
    if bytes.len() == 0 {
        Some(DecodingError::UnexpectedEOF)
    } else if bytes[0] != code {
        Some(DecodingError::UnknownInstructionCode(bytes[0]))
    } else if bytes.len() < 1 + 8 * count {
        Some(DecodingError::UnexpectedEOF)
    } else if exists|i: int| 0 <= i < count && #[trigger] argument(bytes, i) > usize::MAX {
        Some(DecodingError::ConstantTooLong)
    } else {
        None
    }
}

/// The `count` arguments behind the code byte.
pub open spec fn arguments_of(bytes: Seq<u8>, count: nat) -> Seq<usize> {
    Seq::new(count, |i: int| argument(bytes, i) as usize)
}

/// A code byte and arguments as bytes.
pub fn encode_with_args(code: u8, arguments: &[usize]) -> (bytes: Vec<u8>)
    ensures
        bytes@ == encoded(code, arguments@),
{
    let mut bytes: Vec<u8> = Vec::new();
    bytes.push(code);
    let mut i: usize = 0;
    assert(arguments@.take(0) =~= Seq::<usize>::empty());
    while i < arguments.len()
        invariant
            i <= arguments.len(),
            bytes@ == encoded(code, arguments@.take(i as int)),
        decreases arguments.len() - i,
    {
        let mut number = u64_to_le_bytes(arguments[i] as u64);
        bytes.append(&mut number);
        assert(arguments@.take(i + 1).drop_last() =~= arguments@.take(i as int));
        i = i + 1;
    }
    assert(arguments@.take(arguments.len() as int) =~= arguments@);
    bytes
}

/// The arguments of the instruction of the given code at the beginning of
/// `bytes`, and how many bytes code and arguments take.
pub fn decode_with_usize_args(code: u8, bytes: &[u8], count: usize) -> (res: Result<
    (Vec<usize>, usize),
    DecodingError,
>)
    requires
        1 + 8 * count <= usize::MAX,
    ensures
        match res {
            Ok((arguments, size)) => {
                &&& arguments_error(code, bytes@, count as nat) is None
                &&& arguments@ == arguments_of(bytes@, count as nat)
                &&& size == 1 + 8 * count
            },
            Err(e) => arguments_error(code, bytes@, count as nat) == Some(e),
        },
{
    if bytes.len() == 0 {
        return Err(DecodingError::UnexpectedEOF);
    }
    if bytes[0] != code {
        return Err(DecodingError::UnknownInstructionCode(bytes[0]));
    }
    if bytes.len() < 1 + WORD * count {
        return Err(DecodingError::UnexpectedEOF);
    }
    let mut arguments: Vec<usize> = Vec::new();
    let mut i: usize = 0;
    while i < count
        invariant
            i <= count,
            1 + 8 * count <= usize::MAX,
            bytes@.len() >= 1 + 8 * count,
            bytes@[0] == code,
            arguments@.len() == i,
            forall|j: int| 0 <= j < i ==> #[trigger] argument(bytes@, j) <= usize::MAX,
            forall|j: int| 0 <= j < i ==> arguments@[j] == argument(bytes@, j) as usize,
        decreases count - i,
    {
        let number = u64_from_le_bytes(slice_subrange(bytes, 1 + WORD * i, 1 + WORD * i + WORD));
        if number > usize::MAX as u64 {
            assert(argument(bytes@, i as int) > usize::MAX);
            return Err(DecodingError::ConstantTooLong);
        }
        arguments.push(number as usize);
        i = i + 1;
    }
    assert(arguments@ =~= arguments_of(bytes@, count as nat));
    Ok((arguments, 1 + WORD * count))
}

/// Decoding the bytes that arguments were encoded to gives the arguments
/// again, whatever follows the bytes.
pub proof fn lemma_arguments_round_trip(code: u8, arguments: Seq<usize>, rest: Seq<u8>)
    ensures
        encoded(code, arguments).len() == 1 + 8 * arguments.len(),
        arguments_error(code, encoded(code, arguments) + rest, arguments.len()) is None,
        arguments_of(encoded(code, arguments) + rest, arguments.len()) == arguments,
    decreases arguments.len(),
{
    vstd::bytes::lemma_auto_spec_u64_to_from_le_bytes();
    let bytes = encoded(code, arguments) + rest;
    if arguments.len() > 0 {
        let shorter = arguments.drop_last();
        let tail = word(arguments.last()) + rest;
        lemma_arguments_round_trip(code, shorter, tail);
        assert(encoded(code, shorter) + tail =~= bytes);
        assert forall|i: int| 0 <= i < arguments.len() implies #[trigger] argument(bytes, i)
            == arguments[i] as u64 by {
            if i < shorter.len() {
                assert(arguments_of(bytes, shorter.len())[i] == shorter[i]);
                assert(argument(bytes, i) <= usize::MAX);
            } else {
                assert(bytes.subrange(1 + 8 * i, 1 + 8 * i + 8) =~= word(arguments.last()));
            }
        }
        assert(arguments_of(bytes, arguments.len()) =~= arguments);
    } else {
        assert(arguments_of(bytes, 0) =~= arguments);
    }
}

/// The bytes that arguments were encoded to begin with the code byte.
pub proof fn lemma_begins_with_code(code: u8, arguments: Seq<usize>, rest: Seq<u8>)
    ensures
        (encoded(code, arguments) + rest).len() > 0,
        (encoded(code, arguments) + rest)[0] == code,
    decreases arguments.len(),
{
    if arguments.len() > 0 {
        lemma_begins_with_code(code, arguments.drop_last(), word(arguments.last()) + rest);
        assert(encoded(code, arguments.drop_last()) + (word(arguments.last()) + rest) =~= encoded(
            code,
            arguments,
        ) + rest);
    }
}

/// A code byte and a constant as bytes.
pub open spec fn constant_encoded(code: u8, value: int) -> Seq<u8> {
    seq![
        code,
        if value < 0 {
            1u8
        } else {
            0u8
        },
    ] + word(magnitude_bytes(value).len() as usize) + magnitude_bytes(value)
}

/// How many bytes the magnitude of the constant behind the code byte takes.
pub open spec fn constant_length(bytes: Seq<u8>) -> u64 {
    word_at(bytes, 2)
}

/// Why bytes are not the instruction of this code with a constant, if they
/// are not.
pub open spec fn constant_error(code: u8, bytes: Seq<u8>) -> Option<DecodingError> {
    if bytes.len() == 0 {
        Some(DecodingError::UnexpectedEOF)
    } else if bytes[0] != code {
        Some(DecodingError::UnknownInstructionCode(bytes[0]))
    } else if bytes.len() < 10 {
        Some(DecodingError::UnexpectedEOF)
    } else if constant_length(bytes) > usize::MAX {
        Some(DecodingError::ConstantTooLong)
    } else if bytes.len() < 10 + constant_length(bytes) {
        Some(DecodingError::UnexpectedEOF)
    } else {
        None
    }
}

/// How many bytes code and constant take.
pub open spec fn constant_size(bytes: Seq<u8>) -> nat {
    (10 + constant_length(bytes)) as nat
}

/// The constant behind the code byte.
pub open spec fn constant_of(bytes: Seq<u8>) -> int {
    signed(bytes[1] != 0, bytes.subrange(10, 10 + constant_length(bytes)))
}

/// How many bytes the instruction at the beginning of `bytes` takes.
pub open spec fn size_at(bytes: Seq<u8>) -> nat {
    match InstructionCode::of(bytes[0]) {
        Some(InstructionCode::PushConst) => constant_size(bytes),
        Some(code) => 1 + 8 * code.arguments(),
        None => 0,
    }
}

/// A code byte and a constant as bytes.
pub fn encode_constant(code: u8, value: &BigInt) -> (bytes: Vec<u8>)
    ensures
        bytes@ == constant_encoded(code, bigint_value(*value)),
{
    let (negative, mut magnitude) = bigint_to_bytes(value);
    let mut bytes: Vec<u8> = Vec::new();
    bytes.push(code);
    bytes.push(
        if negative {
            1
        } else {
            0
        },
    );
    let mut length = u64_to_le_bytes(magnitude.len() as u64);
    bytes.append(&mut length);
    bytes.append(&mut magnitude);
    assert(bytes@ =~= constant_encoded(code, bigint_value(*value)));
    bytes
}

/// The constant of the instruction of the given code at the beginning of
/// `bytes`, and how many bytes code and constant take.
pub fn decode_constant(code: u8, bytes: &[u8]) -> (res: Result<(BigInt, usize), DecodingError>)
    ensures
        match res {
            Ok((value, size)) => {
                &&& constant_error(code, bytes@) is None
                &&& bigint_value(value) == constant_of(bytes@)
                &&& size == constant_size(bytes@)
            },
            Err(e) => constant_error(code, bytes@) == Some(e),
        },
{
    if bytes.len() == 0 {
        return Err(DecodingError::UnexpectedEOF);
    }
    if bytes[0] != code {
        return Err(DecodingError::UnknownInstructionCode(bytes[0]));
    }
    if bytes.len() < 10 {
        return Err(DecodingError::UnexpectedEOF);
    }
    let length = u64_from_le_bytes(slice_subrange(bytes, 2, 10));
    if length > usize::MAX as u64 {
        return Err(DecodingError::ConstantTooLong);
    }
    let length = length as usize;
    if bytes.len() - 10 < length {
        return Err(DecodingError::UnexpectedEOF);
    }
    let magnitude = bigint_from_bytes(slice_subrange(bytes, 10, 10 + length));
    let value = if bytes[1] != 0 {
        bigint_sub(&bigint_from_usize(0), &magnitude)
    } else {
        magnitude
    };
    Ok((value, 10 + length))
}

/// The digits of a magnitude stand for it.
pub proof fn lemma_digits_value(magnitude: nat)
    ensures
        le_value(digits(magnitude)) == magnitude,
    decreases magnitude,
{
    if magnitude > 0 {
        lemma_digits_value(magnitude / 256);
        assert(digits(magnitude).skip(1) =~= digits(magnitude / 256));
    }
}

/// Decoding the bytes that a constant was encoded to gives the constant
/// again, whatever follows the bytes.
pub proof fn lemma_constant_round_trip(code: u8, value: int, rest: Seq<u8>)
    requires
        magnitude_bytes(value).len() <= usize::MAX,
    ensures
        constant_error(code, constant_encoded(code, value) + rest) is None,
        constant_size(constant_encoded(code, value) + rest) == constant_encoded(code, value).len(),
        constant_of(constant_encoded(code, value) + rest) == value,
{
    vstd::bytes::lemma_auto_spec_u64_to_from_le_bytes();
    let magnitude = magnitude_bytes(value);
    let bytes = constant_encoded(code, value) + rest;
    assert(bytes.subrange(2, 10) =~= word(magnitude.len() as usize));
    assert(bytes.subrange(10, 10 + magnitude.len() as int) =~= magnitude);
    if value < 0 {
        lemma_digits_value((-value) as nat);
    } else if value > 0 {
        lemma_digits_value(value as nat);
    } else {
        assert(le_value(seq![0u8]) == 0) by {
            assert(seq![0u8].skip(1) =~= Seq::<u8>::empty());
            assert(le_value(Seq::<u8>::empty()) == 0);
        }
    }
}

/// The bytes that a constant was encoded to begin with the code byte.
pub proof fn lemma_constant_begins_with_code(code: u8, value: int, rest: Seq<u8>)
    ensures
        (constant_encoded(code, value) + rest).len() > 0,
        (constant_encoded(code, value) + rest)[0] == code,
{
}

} // verus!
