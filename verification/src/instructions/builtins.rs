//! The instructions that compute: each takes its operands from the
//! evaluation stack, the left one on top, and puts its result there.

use crate::instructions::code::arguments_error;
use crate::instructions::code::arguments_of;
use crate::instructions::code::decode_with_usize_args;
use crate::instructions::code::encode_with_args;
use crate::instructions::code::encoded;
use crate::instructions::code::lemma_arguments_round_trip;
use crate::instructions::code::DecodingError;
use crate::instructions::code::InstructionCode;
use crate::instructions::Instruction;
use crate::instructions::InstructionInfo;
use crate::instructions::VMInstruction;
use crate::primitive::BinaryOperator;
use crate::primitive::Primitive;
use crate::primitive::PrimitiveOperations;
use crate::vm::Cell;
use crate::vm::Fault;
use crate::vm::InternalVM;
use crate::vm::RuntimeError;
use crate::vm::VirtualMachine;
use crate::vm::VmModel;
use vstd::prelude::*;

verus! {

/// The two operands of an instruction, the left one first.
fn operands<P: Primitive, O: PrimitiveOperations<P>>(vm: &mut VirtualMachine<P, O>) -> (res: Result<
    (P, P),
    RuntimeError,
>)
    ensures
        match res {
            Ok(pair) => old(vm)@.pop_value() matches Ok(first) && first.0.pop_value() matches Ok(
                second,
            ) && first.1 == pair.0.value() && second.1 == pair.1.value() && final(vm)@
                == second.0,
            Err(e) => match old(vm)@.pop_value() {
                Ok(first) => first.0.pop_value() == Err::<(VmModel, Option<int>), _>(e@),
                Err(fault) => fault == e@,
            },
        },
        final(vm).operations() == old(vm).operations(),
{
    let left = match vm.pop() {
        Ok(cell) => match cell.value() {
            Ok(left) => left,
            Err(e) => {
                return Err(e);
            },
        },
        Err(e) => {
            return Err(e);
        },
    };
    let right = match vm.pop() {
        Ok(cell) => match cell.value() {
            Ok(right) => right,
            Err(e) => {
                return Err(e);
            },
        },
        Err(e) => {
            return Err(e);
        },
    };
    Ok((left, right))
}

/// Gives the sum of its two operands.
#[derive(Debug, PartialEq, Default, Clone, Copy)]
pub struct Add;

impl InstructionInfo for Add {
    open spec fn effect(&self, state: VmModel) -> Result<VmModel, Fault> {
        state.binary(BinaryOperator::Add)
    }

    open spec fn refused(&self, state: VmModel) -> Option<Fault> {
        None
    }

    open spec fn assembly(&self) -> Seq<char> {
        "add"@
    }

    fn to_assembly(&self) -> (text: String) {
        "add".to_owned()
    }

    open spec fn instruction_code() -> InstructionCode {
        InstructionCode::Add
    }

    open spec fn encoding(&self) -> Seq<u8> {
        encoded(InstructionCode::Add.byte(), Seq::empty())
    }

    open spec fn decoding_error(bytes: Seq<u8>) -> Option<DecodingError> {
        arguments_error(InstructionCode::Add.byte(), bytes, 0)
    }

    open spec fn decoded_from(&self, bytes: Seq<u8>, size: nat) -> bool {
        size == 1
    }

    fn code() -> (code: InstructionCode) {
        InstructionCode::Add
    }

    fn encode(&self) -> (bytes: Vec<u8>) {
        let arguments: Vec<usize> = Vec::new();
        encode_with_args(InstructionCode::Add.to_byte(), arguments.as_slice())
    }

    fn decode(bytes: &[u8]) -> (res: Result<(Self, usize), DecodingError>) {
        match decode_with_usize_args(InstructionCode::Add.to_byte(), bytes, 0) {
            Ok((_, size)) => Ok((Add, size)),
            Err(e) => Err(e),
        }
    }

    proof fn lemma_round_trip(&self, rest: Seq<u8>) {
        lemma_arguments_round_trip(InstructionCode::Add.byte(), Seq::empty(), rest);
    }

    open spec fn takes(&self) -> usize {
        2
    }

    fn inputs_count(&self) -> (count: usize) {
        2
    }

    open spec fn gives(&self) -> usize {
        1
    }

    fn outputs_count(&self) -> (count: usize) {
        1
    }

    fn wrap(&self) -> (instruction: Instruction)
        ensures
            instruction == Instruction::Add(*self),
    {
        Instruction::Add(Add)
    }
}

impl<P: Primitive, O: PrimitiveOperations<P>> VMInstruction<P, O> for Add {
    fn execute(&self, vm: &mut VirtualMachine<P, O>) -> (res: Result<(), RuntimeError>) {
        let (left, right) = match operands(vm) {
            Ok(pair) => pair,
            Err(e) => {
                return Err(e);
            },
        };
        let result = match vm.get_operator().add(left, right) {
            Ok(result) => result,
            Err(e) => {
                return Err(e);
            },
        };
        vm.push(Cell::Value(result))
    }
}

/// Gives the top operand less the one below it.
#[derive(Debug, PartialEq, Default, Clone, Copy)]
pub struct Sub;

impl InstructionInfo for Sub {
    open spec fn effect(&self, state: VmModel) -> Result<VmModel, Fault> {
        state.binary(BinaryOperator::Sub)
    }

    open spec fn refused(&self, state: VmModel) -> Option<Fault> {
        None
    }

    open spec fn assembly(&self) -> Seq<char> {
        "sub"@
    }

    fn to_assembly(&self) -> (text: String) {
        "sub".to_owned()
    }

    open spec fn instruction_code() -> InstructionCode {
        InstructionCode::Sub
    }

    open spec fn encoding(&self) -> Seq<u8> {
        encoded(InstructionCode::Sub.byte(), Seq::empty())
    }

    open spec fn decoding_error(bytes: Seq<u8>) -> Option<DecodingError> {
        arguments_error(InstructionCode::Sub.byte(), bytes, 0)
    }

    open spec fn decoded_from(&self, bytes: Seq<u8>, size: nat) -> bool {
        size == 1
    }

    fn code() -> (code: InstructionCode) {
        InstructionCode::Sub
    }

    fn encode(&self) -> (bytes: Vec<u8>) {
        let arguments: Vec<usize> = Vec::new();
        encode_with_args(InstructionCode::Sub.to_byte(), arguments.as_slice())
    }

    fn decode(bytes: &[u8]) -> (res: Result<(Self, usize), DecodingError>) {
        match decode_with_usize_args(InstructionCode::Sub.to_byte(), bytes, 0) {
            Ok((_, size)) => Ok((Sub, size)),
            Err(e) => Err(e),
        }
    }

    proof fn lemma_round_trip(&self, rest: Seq<u8>) {
        lemma_arguments_round_trip(InstructionCode::Sub.byte(), Seq::empty(), rest);
    }

    open spec fn takes(&self) -> usize {
        2
    }

    fn inputs_count(&self) -> (count: usize) {
        2
    }

    open spec fn gives(&self) -> usize {
        1
    }

    fn outputs_count(&self) -> (count: usize) {
        1
    }

    fn wrap(&self) -> (instruction: Instruction)
        ensures
            instruction == Instruction::Sub(*self),
    {
        Instruction::Sub(Sub)
    }
}

impl<P: Primitive, O: PrimitiveOperations<P>> VMInstruction<P, O> for Sub {
    fn execute(&self, vm: &mut VirtualMachine<P, O>) -> (res: Result<(), RuntimeError>) {
        let (left, right) = match operands(vm) {
            Ok(pair) => pair,
            Err(e) => {
                return Err(e);
            },
        };
        let result = match vm.get_operator().sub(left, right) {
            Ok(result) => result,
            Err(e) => {
                return Err(e);
            },
        };
        vm.push(Cell::Value(result))
    }
}

/// Gives the product of its two operands.
#[derive(Debug, PartialEq, Default, Clone, Copy)]
pub struct Mul;

impl InstructionInfo for Mul {
    open spec fn effect(&self, state: VmModel) -> Result<VmModel, Fault> {
        state.binary(BinaryOperator::Mul)
    }

    open spec fn refused(&self, state: VmModel) -> Option<Fault> {
        None
    }

    open spec fn assembly(&self) -> Seq<char> {
        "mul"@
    }

    fn to_assembly(&self) -> (text: String) {
        "mul".to_owned()
    }

    open spec fn instruction_code() -> InstructionCode {
        InstructionCode::Mul
    }

    open spec fn encoding(&self) -> Seq<u8> {
        encoded(InstructionCode::Mul.byte(), Seq::empty())
    }

    open spec fn decoding_error(bytes: Seq<u8>) -> Option<DecodingError> {
        arguments_error(InstructionCode::Mul.byte(), bytes, 0)
    }

    open spec fn decoded_from(&self, bytes: Seq<u8>, size: nat) -> bool {
        size == 1
    }

    fn code() -> (code: InstructionCode) {
        InstructionCode::Mul
    }

    fn encode(&self) -> (bytes: Vec<u8>) {
        let arguments: Vec<usize> = Vec::new();
        encode_with_args(InstructionCode::Mul.to_byte(), arguments.as_slice())
    }

    fn decode(bytes: &[u8]) -> (res: Result<(Self, usize), DecodingError>) {
        match decode_with_usize_args(InstructionCode::Mul.to_byte(), bytes, 0) {
            Ok((_, size)) => Ok((Mul, size)),
            Err(e) => Err(e),
        }
    }

    proof fn lemma_round_trip(&self, rest: Seq<u8>) {
        lemma_arguments_round_trip(InstructionCode::Mul.byte(), Seq::empty(), rest);
    }

    open spec fn takes(&self) -> usize {
        2
    }

    fn inputs_count(&self) -> (count: usize) {
        2
    }

    open spec fn gives(&self) -> usize {
        1
    }

    fn outputs_count(&self) -> (count: usize) {
        1
    }

    fn wrap(&self) -> (instruction: Instruction)
        ensures
            instruction == Instruction::Mul(*self),
    {
        Instruction::Mul(Mul)
    }
}

impl<P: Primitive, O: PrimitiveOperations<P>> VMInstruction<P, O> for Mul {
    fn execute(&self, vm: &mut VirtualMachine<P, O>) -> (res: Result<(), RuntimeError>) {
        let (left, right) = match operands(vm) {
            Ok(pair) => pair,
            Err(e) => {
                return Err(e);
            },
        };
        let result = match vm.get_operator().mul(left, right) {
            Ok(result) => result,
            Err(e) => {
                return Err(e);
            },
        };
        vm.push(Cell::Value(result))
    }
}

/// Gives whether both of its operands are true.
#[derive(Debug, PartialEq, Default, Clone, Copy)]
pub struct And;

impl InstructionInfo for And {
    open spec fn effect(&self, state: VmModel) -> Result<VmModel, Fault> {
        state.binary(BinaryOperator::And)
    }

    open spec fn refused(&self, state: VmModel) -> Option<Fault> {
        None
    }

    open spec fn assembly(&self) -> Seq<char> {
        "and"@
    }

    fn to_assembly(&self) -> (text: String) {
        "and".to_owned()
    }

    open spec fn instruction_code() -> InstructionCode {
        InstructionCode::And
    }

    open spec fn encoding(&self) -> Seq<u8> {
        encoded(InstructionCode::And.byte(), Seq::empty())
    }

    open spec fn decoding_error(bytes: Seq<u8>) -> Option<DecodingError> {
        arguments_error(InstructionCode::And.byte(), bytes, 0)
    }

    open spec fn decoded_from(&self, bytes: Seq<u8>, size: nat) -> bool {
        size == 1
    }

    fn code() -> (code: InstructionCode) {
        InstructionCode::And
    }

    fn encode(&self) -> (bytes: Vec<u8>) {
        let arguments: Vec<usize> = Vec::new();
        encode_with_args(InstructionCode::And.to_byte(), arguments.as_slice())
    }

    fn decode(bytes: &[u8]) -> (res: Result<(Self, usize), DecodingError>) {
        match decode_with_usize_args(InstructionCode::And.to_byte(), bytes, 0) {
            Ok((_, size)) => Ok((And, size)),
            Err(e) => Err(e),
        }
    }

    proof fn lemma_round_trip(&self, rest: Seq<u8>) {
        lemma_arguments_round_trip(InstructionCode::And.byte(), Seq::empty(), rest);
    }

    open spec fn takes(&self) -> usize {
        2
    }

    fn inputs_count(&self) -> (count: usize) {
        2
    }

    open spec fn gives(&self) -> usize {
        1
    }

    fn outputs_count(&self) -> (count: usize) {
        1
    }

    fn wrap(&self) -> (instruction: Instruction)
        ensures
            instruction == Instruction::And(*self),
    {
        Instruction::And(And)
    }
}

impl<P: Primitive, O: PrimitiveOperations<P>> VMInstruction<P, O> for And {
    fn execute(&self, vm: &mut VirtualMachine<P, O>) -> (res: Result<(), RuntimeError>) {
        let (left, right) = match operands(vm) {
            Ok(pair) => pair,
            Err(e) => {
                return Err(e);
            },
        };
        let result = match vm.get_operator().and(left, right) {
            Ok(result) => result,
            Err(e) => {
                return Err(e);
            },
        };
        vm.push(Cell::Value(result))
    }
}

/// Gives whether one of its operands is true.
#[derive(Debug, PartialEq, Default, Clone, Copy)]
pub struct Or;

impl InstructionInfo for Or {
    open spec fn effect(&self, state: VmModel) -> Result<VmModel, Fault> {
        state.binary(BinaryOperator::Or)
    }

    open spec fn refused(&self, state: VmModel) -> Option<Fault> {
        None
    }

    open spec fn assembly(&self) -> Seq<char> {
        "or"@
    }

    fn to_assembly(&self) -> (text: String) {
        "or".to_owned()
    }

    open spec fn instruction_code() -> InstructionCode {
        InstructionCode::Or
    }

    open spec fn encoding(&self) -> Seq<u8> {
        encoded(InstructionCode::Or.byte(), Seq::empty())
    }

    open spec fn decoding_error(bytes: Seq<u8>) -> Option<DecodingError> {
        arguments_error(InstructionCode::Or.byte(), bytes, 0)
    }

    open spec fn decoded_from(&self, bytes: Seq<u8>, size: nat) -> bool {
        size == 1
    }

    fn code() -> (code: InstructionCode) {
        InstructionCode::Or
    }

    fn encode(&self) -> (bytes: Vec<u8>) {
        let arguments: Vec<usize> = Vec::new();
        encode_with_args(InstructionCode::Or.to_byte(), arguments.as_slice())
    }

    fn decode(bytes: &[u8]) -> (res: Result<(Self, usize), DecodingError>) {
        match decode_with_usize_args(InstructionCode::Or.to_byte(), bytes, 0) {
            Ok((_, size)) => Ok((Or, size)),
            Err(e) => Err(e),
        }
    }

    proof fn lemma_round_trip(&self, rest: Seq<u8>) {
        lemma_arguments_round_trip(InstructionCode::Or.byte(), Seq::empty(), rest);
    }

    open spec fn takes(&self) -> usize {
        2
    }

    fn inputs_count(&self) -> (count: usize) {
        2
    }

    open spec fn gives(&self) -> usize {
        1
    }

    fn outputs_count(&self) -> (count: usize) {
        1
    }

    fn wrap(&self) -> (instruction: Instruction)
        ensures
            instruction == Instruction::Or(*self),
    {
        Instruction::Or(Or)
    }
}

impl<P: Primitive, O: PrimitiveOperations<P>> VMInstruction<P, O> for Or {
    fn execute(&self, vm: &mut VirtualMachine<P, O>) -> (res: Result<(), RuntimeError>) {
        let (left, right) = match operands(vm) {
            Ok(pair) => pair,
            Err(e) => {
                return Err(e);
            },
        };
        let result = match vm.get_operator().or(left, right) {
            Ok(result) => result,
            Err(e) => {
                return Err(e);
            },
        };
        vm.push(Cell::Value(result))
    }
}

/// Gives whether exactly one of its operands is true.
#[derive(Debug, PartialEq, Default, Clone, Copy)]
pub struct Xor;

impl InstructionInfo for Xor {
    open spec fn effect(&self, state: VmModel) -> Result<VmModel, Fault> {
        state.binary(BinaryOperator::Xor)
    }

    open spec fn refused(&self, state: VmModel) -> Option<Fault> {
        None
    }

    open spec fn assembly(&self) -> Seq<char> {
        "xor"@
    }

    fn to_assembly(&self) -> (text: String) {
        "xor".to_owned()
    }

    open spec fn instruction_code() -> InstructionCode {
        InstructionCode::Xor
    }

    open spec fn encoding(&self) -> Seq<u8> {
        encoded(InstructionCode::Xor.byte(), Seq::empty())
    }

    open spec fn decoding_error(bytes: Seq<u8>) -> Option<DecodingError> {
        arguments_error(InstructionCode::Xor.byte(), bytes, 0)
    }

    open spec fn decoded_from(&self, bytes: Seq<u8>, size: nat) -> bool {
        size == 1
    }

    fn code() -> (code: InstructionCode) {
        InstructionCode::Xor
    }

    fn encode(&self) -> (bytes: Vec<u8>) {
        let arguments: Vec<usize> = Vec::new();
        encode_with_args(InstructionCode::Xor.to_byte(), arguments.as_slice())
    }

    fn decode(bytes: &[u8]) -> (res: Result<(Self, usize), DecodingError>) {
        match decode_with_usize_args(InstructionCode::Xor.to_byte(), bytes, 0) {
            Ok((_, size)) => Ok((Xor, size)),
            Err(e) => Err(e),
        }
    }

    proof fn lemma_round_trip(&self, rest: Seq<u8>) {
        lemma_arguments_round_trip(InstructionCode::Xor.byte(), Seq::empty(), rest);
    }

    open spec fn takes(&self) -> usize {
        2
    }

    fn inputs_count(&self) -> (count: usize) {
        2
    }

    open spec fn gives(&self) -> usize {
        1
    }

    fn outputs_count(&self) -> (count: usize) {
        1
    }

    fn wrap(&self) -> (instruction: Instruction)
        ensures
            instruction == Instruction::Xor(*self),
    {
        Instruction::Xor(Xor)
    }
}

impl<P: Primitive, O: PrimitiveOperations<P>> VMInstruction<P, O> for Xor {
    fn execute(&self, vm: &mut VirtualMachine<P, O>) -> (res: Result<(), RuntimeError>) {
        let (left, right) = match operands(vm) {
            Ok(pair) => pair,
            Err(e) => {
                return Err(e);
            },
        };
        let result = match vm.get_operator().xor(left, right) {
            Ok(result) => result,
            Err(e) => {
                return Err(e);
            },
        };
        vm.push(Cell::Value(result))
    }
}

/// Gives whether the top operand is less than the one below it.
#[derive(Debug, PartialEq, Default, Clone, Copy)]
pub struct Lt;

impl InstructionInfo for Lt {
    open spec fn effect(&self, state: VmModel) -> Result<VmModel, Fault> {
        state.binary(BinaryOperator::Lt)
    }

    open spec fn refused(&self, state: VmModel) -> Option<Fault> {
        None
    }

    open spec fn assembly(&self) -> Seq<char> {
        "lt"@
    }

    fn to_assembly(&self) -> (text: String) {
        "lt".to_owned()
    }

    open spec fn instruction_code() -> InstructionCode {
        InstructionCode::Lt
    }

    open spec fn encoding(&self) -> Seq<u8> {
        encoded(InstructionCode::Lt.byte(), Seq::empty())
    }

    open spec fn decoding_error(bytes: Seq<u8>) -> Option<DecodingError> {
        arguments_error(InstructionCode::Lt.byte(), bytes, 0)
    }

    open spec fn decoded_from(&self, bytes: Seq<u8>, size: nat) -> bool {
        size == 1
    }

    fn code() -> (code: InstructionCode) {
        InstructionCode::Lt
    }

    fn encode(&self) -> (bytes: Vec<u8>) {
        let arguments: Vec<usize> = Vec::new();
        encode_with_args(InstructionCode::Lt.to_byte(), arguments.as_slice())
    }

    fn decode(bytes: &[u8]) -> (res: Result<(Self, usize), DecodingError>) {
        match decode_with_usize_args(InstructionCode::Lt.to_byte(), bytes, 0) {
            Ok((_, size)) => Ok((Lt, size)),
            Err(e) => Err(e),
        }
    }

    proof fn lemma_round_trip(&self, rest: Seq<u8>) {
        lemma_arguments_round_trip(InstructionCode::Lt.byte(), Seq::empty(), rest);
    }

    open spec fn takes(&self) -> usize {
        2
    }

    fn inputs_count(&self) -> (count: usize) {
        2
    }

    open spec fn gives(&self) -> usize {
        1
    }

    fn outputs_count(&self) -> (count: usize) {
        1
    }

    fn wrap(&self) -> (instruction: Instruction)
        ensures
            instruction == Instruction::Lt(*self),
    {
        Instruction::Lt(Lt)
    }
}

impl<P: Primitive, O: PrimitiveOperations<P>> VMInstruction<P, O> for Lt {
    fn execute(&self, vm: &mut VirtualMachine<P, O>) -> (res: Result<(), RuntimeError>) {
        let (left, right) = match operands(vm) {
            Ok(pair) => pair,
            Err(e) => {
                return Err(e);
            },
        };
        let result = match vm.get_operator().lt(left, right) {
            Ok(result) => result,
            Err(e) => {
                return Err(e);
            },
        };
        vm.push(Cell::Value(result))
    }
}

/// Gives whether the top operand is at most the one below it.
#[derive(Debug, PartialEq, Default, Clone, Copy)]
pub struct Le;

impl InstructionInfo for Le {
    open spec fn effect(&self, state: VmModel) -> Result<VmModel, Fault> {
        state.binary(BinaryOperator::Le)
    }

    open spec fn refused(&self, state: VmModel) -> Option<Fault> {
        None
    }

    open spec fn assembly(&self) -> Seq<char> {
        "le"@
    }

    fn to_assembly(&self) -> (text: String) {
        "le".to_owned()
    }

    open spec fn instruction_code() -> InstructionCode {
        InstructionCode::Le
    }

    open spec fn encoding(&self) -> Seq<u8> {
        encoded(InstructionCode::Le.byte(), Seq::empty())
    }

    open spec fn decoding_error(bytes: Seq<u8>) -> Option<DecodingError> {
        arguments_error(InstructionCode::Le.byte(), bytes, 0)
    }

    open spec fn decoded_from(&self, bytes: Seq<u8>, size: nat) -> bool {
        size == 1
    }

    fn code() -> (code: InstructionCode) {
        InstructionCode::Le
    }

    fn encode(&self) -> (bytes: Vec<u8>) {
        let arguments: Vec<usize> = Vec::new();
        encode_with_args(InstructionCode::Le.to_byte(), arguments.as_slice())
    }

    fn decode(bytes: &[u8]) -> (res: Result<(Self, usize), DecodingError>) {
        match decode_with_usize_args(InstructionCode::Le.to_byte(), bytes, 0) {
            Ok((_, size)) => Ok((Le, size)),
            Err(e) => Err(e),
        }
    }

    proof fn lemma_round_trip(&self, rest: Seq<u8>) {
        lemma_arguments_round_trip(InstructionCode::Le.byte(), Seq::empty(), rest);
    }

    open spec fn takes(&self) -> usize {
        2
    }

    fn inputs_count(&self) -> (count: usize) {
        2
    }

    open spec fn gives(&self) -> usize {
        1
    }

    fn outputs_count(&self) -> (count: usize) {
        1
    }

    fn wrap(&self) -> (instruction: Instruction)
        ensures
            instruction == Instruction::Le(*self),
    {
        Instruction::Le(Le)
    }
}

impl<P: Primitive, O: PrimitiveOperations<P>> VMInstruction<P, O> for Le {
    fn execute(&self, vm: &mut VirtualMachine<P, O>) -> (res: Result<(), RuntimeError>) {
        let (left, right) = match operands(vm) {
            Ok(pair) => pair,
            Err(e) => {
                return Err(e);
            },
        };
        let result = match vm.get_operator().le(left, right) {
            Ok(result) => result,
            Err(e) => {
                return Err(e);
            },
        };
        vm.push(Cell::Value(result))
    }
}

/// Gives whether the top operand is greater than the one below it.
#[derive(Debug, PartialEq, Default, Clone, Copy)]
pub struct Gt;

impl InstructionInfo for Gt {
    open spec fn effect(&self, state: VmModel) -> Result<VmModel, Fault> {
        state.binary(BinaryOperator::Gt)
    }

    open spec fn refused(&self, state: VmModel) -> Option<Fault> {
        None
    }

    open spec fn assembly(&self) -> Seq<char> {
        "gt"@
    }

    fn to_assembly(&self) -> (text: String) {
        "gt".to_owned()
    }

    open spec fn instruction_code() -> InstructionCode {
        InstructionCode::Gt
    }

    open spec fn encoding(&self) -> Seq<u8> {
        encoded(InstructionCode::Gt.byte(), Seq::empty())
    }

    open spec fn decoding_error(bytes: Seq<u8>) -> Option<DecodingError> {
        arguments_error(InstructionCode::Gt.byte(), bytes, 0)
    }

    open spec fn decoded_from(&self, bytes: Seq<u8>, size: nat) -> bool {
        size == 1
    }

    fn code() -> (code: InstructionCode) {
        InstructionCode::Gt
    }

    fn encode(&self) -> (bytes: Vec<u8>) {
        let arguments: Vec<usize> = Vec::new();
        encode_with_args(InstructionCode::Gt.to_byte(), arguments.as_slice())
    }

    fn decode(bytes: &[u8]) -> (res: Result<(Self, usize), DecodingError>) {
        match decode_with_usize_args(InstructionCode::Gt.to_byte(), bytes, 0) {
            Ok((_, size)) => Ok((Gt, size)),
            Err(e) => Err(e),
        }
    }

    proof fn lemma_round_trip(&self, rest: Seq<u8>) {
        lemma_arguments_round_trip(InstructionCode::Gt.byte(), Seq::empty(), rest);
    }

    open spec fn takes(&self) -> usize {
        2
    }

    fn inputs_count(&self) -> (count: usize) {
        2
    }

    open spec fn gives(&self) -> usize {
        1
    }

    fn outputs_count(&self) -> (count: usize) {
        1
    }

    fn wrap(&self) -> (instruction: Instruction)
        ensures
            instruction == Instruction::Gt(*self),
    {
        Instruction::Gt(Gt)
    }
}

impl<P: Primitive, O: PrimitiveOperations<P>> VMInstruction<P, O> for Gt {
    fn execute(&self, vm: &mut VirtualMachine<P, O>) -> (res: Result<(), RuntimeError>) {
        let (left, right) = match operands(vm) {
            Ok(pair) => pair,
            Err(e) => {
                return Err(e);
            },
        };
        let result = match vm.get_operator().gt(left, right) {
            Ok(result) => result,
            Err(e) => {
                return Err(e);
            },
        };
        vm.push(Cell::Value(result))
    }
}

/// Gives whether the top operand is at least the one below it.
#[derive(Debug, PartialEq, Default, Clone, Copy)]
pub struct Ge;

impl InstructionInfo for Ge {
    open spec fn effect(&self, state: VmModel) -> Result<VmModel, Fault> {
        state.binary(BinaryOperator::Ge)
    }

    open spec fn refused(&self, state: VmModel) -> Option<Fault> {
        None
    }

    open spec fn assembly(&self) -> Seq<char> {
        "ge"@
    }

    fn to_assembly(&self) -> (text: String) {
        "ge".to_owned()
    }

    open spec fn instruction_code() -> InstructionCode {
        InstructionCode::Ge
    }

    open spec fn encoding(&self) -> Seq<u8> {
        encoded(InstructionCode::Ge.byte(), Seq::empty())
    }

    open spec fn decoding_error(bytes: Seq<u8>) -> Option<DecodingError> {
        arguments_error(InstructionCode::Ge.byte(), bytes, 0)
    }

    open spec fn decoded_from(&self, bytes: Seq<u8>, size: nat) -> bool {
        size == 1
    }

    fn code() -> (code: InstructionCode) {
        InstructionCode::Ge
    }

    fn encode(&self) -> (bytes: Vec<u8>) {
        let arguments: Vec<usize> = Vec::new();
        encode_with_args(InstructionCode::Ge.to_byte(), arguments.as_slice())
    }

    fn decode(bytes: &[u8]) -> (res: Result<(Self, usize), DecodingError>) {
        match decode_with_usize_args(InstructionCode::Ge.to_byte(), bytes, 0) {
            Ok((_, size)) => Ok((Ge, size)),
            Err(e) => Err(e),
        }
    }

    proof fn lemma_round_trip(&self, rest: Seq<u8>) {
        lemma_arguments_round_trip(InstructionCode::Ge.byte(), Seq::empty(), rest);
    }

    open spec fn takes(&self) -> usize {
        2
    }

    fn inputs_count(&self) -> (count: usize) {
        2
    }

    open spec fn gives(&self) -> usize {
        1
    }

    fn outputs_count(&self) -> (count: usize) {
        1
    }

    fn wrap(&self) -> (instruction: Instruction)
        ensures
            instruction == Instruction::Ge(*self),
    {
        Instruction::Ge(Ge)
    }
}

impl<P: Primitive, O: PrimitiveOperations<P>> VMInstruction<P, O> for Ge {
    fn execute(&self, vm: &mut VirtualMachine<P, O>) -> (res: Result<(), RuntimeError>) {
        let (left, right) = match operands(vm) {
            Ok(pair) => pair,
            Err(e) => {
                return Err(e);
            },
        };
        let result = match vm.get_operator().ge(left, right) {
            Ok(result) => result,
            Err(e) => {
                return Err(e);
            },
        };
        vm.push(Cell::Value(result))
    }
}

/// Gives whether its two operands are equal.
#[derive(Debug, PartialEq, Default, Clone, Copy)]
pub struct Eq;

impl InstructionInfo for Eq {
    open spec fn effect(&self, state: VmModel) -> Result<VmModel, Fault> {
        state.binary(BinaryOperator::Eq)
    }

    open spec fn refused(&self, state: VmModel) -> Option<Fault> {
        None
    }

    open spec fn assembly(&self) -> Seq<char> {
        "eq"@
    }

    fn to_assembly(&self) -> (text: String) {
        "eq".to_owned()
    }

    open spec fn instruction_code() -> InstructionCode {
        InstructionCode::Eq
    }

    open spec fn encoding(&self) -> Seq<u8> {
        encoded(InstructionCode::Eq.byte(), Seq::empty())
    }

    open spec fn decoding_error(bytes: Seq<u8>) -> Option<DecodingError> {
        arguments_error(InstructionCode::Eq.byte(), bytes, 0)
    }

    open spec fn decoded_from(&self, bytes: Seq<u8>, size: nat) -> bool {
        size == 1
    }

    fn code() -> (code: InstructionCode) {
        InstructionCode::Eq
    }

    fn encode(&self) -> (bytes: Vec<u8>) {
        let arguments: Vec<usize> = Vec::new();
        encode_with_args(InstructionCode::Eq.to_byte(), arguments.as_slice())
    }

    fn decode(bytes: &[u8]) -> (res: Result<(Self, usize), DecodingError>) {
        match decode_with_usize_args(InstructionCode::Eq.to_byte(), bytes, 0) {
            Ok((_, size)) => Ok((Eq, size)),
            Err(e) => Err(e),
        }
    }

    proof fn lemma_round_trip(&self, rest: Seq<u8>) {
        lemma_arguments_round_trip(InstructionCode::Eq.byte(), Seq::empty(), rest);
    }

    open spec fn takes(&self) -> usize {
        2
    }

    fn inputs_count(&self) -> (count: usize) {
        2
    }

    open spec fn gives(&self) -> usize {
        1
    }

    fn outputs_count(&self) -> (count: usize) {
        1
    }

    fn wrap(&self) -> (instruction: Instruction)
        ensures
            instruction == Instruction::Eq(*self),
    {
        Instruction::Eq(Eq)
    }
}

impl<P: Primitive, O: PrimitiveOperations<P>> VMInstruction<P, O> for Eq {
    fn execute(&self, vm: &mut VirtualMachine<P, O>) -> (res: Result<(), RuntimeError>) {
        let (left, right) = match operands(vm) {
            Ok(pair) => pair,
            Err(e) => {
                return Err(e);
            },
        };
        let result = match vm.get_operator().eq(left, right) {
            Ok(result) => result,
            Err(e) => {
                return Err(e);
            },
        };
        vm.push(Cell::Value(result))
    }
}

/// Gives whether its two operands differ.
#[derive(Debug, PartialEq, Default, Clone, Copy)]
pub struct Ne;

impl InstructionInfo for Ne {
    open spec fn effect(&self, state: VmModel) -> Result<VmModel, Fault> {
        state.binary(BinaryOperator::Ne)
    }

    open spec fn refused(&self, state: VmModel) -> Option<Fault> {
        None
    }

    open spec fn assembly(&self) -> Seq<char> {
        "ne"@
    }

    fn to_assembly(&self) -> (text: String) {
        "ne".to_owned()
    }

    open spec fn instruction_code() -> InstructionCode {
        InstructionCode::Ne
    }

    open spec fn encoding(&self) -> Seq<u8> {
        encoded(InstructionCode::Ne.byte(), Seq::empty())
    }

    open spec fn decoding_error(bytes: Seq<u8>) -> Option<DecodingError> {
        arguments_error(InstructionCode::Ne.byte(), bytes, 0)
    }

    open spec fn decoded_from(&self, bytes: Seq<u8>, size: nat) -> bool {
        size == 1
    }

    fn code() -> (code: InstructionCode) {
        InstructionCode::Ne
    }

    fn encode(&self) -> (bytes: Vec<u8>) {
        let arguments: Vec<usize> = Vec::new();
        encode_with_args(InstructionCode::Ne.to_byte(), arguments.as_slice())
    }

    fn decode(bytes: &[u8]) -> (res: Result<(Self, usize), DecodingError>) {
        match decode_with_usize_args(InstructionCode::Ne.to_byte(), bytes, 0) {
            Ok((_, size)) => Ok((Ne, size)),
            Err(e) => Err(e),
        }
    }

    proof fn lemma_round_trip(&self, rest: Seq<u8>) {
        lemma_arguments_round_trip(InstructionCode::Ne.byte(), Seq::empty(), rest);
    }

    open spec fn takes(&self) -> usize {
        2
    }

    fn inputs_count(&self) -> (count: usize) {
        2
    }

    open spec fn gives(&self) -> usize {
        1
    }

    fn outputs_count(&self) -> (count: usize) {
        1
    }

    fn wrap(&self) -> (instruction: Instruction)
        ensures
            instruction == Instruction::Ne(*self),
    {
        Instruction::Ne(Ne)
    }
}

impl<P: Primitive, O: PrimitiveOperations<P>> VMInstruction<P, O> for Ne {
    fn execute(&self, vm: &mut VirtualMachine<P, O>) -> (res: Result<(), RuntimeError>) {
        let (left, right) = match operands(vm) {
            Ok(pair) => pair,
            Err(e) => {
                return Err(e);
            },
        };
        let result = match vm.get_operator().ne(left, right) {
            Ok(result) => result,
            Err(e) => {
                return Err(e);
            },
        };
        vm.push(Cell::Value(result))
    }
}

/// Gives the quotient of the top operand by the one below it, rounded toward zero.
#[derive(Debug, PartialEq, Default, Clone, Copy)]
pub struct Div;

impl InstructionInfo for Div {
    open spec fn effect(&self, state: VmModel) -> Result<VmModel, Fault> {
        state.divide(false)
    }

    open spec fn refused(&self, state: VmModel) -> Option<Fault> {
        state.division_refused()
    }

    open spec fn assembly(&self) -> Seq<char> {
        "div"@
    }

    fn to_assembly(&self) -> (text: String) {
        "div".to_owned()
    }

    open spec fn instruction_code() -> InstructionCode {
        InstructionCode::Div
    }

    open spec fn encoding(&self) -> Seq<u8> {
        encoded(InstructionCode::Div.byte(), Seq::empty())
    }

    open spec fn decoding_error(bytes: Seq<u8>) -> Option<DecodingError> {
        arguments_error(InstructionCode::Div.byte(), bytes, 0)
    }

    open spec fn decoded_from(&self, bytes: Seq<u8>, size: nat) -> bool {
        size == 1
    }

    fn code() -> (code: InstructionCode) {
        InstructionCode::Div
    }

    fn encode(&self) -> (bytes: Vec<u8>) {
        let arguments: Vec<usize> = Vec::new();
        encode_with_args(InstructionCode::Div.to_byte(), arguments.as_slice())
    }

    fn decode(bytes: &[u8]) -> (res: Result<(Self, usize), DecodingError>) {
        match decode_with_usize_args(InstructionCode::Div.to_byte(), bytes, 0) {
            Ok((_, size)) => Ok((Div, size)),
            Err(e) => Err(e),
        }
    }

    proof fn lemma_round_trip(&self, rest: Seq<u8>) {
        lemma_arguments_round_trip(InstructionCode::Div.byte(), Seq::empty(), rest);
    }

    open spec fn takes(&self) -> usize {
        2
    }

    fn inputs_count(&self) -> (count: usize) {
        2
    }

    open spec fn gives(&self) -> usize {
        1
    }

    fn outputs_count(&self) -> (count: usize) {
        1
    }

    fn wrap(&self) -> (instruction: Instruction)
        ensures
            instruction == Instruction::Div(*self),
    {
        Instruction::Div(Div)
    }
}

impl<P: Primitive, O: PrimitiveOperations<P>> VMInstruction<P, O> for Div {
    fn execute(&self, vm: &mut VirtualMachine<P, O>) -> (res: Result<(), RuntimeError>) {
        let (left, right) = match operands(vm) {
            Ok(pair) => pair,
            Err(e) => {
                return Err(e);
            },
        };
        let (quotient, remainder) = match vm.get_operator().div_rem(left, right) {
            Ok(pair) => pair,
            Err(e) => {
                return Err(e);
            },
        };
        vm.push(Cell::Value(quotient))
    }
}

/// Gives the remainder of the top operand by the one below it, with the sign of the top operand.
#[derive(Debug, PartialEq, Default, Clone, Copy)]
pub struct Rem;

impl InstructionInfo for Rem {
    open spec fn effect(&self, state: VmModel) -> Result<VmModel, Fault> {
        state.divide(true)
    }

    open spec fn refused(&self, state: VmModel) -> Option<Fault> {
        state.division_refused()
    }

    open spec fn assembly(&self) -> Seq<char> {
        "rem"@
    }

    fn to_assembly(&self) -> (text: String) {
        "rem".to_owned()
    }

    open spec fn instruction_code() -> InstructionCode {
        InstructionCode::Rem
    }

    open spec fn encoding(&self) -> Seq<u8> {
        encoded(InstructionCode::Rem.byte(), Seq::empty())
    }

    open spec fn decoding_error(bytes: Seq<u8>) -> Option<DecodingError> {
        arguments_error(InstructionCode::Rem.byte(), bytes, 0)
    }

    open spec fn decoded_from(&self, bytes: Seq<u8>, size: nat) -> bool {
        size == 1
    }

    fn code() -> (code: InstructionCode) {
        InstructionCode::Rem
    }

    fn encode(&self) -> (bytes: Vec<u8>) {
        let arguments: Vec<usize> = Vec::new();
        encode_with_args(InstructionCode::Rem.to_byte(), arguments.as_slice())
    }

    fn decode(bytes: &[u8]) -> (res: Result<(Self, usize), DecodingError>) {
        match decode_with_usize_args(InstructionCode::Rem.to_byte(), bytes, 0) {
            Ok((_, size)) => Ok((Rem, size)),
            Err(e) => Err(e),
        }
    }

    proof fn lemma_round_trip(&self, rest: Seq<u8>) {
        lemma_arguments_round_trip(InstructionCode::Rem.byte(), Seq::empty(), rest);
    }

    open spec fn takes(&self) -> usize {
        2
    }

    fn inputs_count(&self) -> (count: usize) {
        2
    }

    open spec fn gives(&self) -> usize {
        1
    }

    fn outputs_count(&self) -> (count: usize) {
        1
    }

    fn wrap(&self) -> (instruction: Instruction)
        ensures
            instruction == Instruction::Rem(*self),
    {
        Instruction::Rem(Rem)
    }
}

impl<P: Primitive, O: PrimitiveOperations<P>> VMInstruction<P, O> for Rem {
    fn execute(&self, vm: &mut VirtualMachine<P, O>) -> (res: Result<(), RuntimeError>) {
        let (left, right) = match operands(vm) {
            Ok(pair) => pair,
            Err(e) => {
                return Err(e);
            },
        };
        let (quotient, remainder) = match vm.get_operator().div_rem(left, right) {
            Ok(pair) => pair,
            Err(e) => {
                return Err(e);
            },
        };
        vm.push(Cell::Value(remainder))
    }
}

/// Gives whether its operand is false.
#[derive(Debug, PartialEq, Default, Clone, Copy)]
pub struct Not;

impl InstructionInfo for Not {
    open spec fn effect(&self, state: VmModel) -> Result<VmModel, Fault> {
        state.negate()
    }

    open spec fn refused(&self, state: VmModel) -> Option<Fault> {
        None
    }

    open spec fn assembly(&self) -> Seq<char> {
        "not"@
    }

    fn to_assembly(&self) -> (text: String) {
        "not".to_owned()
    }

    open spec fn instruction_code() -> InstructionCode {
        InstructionCode::Not
    }

    open spec fn encoding(&self) -> Seq<u8> {
        encoded(InstructionCode::Not.byte(), Seq::empty())
    }

    open spec fn decoding_error(bytes: Seq<u8>) -> Option<DecodingError> {
        arguments_error(InstructionCode::Not.byte(), bytes, 0)
    }

    open spec fn decoded_from(&self, bytes: Seq<u8>, size: nat) -> bool {
        size == 1
    }

    fn code() -> (code: InstructionCode) {
        InstructionCode::Not
    }

    fn encode(&self) -> (bytes: Vec<u8>) {
        let arguments: Vec<usize> = Vec::new();
        encode_with_args(InstructionCode::Not.to_byte(), arguments.as_slice())
    }

    fn decode(bytes: &[u8]) -> (res: Result<(Self, usize), DecodingError>) {
        match decode_with_usize_args(InstructionCode::Not.to_byte(), bytes, 0) {
            Ok((_, size)) => Ok((Not, size)),
            Err(e) => Err(e),
        }
    }

    proof fn lemma_round_trip(&self, rest: Seq<u8>) {
        lemma_arguments_round_trip(InstructionCode::Not.byte(), Seq::empty(), rest);
    }

    open spec fn takes(&self) -> usize {
        1
    }

    fn inputs_count(&self) -> (count: usize) {
        1
    }

    open spec fn gives(&self) -> usize {
        1
    }

    fn outputs_count(&self) -> (count: usize) {
        1
    }

    fn wrap(&self) -> (instruction: Instruction)
        ensures
            instruction == Instruction::Not(*self),
    {
        Instruction::Not(Not)
    }
}

impl<P: Primitive, O: PrimitiveOperations<P>> VMInstruction<P, O> for Not {
    fn execute(&self, vm: &mut VirtualMachine<P, O>) -> (res: Result<(), RuntimeError>) {
        let element = match vm.pop() {
            Ok(cell) => match cell.value() {
                Ok(element) => element,
                Err(e) => {
                    return Err(e);
                },
            },
            Err(e) => {
                return Err(e);
            },
        };
        let result = match vm.get_operator().not(element) {
            Ok(result) => result,
            Err(e) => {
                return Err(e);
            },
        };
        vm.push(Cell::Value(result))
    }
}

} // verus!
