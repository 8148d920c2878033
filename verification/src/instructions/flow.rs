//! The instructions that steer the run: loops, calls, conditionals and the
//! end of the program.

use crate::instructions::code::arguments_error;
use crate::instructions::code::arguments_of;
use crate::instructions::code::decode_with_usize_args;
use crate::instructions::code::encode_with_args;
use crate::instructions::code::encoded;
use crate::instructions::code::lemma_arguments_round_trip;
use crate::instructions::code::DecodingError;
use crate::instructions::code::InstructionCode;
use crate::instructions::Instruction;
use crate::instructions::InstructionInfo;
use crate::instructions::VMInstruction;
use crate::primitive::Primitive;
use crate::primitive::PrimitiveOperations;
use crate::text::append_word;
use crate::text::decimal;
use crate::text::decimal_text;
use crate::vm::Fault;
use crate::vm::InternalVM;
use crate::vm::RuntimeError;
use crate::vm::VirtualMachine;
use crate::vm::VmModel;
use vstd::prelude::*;

verus! {

/// Begins a loop whose body runs `iterations` times.
#[derive(Debug, PartialEq, Clone, Copy)]
pub struct LoopBegin {
    pub iterations: usize,
}

impl LoopBegin {
    pub fn new(iterations: usize) -> (instruction: Self)
        ensures
            instruction.iterations == iterations,
    {
        LoopBegin { iterations }
    }
}

impl InstructionInfo for LoopBegin {
    open spec fn effect(&self, state: VmModel) -> Result<VmModel, Fault> {
        state.loop_begin(self.iterations)
    }

    open spec fn refused(&self, state: VmModel) -> Option<Fault> {
        None
    }

    open spec fn assembly(&self) -> Seq<char> {
        "loop_begin"@ + seq![' '] + decimal(self.iterations as nat)
    }

    fn to_assembly(&self) -> (text: String) {
        let mut text = "loop_begin".to_owned();
        append_word(&mut text, decimal_text(self.iterations).as_str());
        text
    }

    open spec fn instruction_code() -> InstructionCode {
        InstructionCode::LoopBegin
    }

    open spec fn encoding(&self) -> Seq<u8> {
        encoded(InstructionCode::LoopBegin.byte(), seq![self.iterations])
    }

    open spec fn decoding_error(bytes: Seq<u8>) -> Option<DecodingError> {
        arguments_error(InstructionCode::LoopBegin.byte(), bytes, 1)
    }

    open spec fn decoded_from(&self, bytes: Seq<u8>, size: nat) -> bool {
        size == 1 + 8 * 1 && self.iterations == arguments_of(bytes, 1)[0]
    }

    fn code() -> (code: InstructionCode) {
        InstructionCode::LoopBegin
    }

    fn encode(&self) -> (bytes: Vec<u8>) {
        let mut arguments: Vec<usize> = Vec::new();
        arguments.push(self.iterations);
        assert(arguments@ =~= seq![self.iterations]);
        encode_with_args(InstructionCode::LoopBegin.to_byte(), arguments.as_slice())
    }

    fn decode(bytes: &[u8]) -> (res: Result<(Self, usize), DecodingError>) {
        match decode_with_usize_args(InstructionCode::LoopBegin.to_byte(), bytes, 1) {
            Ok((arguments, size)) => Ok((LoopBegin { iterations: arguments[0] }, size)),
            Err(e) => Err(e),
        }
    }

    proof fn lemma_round_trip(&self, rest: Seq<u8>) {
        lemma_arguments_round_trip(InstructionCode::LoopBegin.byte(), seq![self.iterations], rest);
    }

    open spec fn takes(&self) -> usize {
        0
    }

    fn inputs_count(&self) -> (count: usize) {
        0
    }

    open spec fn gives(&self) -> usize {
        0
    }

    fn outputs_count(&self) -> (count: usize) {
        0
    }

    fn wrap(&self) -> (instruction: Instruction)
        ensures
            instruction == Instruction::LoopBegin(*self),
    {
        Instruction::LoopBegin(LoopBegin { iterations: self.iterations })
    }
}

impl<P: Primitive, O: PrimitiveOperations<P>> VMInstruction<P, O> for LoopBegin {
    fn execute(&self, vm: &mut VirtualMachine<P, O>) -> (res: Result<(), RuntimeError>)
        ensures
            res matches Err(e) ==> self.effect(old(vm)@) == Err::<VmModel, _>(e@),
    {
        vm.loop_begin(self.iterations)
    }
}

/// Ends the body of the innermost loop.
#[derive(Debug, PartialEq, Default, Clone, Copy)]
pub struct LoopEnd;

impl InstructionInfo for LoopEnd {
    open spec fn effect(&self, state: VmModel) -> Result<VmModel, Fault> {
        state.loop_end()
    }

    open spec fn refused(&self, state: VmModel) -> Option<Fault> {
        None
    }

    open spec fn assembly(&self) -> Seq<char> {
        "loop_end"@
    }

    fn to_assembly(&self) -> (text: String) {
        "loop_end".to_owned()
    }

    open spec fn instruction_code() -> InstructionCode {
        InstructionCode::LoopEnd
    }

    open spec fn encoding(&self) -> Seq<u8> {
        encoded(InstructionCode::LoopEnd.byte(), Seq::empty())
    }

    open spec fn decoding_error(bytes: Seq<u8>) -> Option<DecodingError> {
        arguments_error(InstructionCode::LoopEnd.byte(), bytes, 0)
    }

    open spec fn decoded_from(&self, bytes: Seq<u8>, size: nat) -> bool {
        size == 1
    }

    fn code() -> (code: InstructionCode) {
        InstructionCode::LoopEnd
    }

    fn encode(&self) -> (bytes: Vec<u8>) {
        let arguments: Vec<usize> = Vec::new();
        encode_with_args(InstructionCode::LoopEnd.to_byte(), arguments.as_slice())
    }

    fn decode(bytes: &[u8]) -> (res: Result<(Self, usize), DecodingError>) {
        match decode_with_usize_args(InstructionCode::LoopEnd.to_byte(), bytes, 0) {
            Ok((_, size)) => Ok((LoopEnd, size)),
            Err(e) => Err(e),
        }
    }

    proof fn lemma_round_trip(&self, rest: Seq<u8>) {
        lemma_arguments_round_trip(InstructionCode::LoopEnd.byte(), Seq::empty(), rest);
    }

    open spec fn takes(&self) -> usize {
        0
    }

    fn inputs_count(&self) -> (count: usize) {
        0
    }

    open spec fn gives(&self) -> usize {
        0
    }

    fn outputs_count(&self) -> (count: usize) {
        0
    }

    fn wrap(&self) -> (instruction: Instruction)
        ensures
            instruction == Instruction::LoopEnd(*self),
    {
        Instruction::LoopEnd(LoopEnd)
    }
}

impl<P: Primitive, O: PrimitiveOperations<P>> VMInstruction<P, O> for LoopEnd {
    fn execute(&self, vm: &mut VirtualMachine<P, O>) -> (res: Result<(), RuntimeError>)
        ensures
            res matches Err(e) ==> self.effect(old(vm)@) == Err::<VmModel, _>(e@),
    {
        vm.loop_end()
    }
}

/// Calls the function at `address` with the `inputs_count` top operands as
/// its arguments.
#[derive(Debug, PartialEq, Clone, Copy)]
pub struct Call {
    pub address: usize,
    pub inputs_count: usize,
}

impl Call {
    pub fn new(address: usize, inputs_count: usize) -> (instruction: Self)
        ensures
            instruction.address == address,
            instruction.inputs_count == inputs_count,
    {
        Call { address, inputs_count }
    }
}

impl InstructionInfo for Call {
    open spec fn effect(&self, state: VmModel) -> Result<VmModel, Fault> {
        state.call(self.address, self.inputs_count)
    }

    open spec fn refused(&self, state: VmModel) -> Option<Fault> {
        None
    }

    open spec fn assembly(&self) -> Seq<char> {
        "call"@ + seq![' '] + decimal(self.address as nat) + seq![' '] + decimal(
            self.inputs_count as nat,
        )
    }

    fn to_assembly(&self) -> (text: String) {
        let mut text = "call".to_owned();
        append_word(&mut text, decimal_text(self.address).as_str());
        append_word(&mut text, decimal_text(self.inputs_count).as_str());
        text
    }

    open spec fn instruction_code() -> InstructionCode {
        InstructionCode::Call
    }

    open spec fn encoding(&self) -> Seq<u8> {
        encoded(InstructionCode::Call.byte(), seq![self.address, self.inputs_count])
    }

    open spec fn decoding_error(bytes: Seq<u8>) -> Option<DecodingError> {
        arguments_error(InstructionCode::Call.byte(), bytes, 2)
    }

    open spec fn decoded_from(&self, bytes: Seq<u8>, size: nat) -> bool {
        size == 1 + 8 * 2 && self.address == arguments_of(bytes, 2)[0] && self.inputs_count == arguments_of(bytes, 2)[1]
    }

    fn code() -> (code: InstructionCode) {
        InstructionCode::Call
    }

    fn encode(&self) -> (bytes: Vec<u8>) {
        let mut arguments: Vec<usize> = Vec::new();
        arguments.push(self.address);
        arguments.push(self.inputs_count);
        assert(arguments@ =~= seq![self.address, self.inputs_count]);
        encode_with_args(InstructionCode::Call.to_byte(), arguments.as_slice())
    }

    fn decode(bytes: &[u8]) -> (res: Result<(Self, usize), DecodingError>) {
        match decode_with_usize_args(InstructionCode::Call.to_byte(), bytes, 2) {
            Ok((arguments, size)) => Ok((Call { address: arguments[0], inputs_count: arguments[1] }, size)),
            Err(e) => Err(e),
        }
    }

    proof fn lemma_round_trip(&self, rest: Seq<u8>) {
        lemma_arguments_round_trip(InstructionCode::Call.byte(), seq![self.address, self.inputs_count], rest);
    }

    open spec fn takes(&self) -> usize {
        self.inputs_count
    }

    fn inputs_count(&self) -> (count: usize) {
        self.inputs_count
    }

    open spec fn gives(&self) -> usize {
        0
    }

    fn outputs_count(&self) -> (count: usize) {
        0
    }

    fn wrap(&self) -> (instruction: Instruction)
        ensures
            instruction == Instruction::Call(*self),
    {
        Instruction::Call(Call { address: self.address, inputs_count: self.inputs_count })
    }
}

impl<P: Primitive, O: PrimitiveOperations<P>> VMInstruction<P, O> for Call {
    fn execute(&self, vm: &mut VirtualMachine<P, O>) -> (res: Result<(), RuntimeError>)
        ensures
            res matches Err(e) ==> self.effect(old(vm)@) == Err::<VmModel, _>(e@),
    {
        vm.call(self.address, self.inputs_count)
    }
}

/// Returns from the current function with the `outputs_count` top operands
/// as its results.
#[derive(Debug, PartialEq, Clone, Copy)]
pub struct Return {
    pub outputs_count: usize,
}

impl Return {
    pub fn new(outputs_count: usize) -> (instruction: Self)
        ensures
            instruction.outputs_count == outputs_count,
    {
        Return { outputs_count }
    }
}

impl InstructionInfo for Return {
    open spec fn effect(&self, state: VmModel) -> Result<VmModel, Fault> {
        state.ret(self.outputs_count)
    }

    open spec fn refused(&self, state: VmModel) -> Option<Fault> {
        None
    }

    open spec fn assembly(&self) -> Seq<char> {
        "ret"@ + seq![' '] + decimal(self.outputs_count as nat)
    }

    fn to_assembly(&self) -> (text: String) {
        let mut text = "ret".to_owned();
        append_word(&mut text, decimal_text(self.outputs_count).as_str());
        text
    }

    open spec fn instruction_code() -> InstructionCode {
        InstructionCode::Return
    }

    open spec fn encoding(&self) -> Seq<u8> {
        encoded(InstructionCode::Return.byte(), seq![self.outputs_count])
    }

    open spec fn decoding_error(bytes: Seq<u8>) -> Option<DecodingError> {
        arguments_error(InstructionCode::Return.byte(), bytes, 1)
    }

    open spec fn decoded_from(&self, bytes: Seq<u8>, size: nat) -> bool {
        size == 1 + 8 * 1 && self.outputs_count == arguments_of(bytes, 1)[0]
    }

    fn code() -> (code: InstructionCode) {
        InstructionCode::Return
    }

    fn encode(&self) -> (bytes: Vec<u8>) {
        let mut arguments: Vec<usize> = Vec::new();
        arguments.push(self.outputs_count);
        assert(arguments@ =~= seq![self.outputs_count]);
        encode_with_args(InstructionCode::Return.to_byte(), arguments.as_slice())
    }

    fn decode(bytes: &[u8]) -> (res: Result<(Self, usize), DecodingError>) {
        match decode_with_usize_args(InstructionCode::Return.to_byte(), bytes, 1) {
            Ok((arguments, size)) => Ok((Return { outputs_count: arguments[0] }, size)),
            Err(e) => Err(e),
        }
    }

    proof fn lemma_round_trip(&self, rest: Seq<u8>) {
        lemma_arguments_round_trip(InstructionCode::Return.byte(), seq![self.outputs_count], rest);
    }

    open spec fn takes(&self) -> usize {
        self.outputs_count
    }

    fn inputs_count(&self) -> (count: usize) {
        self.outputs_count
    }

    open spec fn gives(&self) -> usize {
        self.outputs_count
    }

    fn outputs_count(&self) -> (count: usize) {
        self.outputs_count
    }

    fn wrap(&self) -> (instruction: Instruction)
        ensures
            instruction == Instruction::Return(*self),
    {
        Instruction::Return(Return { outputs_count: self.outputs_count })
    }
}

impl<P: Primitive, O: PrimitiveOperations<P>> VMInstruction<P, O> for Return {
    fn execute(&self, vm: &mut VirtualMachine<P, O>) -> (res: Result<(), RuntimeError>)
        ensures
            res matches Err(e) ==> self.effect(old(vm)@) == Err::<VmModel, _>(e@),
    {
        vm.ret(self.outputs_count)
    }
}

/// Begins a conditional on the top operand.
#[derive(Debug, PartialEq, Default, Clone, Copy)]
pub struct If;

impl InstructionInfo for If {
    open spec fn effect(&self, state: VmModel) -> Result<VmModel, Fault> {
        state.branch_then()
    }

    open spec fn refused(&self, state: VmModel) -> Option<Fault> {
        None
    }

    open spec fn assembly(&self) -> Seq<char> {
        "if"@
    }

    fn to_assembly(&self) -> (text: String) {
        "if".to_owned()
    }

    open spec fn instruction_code() -> InstructionCode {
        InstructionCode::If
    }

    open spec fn encoding(&self) -> Seq<u8> {
        encoded(InstructionCode::If.byte(), Seq::empty())
    }

    open spec fn decoding_error(bytes: Seq<u8>) -> Option<DecodingError> {
        arguments_error(InstructionCode::If.byte(), bytes, 0)
    }

    open spec fn decoded_from(&self, bytes: Seq<u8>, size: nat) -> bool {
        size == 1
    }

    fn code() -> (code: InstructionCode) {
        InstructionCode::If
    }

    fn encode(&self) -> (bytes: Vec<u8>) {
        let arguments: Vec<usize> = Vec::new();
        encode_with_args(InstructionCode::If.to_byte(), arguments.as_slice())
    }

    fn decode(bytes: &[u8]) -> (res: Result<(Self, usize), DecodingError>) {
        match decode_with_usize_args(InstructionCode::If.to_byte(), bytes, 0) {
            Ok((_, size)) => Ok((If, size)),
            Err(e) => Err(e),
        }
    }

    proof fn lemma_round_trip(&self, rest: Seq<u8>) {
        lemma_arguments_round_trip(InstructionCode::If.byte(), Seq::empty(), rest);
    }

    open spec fn takes(&self) -> usize {
        1
    }

    fn inputs_count(&self) -> (count: usize) {
        1
    }

    open spec fn gives(&self) -> usize {
        0
    }

    fn outputs_count(&self) -> (count: usize) {
        0
    }

    fn wrap(&self) -> (instruction: Instruction)
        ensures
            instruction == Instruction::If(*self),
    {
        Instruction::If(If)
    }
}

impl<P: Primitive, O: PrimitiveOperations<P>> VMInstruction<P, O> for If {
    fn execute(&self, vm: &mut VirtualMachine<P, O>) -> (res: Result<(), RuntimeError>) {
        vm.branch_then()
    }
}

/// Begins the else arm of the innermost conditional.
#[derive(Debug, PartialEq, Default, Clone, Copy)]
pub struct Else;

impl InstructionInfo for Else {
    open spec fn effect(&self, state: VmModel) -> Result<VmModel, Fault> {
        state.branch_else()
    }

    open spec fn refused(&self, state: VmModel) -> Option<Fault> {
        None
    }

    open spec fn assembly(&self) -> Seq<char> {
        "else"@
    }

    fn to_assembly(&self) -> (text: String) {
        "else".to_owned()
    }

    open spec fn instruction_code() -> InstructionCode {
        InstructionCode::Else
    }

    open spec fn encoding(&self) -> Seq<u8> {
        encoded(InstructionCode::Else.byte(), Seq::empty())
    }

    open spec fn decoding_error(bytes: Seq<u8>) -> Option<DecodingError> {
        arguments_error(InstructionCode::Else.byte(), bytes, 0)
    }

    open spec fn decoded_from(&self, bytes: Seq<u8>, size: nat) -> bool {
        size == 1
    }

    fn code() -> (code: InstructionCode) {
        InstructionCode::Else
    }

    fn encode(&self) -> (bytes: Vec<u8>) {
        let arguments: Vec<usize> = Vec::new();
        encode_with_args(InstructionCode::Else.to_byte(), arguments.as_slice())
    }

    fn decode(bytes: &[u8]) -> (res: Result<(Self, usize), DecodingError>) {
        match decode_with_usize_args(InstructionCode::Else.to_byte(), bytes, 0) {
            Ok((_, size)) => Ok((Else, size)),
            Err(e) => Err(e),
        }
    }

    proof fn lemma_round_trip(&self, rest: Seq<u8>) {
        lemma_arguments_round_trip(InstructionCode::Else.byte(), Seq::empty(), rest);
    }

    open spec fn takes(&self) -> usize {
        0
    }

    fn inputs_count(&self) -> (count: usize) {
        0
    }

    open spec fn gives(&self) -> usize {
        0
    }

    fn outputs_count(&self) -> (count: usize) {
        0
    }

    fn wrap(&self) -> (instruction: Instruction)
        ensures
            instruction == Instruction::Else(*self),
    {
        Instruction::Else(Else)
    }
}

impl<P: Primitive, O: PrimitiveOperations<P>> VMInstruction<P, O> for Else {
    fn execute(&self, vm: &mut VirtualMachine<P, O>) -> (res: Result<(), RuntimeError>) {
        vm.branch_else()
    }
}

/// Ends the innermost conditional.
#[derive(Debug, PartialEq, Default, Clone, Copy)]
pub struct EndIf;

impl InstructionInfo for EndIf {
    open spec fn effect(&self, state: VmModel) -> Result<VmModel, Fault> {
        state.branch_end()
    }

    open spec fn refused(&self, state: VmModel) -> Option<Fault> {
        None
    }

    open spec fn assembly(&self) -> Seq<char> {
        "endif"@
    }

    fn to_assembly(&self) -> (text: String) {
        "endif".to_owned()
    }

    open spec fn instruction_code() -> InstructionCode {
        InstructionCode::EndIf
    }

    open spec fn encoding(&self) -> Seq<u8> {
        encoded(InstructionCode::EndIf.byte(), Seq::empty())
    }

    open spec fn decoding_error(bytes: Seq<u8>) -> Option<DecodingError> {
        arguments_error(InstructionCode::EndIf.byte(), bytes, 0)
    }

    open spec fn decoded_from(&self, bytes: Seq<u8>, size: nat) -> bool {
        size == 1
    }

    fn code() -> (code: InstructionCode) {
        InstructionCode::EndIf
    }

    fn encode(&self) -> (bytes: Vec<u8>) {
        let arguments: Vec<usize> = Vec::new();
        encode_with_args(InstructionCode::EndIf.to_byte(), arguments.as_slice())
    }

    fn decode(bytes: &[u8]) -> (res: Result<(Self, usize), DecodingError>) {
        match decode_with_usize_args(InstructionCode::EndIf.to_byte(), bytes, 0) {
            Ok((_, size)) => Ok((EndIf, size)),
            Err(e) => Err(e),
        }
    }

    proof fn lemma_round_trip(&self, rest: Seq<u8>) {
        lemma_arguments_round_trip(InstructionCode::EndIf.byte(), Seq::empty(), rest);
    }

    open spec fn takes(&self) -> usize {
        0
    }

    fn inputs_count(&self) -> (count: usize) {
        0
    }

    open spec fn gives(&self) -> usize {
        0
    }

    fn outputs_count(&self) -> (count: usize) {
        0
    }

    fn wrap(&self) -> (instruction: Instruction)
        ensures
            instruction == Instruction::EndIf(*self),
    {
        Instruction::EndIf(EndIf)
    }
}

impl<P: Primitive, O: PrimitiveOperations<P>> VMInstruction<P, O> for EndIf {
    fn execute(&self, vm: &mut VirtualMachine<P, O>) -> (res: Result<(), RuntimeError>) {
        vm.branch_end()
    }
}

/// Ends the program with the `outputs_count` top operands as its outputs.
#[derive(Debug, PartialEq, Clone, Copy)]
pub struct Exit {
    pub outputs_count: usize,
}

impl Exit {
    pub fn new(outputs_count: usize) -> (instruction: Self)
        ensures
            instruction.outputs_count == outputs_count,
    {
        Exit { outputs_count }
    }
}

impl InstructionInfo for Exit {
    open spec fn effect(&self, state: VmModel) -> Result<VmModel, Fault> {
        state.exit(self.outputs_count)
    }

    open spec fn refused(&self, state: VmModel) -> Option<Fault> {
        None
    }

    open spec fn assembly(&self) -> Seq<char> {
        "exit"@ + seq![' '] + decimal(self.outputs_count as nat)
    }

    fn to_assembly(&self) -> (text: String) {
        let mut text = "exit".to_owned();
        append_word(&mut text, decimal_text(self.outputs_count).as_str());
        text
    }

    open spec fn instruction_code() -> InstructionCode {
        InstructionCode::Exit
    }

    open spec fn encoding(&self) -> Seq<u8> {
        encoded(InstructionCode::Exit.byte(), seq![self.outputs_count])
    }

    open spec fn decoding_error(bytes: Seq<u8>) -> Option<DecodingError> {
        arguments_error(InstructionCode::Exit.byte(), bytes, 1)
    }

    open spec fn decoded_from(&self, bytes: Seq<u8>, size: nat) -> bool {
        size == 1 + 8 * 1 && self.outputs_count == arguments_of(bytes, 1)[0]
    }

    fn code() -> (code: InstructionCode) {
        InstructionCode::Exit
    }

    fn encode(&self) -> (bytes: Vec<u8>) {
        let mut arguments: Vec<usize> = Vec::new();
        arguments.push(self.outputs_count);
        assert(arguments@ =~= seq![self.outputs_count]);
        encode_with_args(InstructionCode::Exit.to_byte(), arguments.as_slice())
    }

    fn decode(bytes: &[u8]) -> (res: Result<(Self, usize), DecodingError>) {
        match decode_with_usize_args(InstructionCode::Exit.to_byte(), bytes, 1) {
            Ok((arguments, size)) => Ok((Exit { outputs_count: arguments[0] }, size)),
            Err(e) => Err(e),
        }
    }

    proof fn lemma_round_trip(&self, rest: Seq<u8>) {
        lemma_arguments_round_trip(InstructionCode::Exit.byte(), seq![self.outputs_count], rest);
    }

    open spec fn takes(&self) -> usize {
        self.outputs_count
    }

    fn inputs_count(&self) -> (count: usize) {
        self.outputs_count
    }

    open spec fn gives(&self) -> usize {
        0
    }

    fn outputs_count(&self) -> (count: usize) {
        0
    }

    fn wrap(&self) -> (instruction: Instruction)
        ensures
            instruction == Instruction::Exit(*self),
    {
        Instruction::Exit(Exit { outputs_count: self.outputs_count })
    }
}

impl<P: Primitive, O: PrimitiveOperations<P>> VMInstruction<P, O> for Exit {
    fn execute(&self, vm: &mut VirtualMachine<P, O>) -> (res: Result<(), RuntimeError>)
        ensures
            res matches Err(e) ==> self.effect(old(vm)@) == Err::<VmModel, _>(e@),
    {
        vm.exit(self.outputs_count)
    }
}

} // verus!
