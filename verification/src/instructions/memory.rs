//! The instructions that move cells between the evaluation stack and the
//! data memory.

use crate::instructions::code::arguments_error;
use crate::instructions::code::arguments_of;
use crate::instructions::code::decode_with_usize_args;
use crate::instructions::code::encode_with_args;
use crate::instructions::code::encoded;
use crate::instructions::code::lemma_arguments_round_trip;
use crate::instructions::code::constant_encoded;
use crate::instructions::code::constant_error;
use crate::instructions::code::constant_of;
use crate::instructions::code::constant_size;
use crate::instructions::code::decode_constant;
use crate::instructions::code::encode_constant;
use crate::instructions::code::lemma_constant_round_trip;
use crate::instructions::code::DecodingError;
use crate::instructions::code::InstructionCode;
use crate::instructions::Instruction;
use crate::instructions::InstructionInfo;
use crate::instructions::VMInstruction;
use crate::number::bigint_clone;
use crate::number::bigint_from_usize;
use crate::number::signed_decimal;
use crate::number::bigint_to_string;
use crate::number::bigint_value;
use crate::primitive::values;
use crate::primitive::Primitive;
use crate::primitive::PrimitiveOperations;
use crate::text::append_word;
use crate::text::decimal;
use crate::text::decimal_text;
use crate::vm::cell::slots;
use crate::vm::model::element_index;
use crate::vm::model::element_value;
use crate::vm::model::sequence_read;
use crate::vm::Cell;
use crate::vm::Fault;
use crate::vm::InternalVM;
use crate::vm::RuntimeError;
use crate::vm::Slot;
use crate::vm::VirtualMachine;
use crate::vm::VmModel;
use num_bigint::BigInt;
use vstd::prelude::*;

verus! {

/// Puts a constant on the evaluation stack.
#[derive(Debug)]
pub struct PushConst {
    pub value: BigInt,
}

impl PushConst {
    pub fn new(value: BigInt) -> (instruction: Self)
        ensures
            instruction.value == value,
    {
        PushConst { value }
    }
}

impl InstructionInfo for PushConst {
    open spec fn effect(&self, state: VmModel) -> Result<VmModel, Fault> {
        Ok(state.push(Slot::Value(Some(bigint_value(self.value)))))
    }

    open spec fn refused(&self, state: VmModel) -> Option<Fault> {
        None
    }

    open spec fn assembly(&self) -> Seq<char> {
        "push"@ + seq![' '] + signed_decimal(bigint_value(self.value))
    }

    fn to_assembly(&self) -> (text: String) {
        let mut text = "push".to_owned();
        let value = bigint_to_string(&self.value);
        append_word(&mut text, value.as_str());
        text
    }

    open spec fn instruction_code() -> InstructionCode {
        InstructionCode::PushConst
    }

    open spec fn encoding(&self) -> Seq<u8> {
        constant_encoded(InstructionCode::PushConst.byte(), bigint_value(self.value))
    }

    open spec fn decoding_error(bytes: Seq<u8>) -> Option<DecodingError> {
        constant_error(InstructionCode::PushConst.byte(), bytes)
    }

    open spec fn decoded_from(&self, bytes: Seq<u8>, size: nat) -> bool {
        size == constant_size(bytes) && bigint_value(self.value) == constant_of(bytes)
    }

    fn code() -> (code: InstructionCode) {
        InstructionCode::PushConst
    }

    fn encode(&self) -> (bytes: Vec<u8>) {
        encode_constant(InstructionCode::PushConst.to_byte(), &self.value)
    }

    fn decode(bytes: &[u8]) -> (res: Result<(Self, usize), DecodingError>) {
        match decode_constant(InstructionCode::PushConst.to_byte(), bytes) {
            Ok((value, size)) => Ok((PushConst { value }, size)),
            Err(e) => Err(e),
        }
    }

    proof fn lemma_round_trip(&self, rest: Seq<u8>) {
        lemma_constant_round_trip(
            InstructionCode::PushConst.byte(),
            bigint_value(self.value),
            rest,
        );
    }

    open spec fn takes(&self) -> usize {
        0
    }

    fn inputs_count(&self) -> (count: usize) {
        0
    }

    open spec fn gives(&self) -> usize {
        1
    }

    fn outputs_count(&self) -> (count: usize) {
        1
    }

    fn wrap(&self) -> (instruction: Instruction)
        ensures
            instruction matches Instruction::PushConst(push) && bigint_value(push.value)
                == bigint_value(self.value),
    {
        Instruction::PushConst(PushConst { value: bigint_clone(&self.value) })
    }
}

impl<P: Primitive, O: PrimitiveOperations<P>> VMInstruction<P, O> for PushConst {
    fn execute(&self, vm: &mut VirtualMachine<P, O>) -> (res: Result<(), RuntimeError>) {
        let constant = match vm.get_operator().constant_bigint(&self.value) {
            Ok(constant) => constant,
            Err(e) => {
                return Err(e);
            },
        };
        vm.push(Cell::Value(constant))
    }
}

/// Copies the cell at a local address of the current frame onto the
/// evaluation stack.
#[derive(Debug, PartialEq, Clone, Copy)]
pub struct Load {
    pub index: usize,
}

impl Load {
    pub fn new(index: usize) -> (instruction: Self)
        ensures
            instruction.index == index,
    {
        Load { index }
    }
}

impl InstructionInfo for Load {
    open spec fn effect(&self, state: VmModel) -> Result<VmModel, Fault> {
        match state.load(self.index) {
            Ok(slot) => Ok(state.push(slot)),
            Err(fault) => Err(fault),
        }
    }

    open spec fn refused(&self, state: VmModel) -> Option<Fault> {
        None
    }

    open spec fn assembly(&self) -> Seq<char> {
        "load"@ + seq![' '] + decimal(self.index as nat)
    }

    fn to_assembly(&self) -> (text: String) {
        let mut text = "load".to_owned();
        append_word(&mut text, decimal_text(self.index).as_str());
        text
    }

    open spec fn instruction_code() -> InstructionCode {
        InstructionCode::Load
    }

    open spec fn encoding(&self) -> Seq<u8> {
        encoded(InstructionCode::Load.byte(), seq![self.index])
    }

    open spec fn decoding_error(bytes: Seq<u8>) -> Option<DecodingError> {
        arguments_error(InstructionCode::Load.byte(), bytes, 1)
    }

    open spec fn decoded_from(&self, bytes: Seq<u8>, size: nat) -> bool {
        size == 1 + 8 * 1 && self.index == arguments_of(bytes, 1)[0]
    }

    fn code() -> (code: InstructionCode) {
        InstructionCode::Load
    }

    fn encode(&self) -> (bytes: Vec<u8>) {
        let mut arguments: Vec<usize> = Vec::new();
        arguments.push(self.index);
        assert(arguments@ =~= seq![self.index]);
        encode_with_args(InstructionCode::Load.to_byte(), arguments.as_slice())
    }

    fn decode(bytes: &[u8]) -> (res: Result<(Self, usize), DecodingError>) {
        match decode_with_usize_args(InstructionCode::Load.to_byte(), bytes, 1) {
            Ok((arguments, size)) => Ok((Load { index: arguments[0] }, size)),
            Err(e) => Err(e),
        }
    }

    proof fn lemma_round_trip(&self, rest: Seq<u8>) {
        lemma_arguments_round_trip(InstructionCode::Load.byte(), seq![self.index], rest);
    }

    open spec fn takes(&self) -> usize {
        0
    }

    fn inputs_count(&self) -> (count: usize) {
        0
    }

    open spec fn gives(&self) -> usize {
        1
    }

    fn outputs_count(&self) -> (count: usize) {
        1
    }

    fn wrap(&self) -> (instruction: Instruction)
        ensures
            instruction == Instruction::Load(*self),
    {
        Instruction::Load(Load { index: self.index })
    }
}

impl<P: Primitive, O: PrimitiveOperations<P>> VMInstruction<P, O> for Load {
    fn execute(&self, vm: &mut VirtualMachine<P, O>) -> (res: Result<(), RuntimeError>)
        ensures
            res matches Err(e) ==> self.effect(old(vm)@) == Err::<VmModel, _>(e@),
    {
        let value = match vm.load(self.index) {
            Ok(value) => value,
            Err(e) => {
                return Err(e);
            },
        };
        vm.push(value)
    }
}

/// Moves the top operand to a local address of the current frame.
#[derive(Debug, PartialEq, Clone, Copy)]
pub struct Store {
    pub index: usize,
}

impl Store {
    pub fn new(index: usize) -> (instruction: Self)
        ensures
            instruction.index == index,
    {
        Store { index }
    }
}

impl InstructionInfo for Store {
    open spec fn effect(&self, state: VmModel) -> Result<VmModel, Fault> {
        match state.pop() {
            Ok((popped, slot)) => popped.store(self.index, slot),
            Err(fault) => Err(fault),
        }
    }

    open spec fn refused(&self, state: VmModel) -> Option<Fault> {
        None
    }

    open spec fn assembly(&self) -> Seq<char> {
        "store"@ + seq![' '] + decimal(self.index as nat)
    }

    fn to_assembly(&self) -> (text: String) {
        let mut text = "store".to_owned();
        append_word(&mut text, decimal_text(self.index).as_str());
        text
    }

    open spec fn instruction_code() -> InstructionCode {
        InstructionCode::Store
    }

    open spec fn encoding(&self) -> Seq<u8> {
        encoded(InstructionCode::Store.byte(), seq![self.index])
    }

    open spec fn decoding_error(bytes: Seq<u8>) -> Option<DecodingError> {
        arguments_error(InstructionCode::Store.byte(), bytes, 1)
    }

    open spec fn decoded_from(&self, bytes: Seq<u8>, size: nat) -> bool {
        size == 1 + 8 * 1 && self.index == arguments_of(bytes, 1)[0]
    }

    fn code() -> (code: InstructionCode) {
        InstructionCode::Store
    }

    fn encode(&self) -> (bytes: Vec<u8>) {
        let mut arguments: Vec<usize> = Vec::new();
        arguments.push(self.index);
        assert(arguments@ =~= seq![self.index]);
        encode_with_args(InstructionCode::Store.to_byte(), arguments.as_slice())
    }

    fn decode(bytes: &[u8]) -> (res: Result<(Self, usize), DecodingError>) {
        match decode_with_usize_args(InstructionCode::Store.to_byte(), bytes, 1) {
            Ok((arguments, size)) => Ok((Store { index: arguments[0] }, size)),
            Err(e) => Err(e),
        }
    }

    proof fn lemma_round_trip(&self, rest: Seq<u8>) {
        lemma_arguments_round_trip(InstructionCode::Store.byte(), seq![self.index], rest);
    }

    open spec fn takes(&self) -> usize {
        1
    }

    fn inputs_count(&self) -> (count: usize) {
        1
    }

    open spec fn gives(&self) -> usize {
        0
    }

    fn outputs_count(&self) -> (count: usize) {
        0
    }

    fn wrap(&self) -> (instruction: Instruction)
        ensures
            instruction == Instruction::Store(*self),
    {
        Instruction::Store(Store { index: self.index })
    }
}

impl<P: Primitive, O: PrimitiveOperations<P>> VMInstruction<P, O> for Store {
    fn execute(&self, vm: &mut VirtualMachine<P, O>) -> (res: Result<(), RuntimeError>)
        ensures
            res matches Err(e) ==> self.effect(old(vm)@) == Err::<VmModel, _>(e@),
    {
        let value = match vm.pop() {
            Ok(value) => value,
            Err(e) => {
                return Err(e);
            },
        };
        vm.store(self.index, value)
    }
}

/// Copies a cell of the data memory, whatever frame it belongs to, onto the
/// evaluation stack.
#[derive(Debug, PartialEq, Clone, Copy)]
pub struct LoadGlobal {
    pub address: usize,
}

impl LoadGlobal {
    pub fn new(address: usize) -> (instruction: Self)
        ensures
            instruction.address == address,
    {
        LoadGlobal { address }
    }
}

impl InstructionInfo for LoadGlobal {
    open spec fn effect(&self, state: VmModel) -> Result<VmModel, Fault> {
        match state.load_global(self.address as int) {
            Ok(slot) => Ok(state.push(slot)),
            Err(fault) => Err(fault),
        }
    }

    open spec fn refused(&self, state: VmModel) -> Option<Fault> {
        None
    }

    open spec fn assembly(&self) -> Seq<char> {
        "load_global"@ + seq![' '] + decimal(self.address as nat)
    }

    fn to_assembly(&self) -> (text: String) {
        let mut text = "load_global".to_owned();
        append_word(&mut text, decimal_text(self.address).as_str());
        text
    }

    open spec fn instruction_code() -> InstructionCode {
        InstructionCode::LoadGlobal
    }

    open spec fn encoding(&self) -> Seq<u8> {
        encoded(InstructionCode::LoadGlobal.byte(), seq![self.address])
    }

    open spec fn decoding_error(bytes: Seq<u8>) -> Option<DecodingError> {
        arguments_error(InstructionCode::LoadGlobal.byte(), bytes, 1)
    }

    open spec fn decoded_from(&self, bytes: Seq<u8>, size: nat) -> bool {
        size == 1 + 8 * 1 && self.address == arguments_of(bytes, 1)[0]
    }

    fn code() -> (code: InstructionCode) {
        InstructionCode::LoadGlobal
    }

    fn encode(&self) -> (bytes: Vec<u8>) {
        let mut arguments: Vec<usize> = Vec::new();
        arguments.push(self.address);
        assert(arguments@ =~= seq![self.address]);
        encode_with_args(InstructionCode::LoadGlobal.to_byte(), arguments.as_slice())
    }

    fn decode(bytes: &[u8]) -> (res: Result<(Self, usize), DecodingError>) {
        match decode_with_usize_args(InstructionCode::LoadGlobal.to_byte(), bytes, 1) {
            Ok((arguments, size)) => Ok((LoadGlobal { address: arguments[0] }, size)),
            Err(e) => Err(e),
        }
    }

    proof fn lemma_round_trip(&self, rest: Seq<u8>) {
        lemma_arguments_round_trip(InstructionCode::LoadGlobal.byte(), seq![self.address], rest);
    }

    open spec fn takes(&self) -> usize {
        0
    }

    fn inputs_count(&self) -> (count: usize) {
        0
    }

    open spec fn gives(&self) -> usize {
        1
    }

    fn outputs_count(&self) -> (count: usize) {
        1
    }

    fn wrap(&self) -> (instruction: Instruction)
        ensures
            instruction == Instruction::LoadGlobal(*self),
    {
        Instruction::LoadGlobal(LoadGlobal { address: self.address })
    }
}

impl<P: Primitive, O: PrimitiveOperations<P>> VMInstruction<P, O> for LoadGlobal {
    fn execute(&self, vm: &mut VirtualMachine<P, O>) -> (res: Result<(), RuntimeError>)
        ensures
            res matches Err(e) ==> self.effect(old(vm)@) == Err::<VmModel, _>(e@),
    {
        let value = match vm.load_global(self.address) {
            Ok(value) => value,
            Err(e) => {
                return Err(e);
            },
        };
        vm.push(value)
    }
}

/// Moves the top operand to a cell of the data memory, whatever frame it
/// belongs to.
#[derive(Debug, PartialEq, Clone, Copy)]
pub struct StoreGlobal {
    pub address: usize,
}

impl StoreGlobal {
    pub fn new(address: usize) -> (instruction: Self)
        ensures
            instruction.address == address,
    {
        StoreGlobal { address }
    }
}

impl InstructionInfo for StoreGlobal {
    open spec fn effect(&self, state: VmModel) -> Result<VmModel, Fault> {
        match state.pop() {
            Ok((popped, slot)) => popped.store_global(self.address, slot),
            Err(fault) => Err(fault),
        }
    }

    open spec fn refused(&self, state: VmModel) -> Option<Fault> {
        None
    }

    open spec fn assembly(&self) -> Seq<char> {
        "store_global"@ + seq![' '] + decimal(self.address as nat)
    }

    fn to_assembly(&self) -> (text: String) {
        let mut text = "store_global".to_owned();
        append_word(&mut text, decimal_text(self.address).as_str());
        text
    }

    open spec fn instruction_code() -> InstructionCode {
        InstructionCode::StoreGlobal
    }

    open spec fn encoding(&self) -> Seq<u8> {
        encoded(InstructionCode::StoreGlobal.byte(), seq![self.address])
    }

    open spec fn decoding_error(bytes: Seq<u8>) -> Option<DecodingError> {
        arguments_error(InstructionCode::StoreGlobal.byte(), bytes, 1)
    }

    open spec fn decoded_from(&self, bytes: Seq<u8>, size: nat) -> bool {
        size == 1 + 8 * 1 && self.address == arguments_of(bytes, 1)[0]
    }

    fn code() -> (code: InstructionCode) {
        InstructionCode::StoreGlobal
    }

    fn encode(&self) -> (bytes: Vec<u8>) {
        let mut arguments: Vec<usize> = Vec::new();
        arguments.push(self.address);
        assert(arguments@ =~= seq![self.address]);
        encode_with_args(InstructionCode::StoreGlobal.to_byte(), arguments.as_slice())
    }

    fn decode(bytes: &[u8]) -> (res: Result<(Self, usize), DecodingError>) {
        match decode_with_usize_args(InstructionCode::StoreGlobal.to_byte(), bytes, 1) {
            Ok((arguments, size)) => Ok((StoreGlobal { address: arguments[0] }, size)),
            Err(e) => Err(e),
        }
    }

    proof fn lemma_round_trip(&self, rest: Seq<u8>) {
        lemma_arguments_round_trip(InstructionCode::StoreGlobal.byte(), seq![self.address], rest);
    }

    open spec fn takes(&self) -> usize {
        1
    }

    fn inputs_count(&self) -> (count: usize) {
        1
    }

    open spec fn gives(&self) -> usize {
        0
    }

    fn outputs_count(&self) -> (count: usize) {
        0
    }

    fn wrap(&self) -> (instruction: Instruction)
        ensures
            instruction == Instruction::StoreGlobal(*self),
    {
        Instruction::StoreGlobal(StoreGlobal { address: self.address })
    }
}

impl<P: Primitive, O: PrimitiveOperations<P>> VMInstruction<P, O> for StoreGlobal {
    fn execute(&self, vm: &mut VirtualMachine<P, O>) -> (res: Result<(), RuntimeError>)
        ensures
            res matches Err(e) ==> self.effect(old(vm)@) == Err::<VmModel, _>(e@),
    {
        let value = match vm.pop() {
            Ok(value) => value,
            Err(e) => {
                return Err(e);
            },
        };
        vm.store_global(self.address, value)
    }
}

/// Takes `index` from evaluation stack, loads several values from data stack
/// from `address + index` onto evaluation stack.
#[derive(Debug, PartialEq, Clone, Copy)]
pub struct LoadSequenceByIndex {
    pub address: usize,
    pub array_len: usize,
    pub value_len: usize,
}

impl LoadSequenceByIndex {
    pub fn new(address: usize, array_len: usize, value_len: usize) -> (instruction: Self)
        ensures
            instruction.address == address,
            instruction.array_len == array_len,
            instruction.value_len == value_len,
    {
        Self { address, array_len, value_len }
    }
}

impl InstructionInfo for LoadSequenceByIndex {
    open spec fn effect(&self, state: VmModel) -> Result<VmModel, Fault> {
        state.load_sequence_by_index(self.address, self.array_len, self.value_len)
    }

    open spec fn refused(&self, state: VmModel) -> Option<Fault> {
        state.sequence_refused(self.array_len, self.value_len)
    }

    open spec fn assembly(&self) -> Seq<char> {
        "load_array_by_index"@ + seq![' '] + decimal(self.address as nat) + seq![' '] + decimal(
            self.array_len as nat,
        ) + seq![' '] + decimal(self.value_len as nat)
    }

    fn to_assembly(&self) -> (text: String) {
        let mut text = "load_array_by_index".to_owned();
        append_word(&mut text, decimal_text(self.address).as_str());
        append_word(&mut text, decimal_text(self.array_len).as_str());
        append_word(&mut text, decimal_text(self.value_len).as_str());
        text
    }

    open spec fn instruction_code() -> InstructionCode {
        InstructionCode::LoadSequenceByIndex
    }

    open spec fn encoding(&self) -> Seq<u8> {
        encoded(InstructionCode::LoadSequenceByIndex.byte(), seq![self.address, self.array_len, self.value_len])
    }

    open spec fn decoding_error(bytes: Seq<u8>) -> Option<DecodingError> {
        arguments_error(InstructionCode::LoadSequenceByIndex.byte(), bytes, 3)
    }

    open spec fn decoded_from(&self, bytes: Seq<u8>, size: nat) -> bool {
        size == 1 + 8 * 3 && self.address == arguments_of(bytes, 3)[0] && self.array_len == arguments_of(bytes, 3)[1] && self.value_len == arguments_of(bytes, 3)[2]
    }

    fn code() -> (code: InstructionCode) {
        InstructionCode::LoadSequenceByIndex
    }

    fn encode(&self) -> (bytes: Vec<u8>) {
        let mut arguments: Vec<usize> = Vec::new();
        arguments.push(self.address);
        arguments.push(self.array_len);
        arguments.push(self.value_len);
        assert(arguments@ =~= seq![self.address, self.array_len, self.value_len]);
        encode_with_args(InstructionCode::LoadSequenceByIndex.to_byte(), arguments.as_slice())
    }

    fn decode(bytes: &[u8]) -> (res: Result<(Self, usize), DecodingError>) {
        match decode_with_usize_args(InstructionCode::LoadSequenceByIndex.to_byte(), bytes, 3) {
            Ok((arguments, size)) => Ok((LoadSequenceByIndex { address: arguments[0], array_len: arguments[1], value_len: arguments[2] }, size)),
            Err(e) => Err(e),
        }
    }

    proof fn lemma_round_trip(&self, rest: Seq<u8>) {
        lemma_arguments_round_trip(InstructionCode::LoadSequenceByIndex.byte(), seq![self.address, self.array_len, self.value_len], rest);
    }

    open spec fn takes(&self) -> usize {
        1
    }

    fn inputs_count(&self) -> (count: usize) {
        1
    }

    open spec fn gives(&self) -> usize {
        self.value_len
    }

    fn outputs_count(&self) -> (count: usize) {
        self.value_len
    }

    fn wrap(&self) -> (instruction: Instruction)
        ensures
            instruction == Instruction::LoadSequenceByIndex(*self),
    {
        Instruction::LoadSequenceByIndex(
            LoadSequenceByIndex {
                address: self.address,
                array_len: self.array_len,
                value_len: self.value_len,
            },
        )
    }
}

impl LoadSequenceByIndex {
    /// The values of the array that the instruction reads from.
    fn array<P: Primitive, O: PrimitiveOperations<P>>(&self, vm: &mut VirtualMachine<P, O>) -> (res:
        Result<Vec<P>, RuntimeError>)
        ensures
            *final(vm) == *old(vm),
            match res {
                Ok(array) => {
                    &&& self.array_len > 0 ==> old(vm)@.frames.len() > 0
                    &&& old(vm)@.array_readable(self.address, self.array_len)
                    &&& values(array@) == old(vm)@.array(self.address, self.array_len)
                    &&& array@.len() == self.array_len
                },
                Err(e) => {
                    if self.array_len > 0 && old(vm)@.frames.len() == 0 {
                        e@ == Fault::StackUnderflow
                    } else {
                        &&& !old(vm)@.array_readable(self.address, self.array_len)
                        &&& e@ == Fault::UninitializedStorageAccess
                    }
                },
            },
    {
        let mut array: Vec<P> = Vec::new();
        let mut i: usize = 0;
        while i < self.array_len
            invariant
                i <= self.array_len,
                *vm == *old(vm),
                array.len() == i,
                i > 0 ==> vm@.frames.len() > 0,
                forall|j: int| 0 <= j < i ==> #[trigger] vm@.readable(self.address, j),
                forall|j: int|
                    0 <= j < i ==> Slot::Value(array@[j].value()) == vm@.memory.cells[vm@.absolute(
                        self.address,
                    ) + j],
            decreases self.array_len - i,
        {
            let local = match self.address.checked_add(i) {
                Some(local) => local,
                None => {
                    assert(!vm@.readable(self.address, i as int));
                    return Err(RuntimeError::UninitializedStorageAccess);
                },
            };
            let value = match vm.load(local) {
                Ok(cell) => match cell.value() {
                    Ok(value) => value,
                    Err(e) => {
                        return Err(e);
                    },
                },
                Err(e) => {
                    assert(!vm@.readable(self.address, i as int) || vm@.frames.len() == 0);
                    return Err(e);
                },
            };
            array.push(value);
            i = i + 1;
        }
        assert(values(array@) =~= vm@.array(self.address, self.array_len));
        Ok(array)
    }

    /// Puts values on the evaluation stack, the last of them first, so that
    /// the first ends on top.
    pub fn push_reversed<P: Primitive, O: PrimitiveOperations<P>>(
        vm: &mut VirtualMachine<P, O>,
        values: Vec<P>,
    ) -> (res: Result<(), RuntimeError>)
        ensures
            res is Ok,
            final(vm)@ == old(vm)@.push_all(
                Seq::new(values@.len(), |i: int| Slot::Value(values@[i].value())).reverse(),
            ),
            final(vm).operations() == old(vm).operations(),
    {
        let ghost all = Seq::new(values@.len(), |i: int| Slot::Value(values@[i].value()));
        let ghost level = old(vm)@.evaluation.top();
        let mut values = values;
        assert(old(vm)@.push_all(all.reverse().take(0)) == old(vm)@) by {
            assert(level + all.reverse().take(0) =~= level);
            assert(old(vm)@.evaluation.with_top(level).arms =~= old(vm)@.evaluation.arms);
        }
        while values.len() > 0
            invariant
                values@.len() <= all.len(),
                level == old(vm)@.evaluation.top(),
                forall|i: int| 0 <= i < values@.len() ==> Slot::Value(values@[i].value()) == all[i],
                vm@ == old(vm)@.push_all(all.reverse().take(all.len() - values@.len())),
                vm.operations() == old(vm).operations(),
            decreases values.len(),
        {
            let ghost left = values@.len();
            let value = values.pop().unwrap();
            let _ = vm.push(Cell::Value(value));
            assert(vm@.evaluation.base =~= old(vm)@.push_all(
                all.reverse().take(all.len() - values@.len()),
            ).evaluation.base && vm@.evaluation.arms =~= old(vm)@.push_all(
                all.reverse().take(all.len() - values@.len()),
            ).evaluation.arms) by {
                assert((level + all.reverse().take(all.len() - left)).push(all[left - 1]) =~= level
                    + all.reverse().take(all.len() - left + 1));
            }
        }
        assert(all.reverse().take(all.len() as int) =~= all.reverse());
        Ok(())
    }
}

impl<P: Primitive, O: PrimitiveOperations<P>> VMInstruction<P, O> for LoadSequenceByIndex {
    /// The backend is asked, for each of the `value_len` elements in turn,
    /// for the constant of its number, for the sum of the index and that
    /// constant, and for the element at that sum; a read of no element asks
    /// nothing.
    fn execute(&self, vm: &mut VirtualMachine<P, O>) -> (res: Result<(), RuntimeError>)
        ensures
            self.value_len == 0 && self.effect(old(vm)@) is Ok ==> res is Ok,
    {
        let index = match vm.pop() {
            Ok(cell) => match cell.value() {
                Ok(index) => index,
                Err(e) => {
                    return Err(e);
                },
            },
            Err(e) => {
                return Err(e);
            },
        };
        let ghost popped = vm@;
        let array = match self.array(vm) {
            Ok(array) => array,
            Err(e) => {
                return Err(e);
            },
        };
        let mut values: Vec<P> = Vec::new();
        let mut i: usize = 0;
        while i < self.value_len
            invariant
                i <= self.value_len,
                vm@ == popped,
                values.len() == i,
                array@.len() == self.array_len,
                self.effect(old(vm)@) is Ok,
                old(vm)@.pop_value() matches Ok(taken) && taken.1 == index.value(),
                old(vm).operations().reliable() ==> vm.operations().reliable(),
                index.value() matches Some(first) ==> forall|j: int|
                    0 <= j < i ==> 0 <= #[trigger] element_index(first, j) < self.array_len,
                forall|j: int|
                    0 <= j < i ==> Slot::Value(values@[j].value()) == sequence_read(
                        crate::primitive::values(array@),
                        index.value(),
                        self.value_len as nat,
                    )[j],
            decreases self.value_len - i,
        {
            let offset = match vm.get_operator().constant_bigint(&bigint_from_usize(i)) {
                Ok(offset) => offset,
                Err(e) => {
                    return Err(e);
                },
            };
            let address = match vm.get_operator().add(index.duplicate(), offset) {
                Ok(address) => address,
                Err(e) => {
                    return Err(e);
                },
            };
            assert(index.value() matches Some(first) ==> address.value() == Some(
                element_index(first, i as int),
            ));
            let value = match vm.get_operator().array_get(array.as_slice(), address) {
                Ok(value) => value,
                Err(e) => {
                    return Err(e);
                },
            };
            values.push(value);
            i = i + 1;
        }
        assert(Seq::new(values@.len(), |i: int| Slot::Value(values@[i].value())) =~= sequence_read(
            crate::primitive::values(array@),
            index.value(),
            self.value_len as nat,
        ));
        Self::push_reversed(vm, values)
    }
}

} // verus!
