//! The instructions of the bytecode, and what each does to the machine.

pub mod builtins;
pub mod code;
pub mod flow;
pub mod memory;

pub use builtins::Add;
pub use builtins::Sub;
pub use builtins::Mul;
pub use builtins::And;
pub use builtins::Or;
pub use builtins::Xor;
pub use builtins::Lt;
pub use builtins::Le;
pub use builtins::Gt;
pub use builtins::Ge;
pub use builtins::Ne;
pub use builtins::Not;
pub use builtins::Div;
pub use builtins::Rem;
pub use flow::LoopBegin;
pub use flow::LoopEnd;
pub use flow::Call;
pub use flow::Return;
pub use flow::If;
pub use flow::Else;
pub use flow::EndIf;
pub use flow::Exit;
pub use memory::PushConst;
pub use memory::Load;
pub use memory::Store;
pub use memory::LoadGlobal;
pub use memory::StoreGlobal;
pub use memory::LoadSequenceByIndex;

use crate::instructions::code::lemma_begins_with_code;
use crate::instructions::code::size_at;
use crate::instructions::code::lemma_constant_begins_with_code;
use crate::instructions::code::DecodingError;
use crate::instructions::code::InstructionCode;
use crate::number::bigint_value;
use crate::primitive::Primitive;
use crate::primitive::PrimitiveOperations;
use crate::vm::Fault;
use crate::vm::RuntimeError;
use crate::vm::VirtualMachine;
use crate::vm::VmModel;
use vstd::prelude::*;
use vstd::slice::slice_subrange;

verus! {

/// What every instruction tells about itself.
pub trait InstructionInfo: Sized {
    /// What the instruction does to a state of the machine: the next state,
    /// or the fault that the program has made. Where the instruction asks
    /// the backend, the next state is the one reached when the backend
    /// answers.
    spec fn effect(&self, state: VmModel) -> Result<VmModel, Fault>;

    /// What a reliable backend refuses of the instruction in a state in
    /// which the program has made no fault: nothing, but for a division by a
    /// divisor known to be zero and an index known to lead outside an array.
    spec fn refused(&self, state: VmModel) -> Option<Fault>;

    /// The instruction as a line of assembly.
    spec fn assembly(&self) -> Seq<char>;

    /// The code of the instruction.
    spec fn instruction_code() -> InstructionCode;

    /// The instruction as bytes.
    spec fn encoding(&self) -> Seq<u8>;

    /// Why bytes do not begin with an instruction of this kind, if they do
    /// not.
    spec fn decoding_error(bytes: Seq<u8>) -> Option<DecodingError>;

    /// Whether the first `size` of the bytes are this instruction.
    spec fn decoded_from(&self, bytes: Seq<u8>, size: nat) -> bool;

    fn to_assembly(&self) -> (text: String)
        ensures
            text@ == self.assembly(),
    ;

    fn code() -> (code: InstructionCode)
        ensures
            code == Self::instruction_code(),
    ;

    /// Writes the instruction as bytes.
    fn encode(&self) -> (bytes: Vec<u8>)
        ensures
            bytes@ == self.encoding(),
    ;

    /// Reads an instruction of this kind from the beginning of `bytes`, and
    /// says how many bytes it takes.
    fn decode(bytes: &[u8]) -> (res: Result<(Self, usize), DecodingError>)
        ensures
            match res {
                Ok((instruction, size)) => {
                    &&& Self::decoding_error(bytes@) is None
                    &&& instruction.decoded_from(bytes@, size as nat)
                    &&& 0 < size <= bytes@.len()
                },
                Err(e) => Self::decoding_error(bytes@) == Some(e),
            },
    ;

    /// Decoding inverts encoding: the bytes that an instruction is written
    /// as are read as that instruction again, whatever follows them. (No
    /// instruction takes more bytes than a machine can hold.)
    proof fn lemma_round_trip(&self, rest: Seq<u8>)
        requires
            self.encoding().len() <= usize::MAX,
        ensures
            Self::decoding_error(self.encoding() + rest) is None,
            self.decoded_from(self.encoding() + rest, self.encoding().len()),
            self.encoding().len() > 0,
    ;

    /// How many operands the instruction takes from the evaluation stack.
    spec fn takes(&self) -> usize;

    /// How many operands the instruction puts on the evaluation stack.
    spec fn gives(&self) -> usize;

    /// How many operands the instruction takes from the evaluation stack.
    fn inputs_count(&self) -> (count: usize)
        ensures
            count == self.takes(),
    ;

    /// How many operands the instruction puts on the evaluation stack.
    fn outputs_count(&self) -> (count: usize)
        ensures
            count == self.gives(),
    ;

    /// The instruction as a member of the instruction set.
    fn wrap(&self) -> Instruction;
}

/// What an instruction comes to on a reliable backend: the state that
/// `effect` gives, its fault of the program, or what the backend refuses.
pub open spec fn outcome<I: InstructionInfo>(instruction: &I, state: VmModel) -> Result<
    VmModel,
    Fault,
> {
    match instruction.effect(state) {
        Err(fault) => Err(fault),
        Ok(next) => match instruction.refused(state) {
            Some(fault) => Err(fault),
            None => Ok(next),
        },
    }
}

/// What every instruction does on a machine.
pub trait VMInstruction<P: Primitive, O: PrimitiveOperations<P>>: InstructionInfo {
    /// Runs the instruction. A fault of the program is reported as such,
    /// before the backend is asked for anything; past that the instruction
    /// fails only where the backend does. Where it succeeds, the machine is
    /// in the state that `effect` gives. On a reliable backend the
    /// instruction comes to its `outcome`: it succeeds exactly where the
    /// program makes no fault and the backend refuses nothing, and reports
    /// the fault or the refusal otherwise.
    fn execute(&self, vm: &mut VirtualMachine<P, O>) -> (res: Result<(), RuntimeError>)
        ensures
            self.effect(old(vm)@) matches Err(fault) ==> (res matches Err(e) && e@ == fault),
            res is Ok ==> self.effect(old(vm)@) == Ok::<_, Fault>(final(vm)@),
            res is Ok ==> self.refused(old(vm)@) is None,
            old(vm).operations().reliable() ==> final(vm).operations().reliable(),
            old(vm).operations().reliable() ==> match outcome(self, old(vm)@) {
                Ok(_) => res is Ok,
                Err(fault) => res matches Err(e) && e@ == fault,
            },
    ;
}

/// The instruction set.
#[derive(Debug)]
pub enum Instruction {
    PushConst(PushConst),
    Load(Load),
    Store(Store),
    LoadGlobal(LoadGlobal),
    StoreGlobal(StoreGlobal),
    LoadSequenceByIndex(LoadSequenceByIndex),
    Add(Add),
    Sub(Sub),
    Mul(Mul),
    And(And),
    Or(Or),
    Xor(Xor),
    Lt(Lt),
    Le(Le),
    Gt(Gt),
    Ge(Ge),
    Eq(builtins::Eq),
    Ne(Ne),
    Not(Not),
    LoopBegin(LoopBegin),
    LoopEnd(LoopEnd),
    Call(Call),
    Return(Return),
    If(If),
    Else(Else),
    EndIf(EndIf),
    Exit(Exit),
    Div(Div),
    Rem(Rem),
}

impl Instruction {
    /// What the instruction does to a state of the machine.
    pub open spec fn effect(&self, state: VmModel) -> Result<VmModel, Fault> {
        match self {
            Instruction::PushConst(instruction) => instruction.effect(state),
            Instruction::Load(instruction) => instruction.effect(state),
            Instruction::Store(instruction) => instruction.effect(state),
            Instruction::LoadGlobal(instruction) => instruction.effect(state),
            Instruction::StoreGlobal(instruction) => instruction.effect(state),
            Instruction::LoadSequenceByIndex(instruction) => instruction.effect(state),
            Instruction::Add(instruction) => instruction.effect(state),
            Instruction::Sub(instruction) => instruction.effect(state),
            Instruction::Mul(instruction) => instruction.effect(state),
            Instruction::And(instruction) => instruction.effect(state),
            Instruction::Or(instruction) => instruction.effect(state),
            Instruction::Xor(instruction) => instruction.effect(state),
            Instruction::Lt(instruction) => instruction.effect(state),
            Instruction::Le(instruction) => instruction.effect(state),
            Instruction::Gt(instruction) => instruction.effect(state),
            Instruction::Ge(instruction) => instruction.effect(state),
            Instruction::Eq(instruction) => instruction.effect(state),
            Instruction::Ne(instruction) => instruction.effect(state),
            Instruction::Not(instruction) => instruction.effect(state),
            Instruction::LoopBegin(instruction) => instruction.effect(state),
            Instruction::LoopEnd(instruction) => instruction.effect(state),
            Instruction::Call(instruction) => instruction.effect(state),
            Instruction::Return(instruction) => instruction.effect(state),
            Instruction::If(instruction) => instruction.effect(state),
            Instruction::Else(instruction) => instruction.effect(state),
            Instruction::EndIf(instruction) => instruction.effect(state),
            Instruction::Exit(instruction) => instruction.effect(state),
            Instruction::Div(instruction) => instruction.effect(state),
            Instruction::Rem(instruction) => instruction.effect(state),
        }
    }

    /// What a reliable backend refuses of the instruction.
    pub open spec fn refused(&self, state: VmModel) -> Option<Fault> {
        match self {
            Instruction::PushConst(instruction) => instruction.refused(state),
            Instruction::Load(instruction) => instruction.refused(state),
            Instruction::Store(instruction) => instruction.refused(state),
            Instruction::LoadGlobal(instruction) => instruction.refused(state),
            Instruction::StoreGlobal(instruction) => instruction.refused(state),
            Instruction::LoadSequenceByIndex(instruction) => instruction.refused(state),
            Instruction::Add(instruction) => instruction.refused(state),
            Instruction::Sub(instruction) => instruction.refused(state),
            Instruction::Mul(instruction) => instruction.refused(state),
            Instruction::And(instruction) => instruction.refused(state),
            Instruction::Or(instruction) => instruction.refused(state),
            Instruction::Xor(instruction) => instruction.refused(state),
            Instruction::Lt(instruction) => instruction.refused(state),
            Instruction::Le(instruction) => instruction.refused(state),
            Instruction::Gt(instruction) => instruction.refused(state),
            Instruction::Ge(instruction) => instruction.refused(state),
            Instruction::Eq(instruction) => instruction.refused(state),
            Instruction::Ne(instruction) => instruction.refused(state),
            Instruction::Not(instruction) => instruction.refused(state),
            Instruction::LoopBegin(instruction) => instruction.refused(state),
            Instruction::LoopEnd(instruction) => instruction.refused(state),
            Instruction::Call(instruction) => instruction.refused(state),
            Instruction::Return(instruction) => instruction.refused(state),
            Instruction::If(instruction) => instruction.refused(state),
            Instruction::Else(instruction) => instruction.refused(state),
            Instruction::EndIf(instruction) => instruction.refused(state),
            Instruction::Exit(instruction) => instruction.refused(state),
            Instruction::Div(instruction) => instruction.refused(state),
            Instruction::Rem(instruction) => instruction.refused(state),
        }
    }

    /// What the instruction comes to on a reliable backend: the state that
    /// `effect` gives, its fault of the program, or what the backend
    /// refuses.
    pub open spec fn outcome(&self, state: VmModel) -> Result<VmModel, Fault> {
        match self.effect(state) {
            Err(fault) => Err(fault),
            Ok(next) => match self.refused(state) {
                Some(fault) => Err(fault),
                None => Ok(next),
            },
        }
    }

    /// Whether the instruction needs nothing from the backend, so that it
    /// fails only by a fault of the program.
    pub open spec fn is_structural(&self) -> bool {
        match self {
            Instruction::PushConst(_) => false,
            Instruction::Load(_) => true,
            Instruction::Store(_) => true,
            Instruction::LoadGlobal(_) => true,
            Instruction::StoreGlobal(_) => true,
            Instruction::LoadSequenceByIndex(_) => false,
            Instruction::Add(_) => false,
            Instruction::Sub(_) => false,
            Instruction::Mul(_) => false,
            Instruction::And(_) => false,
            Instruction::Or(_) => false,
            Instruction::Xor(_) => false,
            Instruction::Lt(_) => false,
            Instruction::Le(_) => false,
            Instruction::Gt(_) => false,
            Instruction::Ge(_) => false,
            Instruction::Eq(_) => false,
            Instruction::Ne(_) => false,
            Instruction::Not(_) => false,
            Instruction::LoopBegin(_) => true,
            Instruction::LoopEnd(_) => true,
            Instruction::Call(_) => true,
            Instruction::Return(_) => true,
            Instruction::If(_) => false,
            Instruction::Else(_) => false,
            Instruction::EndIf(_) => false,
            Instruction::Exit(_) => true,
            Instruction::Div(_) => false,
            Instruction::Rem(_) => false,
        }
    }

    /// The instruction as a line of assembly.
    pub open spec fn assembly(&self) -> Seq<char> {
        match self {
            Instruction::PushConst(instruction) => instruction.assembly(),
            Instruction::Load(instruction) => instruction.assembly(),
            Instruction::Store(instruction) => instruction.assembly(),
            Instruction::LoadGlobal(instruction) => instruction.assembly(),
            Instruction::StoreGlobal(instruction) => instruction.assembly(),
            Instruction::LoadSequenceByIndex(instruction) => instruction.assembly(),
            Instruction::Add(instruction) => instruction.assembly(),
            Instruction::Sub(instruction) => instruction.assembly(),
            Instruction::Mul(instruction) => instruction.assembly(),
            Instruction::And(instruction) => instruction.assembly(),
            Instruction::Or(instruction) => instruction.assembly(),
            Instruction::Xor(instruction) => instruction.assembly(),
            Instruction::Lt(instruction) => instruction.assembly(),
            Instruction::Le(instruction) => instruction.assembly(),
            Instruction::Gt(instruction) => instruction.assembly(),
            Instruction::Ge(instruction) => instruction.assembly(),
            Instruction::Eq(instruction) => instruction.assembly(),
            Instruction::Ne(instruction) => instruction.assembly(),
            Instruction::Not(instruction) => instruction.assembly(),
            Instruction::LoopBegin(instruction) => instruction.assembly(),
            Instruction::LoopEnd(instruction) => instruction.assembly(),
            Instruction::Call(instruction) => instruction.assembly(),
            Instruction::Return(instruction) => instruction.assembly(),
            Instruction::If(instruction) => instruction.assembly(),
            Instruction::Else(instruction) => instruction.assembly(),
            Instruction::EndIf(instruction) => instruction.assembly(),
            Instruction::Exit(instruction) => instruction.assembly(),
            Instruction::Div(instruction) => instruction.assembly(),
            Instruction::Rem(instruction) => instruction.assembly(),
        }
    }

    /// The code of the instruction.
    pub open spec fn instruction_code(&self) -> InstructionCode {
        match self {
            Instruction::PushConst(_) => InstructionCode::PushConst,
            Instruction::Load(_) => InstructionCode::Load,
            Instruction::Store(_) => InstructionCode::Store,
            Instruction::LoadGlobal(_) => InstructionCode::LoadGlobal,
            Instruction::StoreGlobal(_) => InstructionCode::StoreGlobal,
            Instruction::LoadSequenceByIndex(_) => InstructionCode::LoadSequenceByIndex,
            Instruction::Add(_) => InstructionCode::Add,
            Instruction::Sub(_) => InstructionCode::Sub,
            Instruction::Mul(_) => InstructionCode::Mul,
            Instruction::And(_) => InstructionCode::And,
            Instruction::Or(_) => InstructionCode::Or,
            Instruction::Xor(_) => InstructionCode::Xor,
            Instruction::Lt(_) => InstructionCode::Lt,
            Instruction::Le(_) => InstructionCode::Le,
            Instruction::Gt(_) => InstructionCode::Gt,
            Instruction::Ge(_) => InstructionCode::Ge,
            Instruction::Eq(_) => InstructionCode::Eq,
            Instruction::Ne(_) => InstructionCode::Ne,
            Instruction::Not(_) => InstructionCode::Not,
            Instruction::LoopBegin(_) => InstructionCode::LoopBegin,
            Instruction::LoopEnd(_) => InstructionCode::LoopEnd,
            Instruction::Call(_) => InstructionCode::Call,
            Instruction::Return(_) => InstructionCode::Return,
            Instruction::If(_) => InstructionCode::If,
            Instruction::Else(_) => InstructionCode::Else,
            Instruction::EndIf(_) => InstructionCode::EndIf,
            Instruction::Exit(_) => InstructionCode::Exit,
            Instruction::Div(_) => InstructionCode::Div,
            Instruction::Rem(_) => InstructionCode::Rem,
        }
    }

    /// The instruction as bytes.
    pub open spec fn encoding(&self) -> Seq<u8> {
        match self {
            Instruction::PushConst(instruction) => instruction.encoding(),
            Instruction::Load(instruction) => instruction.encoding(),
            Instruction::Store(instruction) => instruction.encoding(),
            Instruction::LoadGlobal(instruction) => instruction.encoding(),
            Instruction::StoreGlobal(instruction) => instruction.encoding(),
            Instruction::LoadSequenceByIndex(instruction) => instruction.encoding(),
            Instruction::Add(instruction) => instruction.encoding(),
            Instruction::Sub(instruction) => instruction.encoding(),
            Instruction::Mul(instruction) => instruction.encoding(),
            Instruction::And(instruction) => instruction.encoding(),
            Instruction::Or(instruction) => instruction.encoding(),
            Instruction::Xor(instruction) => instruction.encoding(),
            Instruction::Lt(instruction) => instruction.encoding(),
            Instruction::Le(instruction) => instruction.encoding(),
            Instruction::Gt(instruction) => instruction.encoding(),
            Instruction::Ge(instruction) => instruction.encoding(),
            Instruction::Eq(instruction) => instruction.encoding(),
            Instruction::Ne(instruction) => instruction.encoding(),
            Instruction::Not(instruction) => instruction.encoding(),
            Instruction::LoopBegin(instruction) => instruction.encoding(),
            Instruction::LoopEnd(instruction) => instruction.encoding(),
            Instruction::Call(instruction) => instruction.encoding(),
            Instruction::Return(instruction) => instruction.encoding(),
            Instruction::If(instruction) => instruction.encoding(),
            Instruction::Else(instruction) => instruction.encoding(),
            Instruction::EndIf(instruction) => instruction.encoding(),
            Instruction::Exit(instruction) => instruction.encoding(),
            Instruction::Div(instruction) => instruction.encoding(),
            Instruction::Rem(instruction) => instruction.encoding(),
        }
    }

    /// Why bytes do not begin with an instruction, if they do not.
    pub open spec fn decoding_error(bytes: Seq<u8>) -> Option<DecodingError> {
        if bytes.len() == 0 {
            Some(DecodingError::UnexpectedEOF)
        } else {
            match InstructionCode::of(bytes[0]) {
                None => Some(DecodingError::UnknownInstructionCode(bytes[0])),
                Some(InstructionCode::PushConst) => PushConst::decoding_error(bytes),
                Some(InstructionCode::Load) => Load::decoding_error(bytes),
                Some(InstructionCode::Store) => Store::decoding_error(bytes),
                Some(InstructionCode::LoadGlobal) => LoadGlobal::decoding_error(bytes),
                Some(InstructionCode::StoreGlobal) => StoreGlobal::decoding_error(bytes),
                Some(InstructionCode::LoadSequenceByIndex) => LoadSequenceByIndex::decoding_error(bytes),
                Some(InstructionCode::Add) => Add::decoding_error(bytes),
                Some(InstructionCode::Sub) => Sub::decoding_error(bytes),
                Some(InstructionCode::Mul) => Mul::decoding_error(bytes),
                Some(InstructionCode::And) => And::decoding_error(bytes),
                Some(InstructionCode::Or) => Or::decoding_error(bytes),
                Some(InstructionCode::Xor) => Xor::decoding_error(bytes),
                Some(InstructionCode::Lt) => Lt::decoding_error(bytes),
                Some(InstructionCode::Le) => Le::decoding_error(bytes),
                Some(InstructionCode::Gt) => Gt::decoding_error(bytes),
                Some(InstructionCode::Ge) => Ge::decoding_error(bytes),
                Some(InstructionCode::Eq) => builtins::Eq::decoding_error(bytes),
                Some(InstructionCode::Ne) => Ne::decoding_error(bytes),
                Some(InstructionCode::Not) => Not::decoding_error(bytes),
                Some(InstructionCode::LoopBegin) => LoopBegin::decoding_error(bytes),
                Some(InstructionCode::LoopEnd) => LoopEnd::decoding_error(bytes),
                Some(InstructionCode::Call) => Call::decoding_error(bytes),
                Some(InstructionCode::Return) => Return::decoding_error(bytes),
                Some(InstructionCode::If) => If::decoding_error(bytes),
                Some(InstructionCode::Else) => Else::decoding_error(bytes),
                Some(InstructionCode::EndIf) => EndIf::decoding_error(bytes),
                Some(InstructionCode::Exit) => Exit::decoding_error(bytes),
                Some(InstructionCode::Div) => Div::decoding_error(bytes),
                Some(InstructionCode::Rem) => Rem::decoding_error(bytes),
            }
        }
    }

    /// Whether the first `size` of the bytes are this instruction.
    pub open spec fn decoded_from(&self, bytes: Seq<u8>, size: nat) -> bool {
        bytes.len() > 0 && InstructionCode::of(bytes[0]) == Some(self.instruction_code())
            && match self {
            Instruction::PushConst(instruction) => instruction.decoded_from(bytes, size),
            Instruction::Load(instruction) => instruction.decoded_from(bytes, size),
            Instruction::Store(instruction) => instruction.decoded_from(bytes, size),
            Instruction::LoadGlobal(instruction) => instruction.decoded_from(bytes, size),
            Instruction::StoreGlobal(instruction) => instruction.decoded_from(bytes, size),
            Instruction::LoadSequenceByIndex(instruction) => instruction.decoded_from(bytes, size),
            Instruction::Add(instruction) => instruction.decoded_from(bytes, size),
            Instruction::Sub(instruction) => instruction.decoded_from(bytes, size),
            Instruction::Mul(instruction) => instruction.decoded_from(bytes, size),
            Instruction::And(instruction) => instruction.decoded_from(bytes, size),
            Instruction::Or(instruction) => instruction.decoded_from(bytes, size),
            Instruction::Xor(instruction) => instruction.decoded_from(bytes, size),
            Instruction::Lt(instruction) => instruction.decoded_from(bytes, size),
            Instruction::Le(instruction) => instruction.decoded_from(bytes, size),
            Instruction::Gt(instruction) => instruction.decoded_from(bytes, size),
            Instruction::Ge(instruction) => instruction.decoded_from(bytes, size),
            Instruction::Eq(instruction) => instruction.decoded_from(bytes, size),
            Instruction::Ne(instruction) => instruction.decoded_from(bytes, size),
            Instruction::Not(instruction) => instruction.decoded_from(bytes, size),
            Instruction::LoopBegin(instruction) => instruction.decoded_from(bytes, size),
            Instruction::LoopEnd(instruction) => instruction.decoded_from(bytes, size),
            Instruction::Call(instruction) => instruction.decoded_from(bytes, size),
            Instruction::Return(instruction) => instruction.decoded_from(bytes, size),
            Instruction::If(instruction) => instruction.decoded_from(bytes, size),
            Instruction::Else(instruction) => instruction.decoded_from(bytes, size),
            Instruction::EndIf(instruction) => instruction.decoded_from(bytes, size),
            Instruction::Exit(instruction) => instruction.decoded_from(bytes, size),
            Instruction::Div(instruction) => instruction.decoded_from(bytes, size),
            Instruction::Rem(instruction) => instruction.decoded_from(bytes, size),
        }
    }

    /// Writes the instruction as a line of assembly.
    pub fn to_assembly(&self) -> (text: String)
        ensures
            text@ == self.assembly(),
    {
        match self {
            Instruction::PushConst(instruction) => instruction.to_assembly(),
            Instruction::Load(instruction) => instruction.to_assembly(),
            Instruction::Store(instruction) => instruction.to_assembly(),
            Instruction::LoadGlobal(instruction) => instruction.to_assembly(),
            Instruction::StoreGlobal(instruction) => instruction.to_assembly(),
            Instruction::LoadSequenceByIndex(instruction) => instruction.to_assembly(),
            Instruction::Add(instruction) => instruction.to_assembly(),
            Instruction::Sub(instruction) => instruction.to_assembly(),
            Instruction::Mul(instruction) => instruction.to_assembly(),
            Instruction::And(instruction) => instruction.to_assembly(),
            Instruction::Or(instruction) => instruction.to_assembly(),
            Instruction::Xor(instruction) => instruction.to_assembly(),
            Instruction::Lt(instruction) => instruction.to_assembly(),
            Instruction::Le(instruction) => instruction.to_assembly(),
            Instruction::Gt(instruction) => instruction.to_assembly(),
            Instruction::Ge(instruction) => instruction.to_assembly(),
            Instruction::Eq(instruction) => instruction.to_assembly(),
            Instruction::Ne(instruction) => instruction.to_assembly(),
            Instruction::Not(instruction) => instruction.to_assembly(),
            Instruction::LoopBegin(instruction) => instruction.to_assembly(),
            Instruction::LoopEnd(instruction) => instruction.to_assembly(),
            Instruction::Call(instruction) => instruction.to_assembly(),
            Instruction::Return(instruction) => instruction.to_assembly(),
            Instruction::If(instruction) => instruction.to_assembly(),
            Instruction::Else(instruction) => instruction.to_assembly(),
            Instruction::EndIf(instruction) => instruction.to_assembly(),
            Instruction::Exit(instruction) => instruction.to_assembly(),
            Instruction::Div(instruction) => instruction.to_assembly(),
            Instruction::Rem(instruction) => instruction.to_assembly(),
        }
    }

    pub fn code(&self) -> (code: InstructionCode)
        ensures
            code == self.instruction_code(),
    {
        match self {
            Instruction::PushConst(_) => InstructionCode::PushConst,
            Instruction::Load(_) => InstructionCode::Load,
            Instruction::Store(_) => InstructionCode::Store,
            Instruction::LoadGlobal(_) => InstructionCode::LoadGlobal,
            Instruction::StoreGlobal(_) => InstructionCode::StoreGlobal,
            Instruction::LoadSequenceByIndex(_) => InstructionCode::LoadSequenceByIndex,
            Instruction::Add(_) => InstructionCode::Add,
            Instruction::Sub(_) => InstructionCode::Sub,
            Instruction::Mul(_) => InstructionCode::Mul,
            Instruction::And(_) => InstructionCode::And,
            Instruction::Or(_) => InstructionCode::Or,
            Instruction::Xor(_) => InstructionCode::Xor,
            Instruction::Lt(_) => InstructionCode::Lt,
            Instruction::Le(_) => InstructionCode::Le,
            Instruction::Gt(_) => InstructionCode::Gt,
            Instruction::Ge(_) => InstructionCode::Ge,
            Instruction::Eq(_) => InstructionCode::Eq,
            Instruction::Ne(_) => InstructionCode::Ne,
            Instruction::Not(_) => InstructionCode::Not,
            Instruction::LoopBegin(_) => InstructionCode::LoopBegin,
            Instruction::LoopEnd(_) => InstructionCode::LoopEnd,
            Instruction::Call(_) => InstructionCode::Call,
            Instruction::Return(_) => InstructionCode::Return,
            Instruction::If(_) => InstructionCode::If,
            Instruction::Else(_) => InstructionCode::Else,
            Instruction::EndIf(_) => InstructionCode::EndIf,
            Instruction::Exit(_) => InstructionCode::Exit,
            Instruction::Div(_) => InstructionCode::Div,
            Instruction::Rem(_) => InstructionCode::Rem,
        }
    }

    /// Writes the instruction as bytes.
    pub fn encode(&self) -> (bytes: Vec<u8>)
        ensures
            bytes@ == self.encoding(),
    {
        match self {
            Instruction::PushConst(instruction) => instruction.encode(),
            Instruction::Load(instruction) => instruction.encode(),
            Instruction::Store(instruction) => instruction.encode(),
            Instruction::LoadGlobal(instruction) => instruction.encode(),
            Instruction::StoreGlobal(instruction) => instruction.encode(),
            Instruction::LoadSequenceByIndex(instruction) => instruction.encode(),
            Instruction::Add(instruction) => instruction.encode(),
            Instruction::Sub(instruction) => instruction.encode(),
            Instruction::Mul(instruction) => instruction.encode(),
            Instruction::And(instruction) => instruction.encode(),
            Instruction::Or(instruction) => instruction.encode(),
            Instruction::Xor(instruction) => instruction.encode(),
            Instruction::Lt(instruction) => instruction.encode(),
            Instruction::Le(instruction) => instruction.encode(),
            Instruction::Gt(instruction) => instruction.encode(),
            Instruction::Ge(instruction) => instruction.encode(),
            Instruction::Eq(instruction) => instruction.encode(),
            Instruction::Ne(instruction) => instruction.encode(),
            Instruction::Not(instruction) => instruction.encode(),
            Instruction::LoopBegin(instruction) => instruction.encode(),
            Instruction::LoopEnd(instruction) => instruction.encode(),
            Instruction::Call(instruction) => instruction.encode(),
            Instruction::Return(instruction) => instruction.encode(),
            Instruction::If(instruction) => instruction.encode(),
            Instruction::Else(instruction) => instruction.encode(),
            Instruction::EndIf(instruction) => instruction.encode(),
            Instruction::Exit(instruction) => instruction.encode(),
            Instruction::Div(instruction) => instruction.encode(),
            Instruction::Rem(instruction) => instruction.encode(),
        }
    }

    /// Reads an instruction from the beginning of `bytes`, and says how many
    /// bytes it takes.
    pub fn decode(bytes: &[u8]) -> (res: Result<(Self, usize), DecodingError>)
        ensures
            match res {
                Ok((instruction, size)) => {
                    &&& Self::decoding_error(bytes@) is None
                    &&& instruction.decoded_from(bytes@, size as nat)
                    &&& 0 < size <= bytes@.len()
                },
                Err(e) => Self::decoding_error(bytes@) == Some(e),
            },
    {
        if bytes.len() == 0 {
            return Err(DecodingError::UnexpectedEOF);
        }
        match InstructionCode::from_byte(bytes[0]) {
            None => Err(DecodingError::UnknownInstructionCode(bytes[0])),
            Some(InstructionCode::PushConst) => match PushConst::decode(bytes) {
                Ok((instruction, size)) => Ok((Instruction::PushConst(instruction), size)),
                Err(e) => Err(e),
            },
            Some(InstructionCode::Load) => match Load::decode(bytes) {
                Ok((instruction, size)) => Ok((Instruction::Load(instruction), size)),
                Err(e) => Err(e),
            },
            Some(InstructionCode::Store) => match Store::decode(bytes) {
                Ok((instruction, size)) => Ok((Instruction::Store(instruction), size)),
                Err(e) => Err(e),
            },
            Some(InstructionCode::LoadGlobal) => match LoadGlobal::decode(bytes) {
                Ok((instruction, size)) => Ok((Instruction::LoadGlobal(instruction), size)),
                Err(e) => Err(e),
            },
            Some(InstructionCode::StoreGlobal) => match StoreGlobal::decode(bytes) {
                Ok((instruction, size)) => Ok((Instruction::StoreGlobal(instruction), size)),
                Err(e) => Err(e),
            },
            Some(InstructionCode::LoadSequenceByIndex) => match LoadSequenceByIndex::decode(bytes) {
                Ok((instruction, size)) => Ok((Instruction::LoadSequenceByIndex(instruction), size)),
                Err(e) => Err(e),
            },
            Some(InstructionCode::Add) => match Add::decode(bytes) {
                Ok((instruction, size)) => Ok((Instruction::Add(instruction), size)),
                Err(e) => Err(e),
            },
            Some(InstructionCode::Sub) => match Sub::decode(bytes) {
                Ok((instruction, size)) => Ok((Instruction::Sub(instruction), size)),
                Err(e) => Err(e),
            },
            Some(InstructionCode::Mul) => match Mul::decode(bytes) {
                Ok((instruction, size)) => Ok((Instruction::Mul(instruction), size)),
                Err(e) => Err(e),
            },
            Some(InstructionCode::And) => match And::decode(bytes) {
                Ok((instruction, size)) => Ok((Instruction::And(instruction), size)),
                Err(e) => Err(e),
            },
            Some(InstructionCode::Or) => match Or::decode(bytes) {
                Ok((instruction, size)) => Ok((Instruction::Or(instruction), size)),
                Err(e) => Err(e),
            },
            Some(InstructionCode::Xor) => match Xor::decode(bytes) {
                Ok((instruction, size)) => Ok((Instruction::Xor(instruction), size)),
                Err(e) => Err(e),
            },
            Some(InstructionCode::Lt) => match Lt::decode(bytes) {
                Ok((instruction, size)) => Ok((Instruction::Lt(instruction), size)),
                Err(e) => Err(e),
            },
            Some(InstructionCode::Le) => match Le::decode(bytes) {
                Ok((instruction, size)) => Ok((Instruction::Le(instruction), size)),
                Err(e) => Err(e),
            },
            Some(InstructionCode::Gt) => match Gt::decode(bytes) {
                Ok((instruction, size)) => Ok((Instruction::Gt(instruction), size)),
                Err(e) => Err(e),
            },
            Some(InstructionCode::Ge) => match Ge::decode(bytes) {
                Ok((instruction, size)) => Ok((Instruction::Ge(instruction), size)),
                Err(e) => Err(e),
            },
            Some(InstructionCode::Eq) => match builtins::Eq::decode(bytes) {
                Ok((instruction, size)) => Ok((Instruction::Eq(instruction), size)),
                Err(e) => Err(e),
            },
            Some(InstructionCode::Ne) => match Ne::decode(bytes) {
                Ok((instruction, size)) => Ok((Instruction::Ne(instruction), size)),
                Err(e) => Err(e),
            },
            Some(InstructionCode::Not) => match Not::decode(bytes) {
                Ok((instruction, size)) => Ok((Instruction::Not(instruction), size)),
                Err(e) => Err(e),
            },
            Some(InstructionCode::LoopBegin) => match LoopBegin::decode(bytes) {
                Ok((instruction, size)) => Ok((Instruction::LoopBegin(instruction), size)),
                Err(e) => Err(e),
            },
            Some(InstructionCode::LoopEnd) => match LoopEnd::decode(bytes) {
                Ok((instruction, size)) => Ok((Instruction::LoopEnd(instruction), size)),
                Err(e) => Err(e),
            },
            Some(InstructionCode::Call) => match Call::decode(bytes) {
                Ok((instruction, size)) => Ok((Instruction::Call(instruction), size)),
                Err(e) => Err(e),
            },
            Some(InstructionCode::Return) => match Return::decode(bytes) {
                Ok((instruction, size)) => Ok((Instruction::Return(instruction), size)),
                Err(e) => Err(e),
            },
            Some(InstructionCode::If) => match If::decode(bytes) {
                Ok((instruction, size)) => Ok((Instruction::If(instruction), size)),
                Err(e) => Err(e),
            },
            Some(InstructionCode::Else) => match Else::decode(bytes) {
                Ok((instruction, size)) => Ok((Instruction::Else(instruction), size)),
                Err(e) => Err(e),
            },
            Some(InstructionCode::EndIf) => match EndIf::decode(bytes) {
                Ok((instruction, size)) => Ok((Instruction::EndIf(instruction), size)),
                Err(e) => Err(e),
            },
            Some(InstructionCode::Exit) => match Exit::decode(bytes) {
                Ok((instruction, size)) => Ok((Instruction::Exit(instruction), size)),
                Err(e) => Err(e),
            },
            Some(InstructionCode::Div) => match Div::decode(bytes) {
                Ok((instruction, size)) => Ok((Instruction::Div(instruction), size)),
                Err(e) => Err(e),
            },
            Some(InstructionCode::Rem) => match Rem::decode(bytes) {
                Ok((instruction, size)) => Ok((Instruction::Rem(instruction), size)),
                Err(e) => Err(e),
            },
        }
    }

    /// Decoding inverts encoding: the bytes that an instruction is written
    /// as are read as that instruction again, whatever follows them. (No
    /// instruction takes more bytes than a machine can hold.)
    pub proof fn lemma_round_trip(&self, rest: Seq<u8>)
        requires
            self.encoding().len() <= usize::MAX,
        ensures
            Self::decoding_error(self.encoding() + rest) is None,
            self.decoded_from(self.encoding() + rest, self.encoding().len()),
            self.encoding().len() > 0,
    {
        match self {
            Instruction::PushConst(instruction) => {
                instruction.lemma_round_trip(rest);
                lemma_constant_begins_with_code(
                    InstructionCode::PushConst.byte(),
                    bigint_value(instruction.value),
                    rest,
                );
            },
            Instruction::Load(instruction) => {
                instruction.lemma_round_trip(rest);
                lemma_begins_with_code(InstructionCode::Load.byte(), seq![instruction.index], rest);
            },
            Instruction::Store(instruction) => {
                instruction.lemma_round_trip(rest);
                lemma_begins_with_code(InstructionCode::Store.byte(), seq![instruction.index], rest);
            },
            Instruction::LoadGlobal(instruction) => {
                instruction.lemma_round_trip(rest);
                lemma_begins_with_code(InstructionCode::LoadGlobal.byte(), seq![instruction.address], rest);
            },
            Instruction::StoreGlobal(instruction) => {
                instruction.lemma_round_trip(rest);
                lemma_begins_with_code(InstructionCode::StoreGlobal.byte(), seq![instruction.address], rest);
            },
            Instruction::LoadSequenceByIndex(instruction) => {
                instruction.lemma_round_trip(rest);
                lemma_begins_with_code(InstructionCode::LoadSequenceByIndex.byte(), seq![instruction.address, instruction.array_len, instruction.value_len], rest);
            },
            Instruction::Add(instruction) => {
                instruction.lemma_round_trip(rest);
                lemma_begins_with_code(InstructionCode::Add.byte(), Seq::empty(), rest);
            },
            Instruction::Sub(instruction) => {
                instruction.lemma_round_trip(rest);
                lemma_begins_with_code(InstructionCode::Sub.byte(), Seq::empty(), rest);
            },
            Instruction::Mul(instruction) => {
                instruction.lemma_round_trip(rest);
                lemma_begins_with_code(InstructionCode::Mul.byte(), Seq::empty(), rest);
            },
            Instruction::And(instruction) => {
                instruction.lemma_round_trip(rest);
                lemma_begins_with_code(InstructionCode::And.byte(), Seq::empty(), rest);
            },
            Instruction::Or(instruction) => {
                instruction.lemma_round_trip(rest);
                lemma_begins_with_code(InstructionCode::Or.byte(), Seq::empty(), rest);
            },
            Instruction::Xor(instruction) => {
                instruction.lemma_round_trip(rest);
                lemma_begins_with_code(InstructionCode::Xor.byte(), Seq::empty(), rest);
            },
            Instruction::Lt(instruction) => {
                instruction.lemma_round_trip(rest);
                lemma_begins_with_code(InstructionCode::Lt.byte(), Seq::empty(), rest);
            },
            Instruction::Le(instruction) => {
                instruction.lemma_round_trip(rest);
                lemma_begins_with_code(InstructionCode::Le.byte(), Seq::empty(), rest);
            },
            Instruction::Gt(instruction) => {
                instruction.lemma_round_trip(rest);
                lemma_begins_with_code(InstructionCode::Gt.byte(), Seq::empty(), rest);
            },
            Instruction::Ge(instruction) => {
                instruction.lemma_round_trip(rest);
                lemma_begins_with_code(InstructionCode::Ge.byte(), Seq::empty(), rest);
            },
            Instruction::Eq(instruction) => {
                instruction.lemma_round_trip(rest);
                lemma_begins_with_code(InstructionCode::Eq.byte(), Seq::empty(), rest);
            },
            Instruction::Ne(instruction) => {
                instruction.lemma_round_trip(rest);
                lemma_begins_with_code(InstructionCode::Ne.byte(), Seq::empty(), rest);
            },
            Instruction::Not(instruction) => {
                instruction.lemma_round_trip(rest);
                lemma_begins_with_code(InstructionCode::Not.byte(), Seq::empty(), rest);
            },
            Instruction::LoopBegin(instruction) => {
                instruction.lemma_round_trip(rest);
                lemma_begins_with_code(InstructionCode::LoopBegin.byte(), seq![instruction.iterations], rest);
            },
            Instruction::LoopEnd(instruction) => {
                instruction.lemma_round_trip(rest);
                lemma_begins_with_code(InstructionCode::LoopEnd.byte(), Seq::empty(), rest);
            },
            Instruction::Call(instruction) => {
                instruction.lemma_round_trip(rest);
                lemma_begins_with_code(InstructionCode::Call.byte(), seq![instruction.address, instruction.inputs_count], rest);
            },
            Instruction::Return(instruction) => {
                instruction.lemma_round_trip(rest);
                lemma_begins_with_code(InstructionCode::Return.byte(), seq![instruction.outputs_count], rest);
            },
            Instruction::If(instruction) => {
                instruction.lemma_round_trip(rest);
                lemma_begins_with_code(InstructionCode::If.byte(), Seq::empty(), rest);
            },
            Instruction::Else(instruction) => {
                instruction.lemma_round_trip(rest);
                lemma_begins_with_code(InstructionCode::Else.byte(), Seq::empty(), rest);
            },
            Instruction::EndIf(instruction) => {
                instruction.lemma_round_trip(rest);
                lemma_begins_with_code(InstructionCode::EndIf.byte(), Seq::empty(), rest);
            },
            Instruction::Exit(instruction) => {
                instruction.lemma_round_trip(rest);
                lemma_begins_with_code(InstructionCode::Exit.byte(), seq![instruction.outputs_count], rest);
            },
            Instruction::Div(instruction) => {
                instruction.lemma_round_trip(rest);
                lemma_begins_with_code(InstructionCode::Div.byte(), Seq::empty(), rest);
            },
            Instruction::Rem(instruction) => {
                instruction.lemma_round_trip(rest);
                lemma_begins_with_code(InstructionCode::Rem.byte(), Seq::empty(), rest);
            },
        }
    }

    /// How many operands the instruction takes from the evaluation stack.
    pub open spec fn takes(&self) -> usize {
        match self {
            Instruction::PushConst(instruction) => instruction.takes(),
            Instruction::Load(instruction) => instruction.takes(),
            Instruction::Store(instruction) => instruction.takes(),
            Instruction::LoadGlobal(instruction) => instruction.takes(),
            Instruction::StoreGlobal(instruction) => instruction.takes(),
            Instruction::LoadSequenceByIndex(instruction) => instruction.takes(),
            Instruction::Add(instruction) => instruction.takes(),
            Instruction::Sub(instruction) => instruction.takes(),
            Instruction::Mul(instruction) => instruction.takes(),
            Instruction::And(instruction) => instruction.takes(),
            Instruction::Or(instruction) => instruction.takes(),
            Instruction::Xor(instruction) => instruction.takes(),
            Instruction::Lt(instruction) => instruction.takes(),
            Instruction::Le(instruction) => instruction.takes(),
            Instruction::Gt(instruction) => instruction.takes(),
            Instruction::Ge(instruction) => instruction.takes(),
            Instruction::Eq(instruction) => instruction.takes(),
            Instruction::Ne(instruction) => instruction.takes(),
            Instruction::Not(instruction) => instruction.takes(),
            Instruction::LoopBegin(instruction) => instruction.takes(),
            Instruction::LoopEnd(instruction) => instruction.takes(),
            Instruction::Call(instruction) => instruction.takes(),
            Instruction::Return(instruction) => instruction.takes(),
            Instruction::If(instruction) => instruction.takes(),
            Instruction::Else(instruction) => instruction.takes(),
            Instruction::EndIf(instruction) => instruction.takes(),
            Instruction::Exit(instruction) => instruction.takes(),
            Instruction::Div(instruction) => instruction.takes(),
            Instruction::Rem(instruction) => instruction.takes(),
        }
    }

    /// How many operands the instruction puts on the evaluation stack.
    pub open spec fn gives(&self) -> usize {
        match self {
            Instruction::PushConst(instruction) => instruction.gives(),
            Instruction::Load(instruction) => instruction.gives(),
            Instruction::Store(instruction) => instruction.gives(),
            Instruction::LoadGlobal(instruction) => instruction.gives(),
            Instruction::StoreGlobal(instruction) => instruction.gives(),
            Instruction::LoadSequenceByIndex(instruction) => instruction.gives(),
            Instruction::Add(instruction) => instruction.gives(),
            Instruction::Sub(instruction) => instruction.gives(),
            Instruction::Mul(instruction) => instruction.gives(),
            Instruction::And(instruction) => instruction.gives(),
            Instruction::Or(instruction) => instruction.gives(),
            Instruction::Xor(instruction) => instruction.gives(),
            Instruction::Lt(instruction) => instruction.gives(),
            Instruction::Le(instruction) => instruction.gives(),
            Instruction::Gt(instruction) => instruction.gives(),
            Instruction::Ge(instruction) => instruction.gives(),
            Instruction::Eq(instruction) => instruction.gives(),
            Instruction::Ne(instruction) => instruction.gives(),
            Instruction::Not(instruction) => instruction.gives(),
            Instruction::LoopBegin(instruction) => instruction.gives(),
            Instruction::LoopEnd(instruction) => instruction.gives(),
            Instruction::Call(instruction) => instruction.gives(),
            Instruction::Return(instruction) => instruction.gives(),
            Instruction::If(instruction) => instruction.gives(),
            Instruction::Else(instruction) => instruction.gives(),
            Instruction::EndIf(instruction) => instruction.gives(),
            Instruction::Exit(instruction) => instruction.gives(),
            Instruction::Div(instruction) => instruction.gives(),
            Instruction::Rem(instruction) => instruction.gives(),
        }
    }

    /// How many operands the instruction takes from the evaluation stack.
    pub fn inputs_count(&self) -> (count: usize)
        ensures
            count == self.takes(),
    {
        match self {
            Instruction::PushConst(instruction) => instruction.inputs_count(),
            Instruction::Load(instruction) => instruction.inputs_count(),
            Instruction::Store(instruction) => instruction.inputs_count(),
            Instruction::LoadGlobal(instruction) => instruction.inputs_count(),
            Instruction::StoreGlobal(instruction) => instruction.inputs_count(),
            Instruction::LoadSequenceByIndex(instruction) => instruction.inputs_count(),
            Instruction::Add(instruction) => instruction.inputs_count(),
            Instruction::Sub(instruction) => instruction.inputs_count(),
            Instruction::Mul(instruction) => instruction.inputs_count(),
            Instruction::And(instruction) => instruction.inputs_count(),
            Instruction::Or(instruction) => instruction.inputs_count(),
            Instruction::Xor(instruction) => instruction.inputs_count(),
            Instruction::Lt(instruction) => instruction.inputs_count(),
            Instruction::Le(instruction) => instruction.inputs_count(),
            Instruction::Gt(instruction) => instruction.inputs_count(),
            Instruction::Ge(instruction) => instruction.inputs_count(),
            Instruction::Eq(instruction) => instruction.inputs_count(),
            Instruction::Ne(instruction) => instruction.inputs_count(),
            Instruction::Not(instruction) => instruction.inputs_count(),
            Instruction::LoopBegin(instruction) => instruction.inputs_count(),
            Instruction::LoopEnd(instruction) => instruction.inputs_count(),
            Instruction::Call(instruction) => instruction.inputs_count(),
            Instruction::Return(instruction) => instruction.inputs_count(),
            Instruction::If(instruction) => instruction.inputs_count(),
            Instruction::Else(instruction) => instruction.inputs_count(),
            Instruction::EndIf(instruction) => instruction.inputs_count(),
            Instruction::Exit(instruction) => instruction.inputs_count(),
            Instruction::Div(instruction) => instruction.inputs_count(),
            Instruction::Rem(instruction) => instruction.inputs_count(),
        }
    }

    /// How many operands the instruction puts on the evaluation stack.
    pub fn outputs_count(&self) -> (count: usize)
        ensures
            count == self.gives(),
    {
        match self {
            Instruction::PushConst(instruction) => instruction.outputs_count(),
            Instruction::Load(instruction) => instruction.outputs_count(),
            Instruction::Store(instruction) => instruction.outputs_count(),
            Instruction::LoadGlobal(instruction) => instruction.outputs_count(),
            Instruction::StoreGlobal(instruction) => instruction.outputs_count(),
            Instruction::LoadSequenceByIndex(instruction) => instruction.outputs_count(),
            Instruction::Add(instruction) => instruction.outputs_count(),
            Instruction::Sub(instruction) => instruction.outputs_count(),
            Instruction::Mul(instruction) => instruction.outputs_count(),
            Instruction::And(instruction) => instruction.outputs_count(),
            Instruction::Or(instruction) => instruction.outputs_count(),
            Instruction::Xor(instruction) => instruction.outputs_count(),
            Instruction::Lt(instruction) => instruction.outputs_count(),
            Instruction::Le(instruction) => instruction.outputs_count(),
            Instruction::Gt(instruction) => instruction.outputs_count(),
            Instruction::Ge(instruction) => instruction.outputs_count(),
            Instruction::Eq(instruction) => instruction.outputs_count(),
            Instruction::Ne(instruction) => instruction.outputs_count(),
            Instruction::Not(instruction) => instruction.outputs_count(),
            Instruction::LoopBegin(instruction) => instruction.outputs_count(),
            Instruction::LoopEnd(instruction) => instruction.outputs_count(),
            Instruction::Call(instruction) => instruction.outputs_count(),
            Instruction::Return(instruction) => instruction.outputs_count(),
            Instruction::If(instruction) => instruction.outputs_count(),
            Instruction::Else(instruction) => instruction.outputs_count(),
            Instruction::EndIf(instruction) => instruction.outputs_count(),
            Instruction::Exit(instruction) => instruction.outputs_count(),
            Instruction::Div(instruction) => instruction.outputs_count(),
            Instruction::Rem(instruction) => instruction.outputs_count(),
        }
    }

    /// Runs the instruction on a machine. A fault of the program is
    /// reported as such, before the backend is asked for anything; past
    /// that the instruction fails only where the backend does. Where it
    /// succeeds, the machine is in the state that `effect` gives. On a
    /// reliable backend the instruction comes to its `outcome`.
    pub fn execute<P: Primitive, O: PrimitiveOperations<P>>(
        &self,
        vm: &mut VirtualMachine<P, O>,
    ) -> (res: Result<(), RuntimeError>)
        ensures
            self.effect(old(vm)@) matches Err(fault) ==> (res matches Err(e) && e@ == fault),
            res is Ok ==> self.effect(old(vm)@) == Ok::<_, Fault>(final(vm)@),
            self.is_structural() ==> (res matches Err(e) ==> self.effect(old(vm)@) == Err::<
                VmModel,
                _,
            >(e@)),
            res is Ok ==> self.refused(old(vm)@) is None,
            old(vm).operations().reliable() ==> final(vm).operations().reliable(),
            old(vm).operations().reliable() ==> match self.outcome(old(vm)@) {
                Ok(_) => res is Ok,
                Err(fault) => res matches Err(e) && e@ == fault,
            },
    {
        match self {
            Instruction::PushConst(instruction) => instruction.execute(vm),
            Instruction::Load(instruction) => instruction.execute(vm),
            Instruction::Store(instruction) => instruction.execute(vm),
            Instruction::LoadGlobal(instruction) => instruction.execute(vm),
            Instruction::StoreGlobal(instruction) => instruction.execute(vm),
            Instruction::LoadSequenceByIndex(instruction) => instruction.execute(vm),
            Instruction::Add(instruction) => instruction.execute(vm),
            Instruction::Sub(instruction) => instruction.execute(vm),
            Instruction::Mul(instruction) => instruction.execute(vm),
            Instruction::And(instruction) => instruction.execute(vm),
            Instruction::Or(instruction) => instruction.execute(vm),
            Instruction::Xor(instruction) => instruction.execute(vm),
            Instruction::Lt(instruction) => instruction.execute(vm),
            Instruction::Le(instruction) => instruction.execute(vm),
            Instruction::Gt(instruction) => instruction.execute(vm),
            Instruction::Ge(instruction) => instruction.execute(vm),
            Instruction::Eq(instruction) => instruction.execute(vm),
            Instruction::Ne(instruction) => instruction.execute(vm),
            Instruction::Not(instruction) => instruction.execute(vm),
            Instruction::LoopBegin(instruction) => instruction.execute(vm),
            Instruction::LoopEnd(instruction) => instruction.execute(vm),
            Instruction::Call(instruction) => instruction.execute(vm),
            Instruction::Return(instruction) => instruction.execute(vm),
            Instruction::If(instruction) => instruction.execute(vm),
            Instruction::Else(instruction) => instruction.execute(vm),
            Instruction::EndIf(instruction) => instruction.execute(vm),
            Instruction::Exit(instruction) => instruction.execute(vm),
            Instruction::Div(instruction) => instruction.execute(vm),
            Instruction::Rem(instruction) => instruction.execute(vm),
        }
    }
}

/// Why bytes are not a program, if they are not: the error of the first
/// instruction that cannot be read.
pub open spec fn program_error(bytes: Seq<u8>) -> Option<DecodingError>
    decreases bytes.len(),
{
    if bytes.len() == 0 {
        None
    } else {
        match Instruction::decoding_error(bytes) {
            Some(error) => Some(error),
            None => if 0 < size_at(bytes) <= bytes.len() {
                program_error(bytes.skip(size_at(bytes) as int))
            } else {
                None
            },
        }
    }
}

/// Whether the bytes are the instructions of `program`, one behind another
/// and nothing else.
pub open spec fn is_program(bytes: Seq<u8>, program: Seq<Instruction>) -> bool
    decreases program.len(),
{
    if program.len() == 0 {
        bytes.len() == 0
    } else {
        &&& 0 < size_at(bytes) <= bytes.len()
        &&& program[0].decoded_from(bytes, size_at(bytes))
        &&& is_program(bytes.skip(size_at(bytes) as int), program.skip(1))
    }
}

/// The bytes of a program: those of its instructions, one behind another.
pub open spec fn program_encoding(program: Seq<Instruction>) -> Seq<u8>
    decreases program.len(),
{
    if program.len() == 0 {
        Seq::empty()
    } else {
        program[0].encoding() + program_encoding(program.skip(1))
    }
}

/// An instruction that was read takes as many bytes as its code says.
pub proof fn lemma_size_read(instruction: Instruction, bytes: Seq<u8>, size: nat)
    requires
        instruction.decoded_from(bytes, size),
    ensures
        size == size_at(bytes),
{
}

/// Reads a program from its bytes.
pub fn decode_all_instructions(bytes: &[u8]) -> (res: Result<Vec<Instruction>, DecodingError>)
    ensures
        match res {
            Ok(program) => program_error(bytes@) is None && is_program(bytes@, program@),
            Err(e) => program_error(bytes@) == Some(e),
        },
{
    let mut program: Vec<Instruction> = Vec::new();
    let mut offset: usize = 0;
    assert(bytes@.skip(0) =~= bytes@);
    while offset < bytes.len()
        invariant
            offset <= bytes.len(),
            program_error(bytes@) == program_error(bytes@.skip(offset as int)),
            forall|rest: Seq<Instruction>|
                is_program(bytes@.skip(offset as int), rest) ==> #[trigger] is_program(
                    bytes@,
                    program@ + rest,
                ),
        decreases bytes.len() - offset,
    {
        let remaining = slice_subrange(bytes, offset, bytes.len());
        assert(remaining@ =~= bytes@.skip(offset as int));
        let (instruction, size) = match Instruction::decode(remaining) {
            Ok(decoded) => decoded,
            Err(e) => {
                return Err(e);
            },
        };
        proof {
            lemma_size_read(instruction, remaining@, size as nat);
            assert(remaining@.skip(size as int) =~= bytes@.skip(offset + size));
            let ghost before = program@;
            assert forall|rest: Seq<Instruction>|
                is_program(bytes@.skip(offset + size), rest) implies #[trigger] is_program(
                bytes@,
                before.push(instruction) + rest,
            ) by {
                let longer = seq![instruction] + rest;
                assert(longer.skip(1) =~= rest);
                assert(is_program(remaining@, longer));
                assert(before + longer =~= before.push(instruction) + rest);
            }
        }
        program.push(instruction);
        offset = offset + size;
    }
    assert(bytes@.skip(offset as int) =~= Seq::<u8>::empty());
    assert(is_program(bytes@.skip(offset as int), Seq::<Instruction>::empty()));
    assert(program@ + Seq::<Instruction>::empty() =~= program@);
    Ok(program)
}

/// Writes a program as bytes.
pub fn encode_all_instructions(program: &[Instruction]) -> (bytes: Vec<u8>)
    ensures
        bytes@ == program_encoding(program@),
{
    let mut bytes: Vec<u8> = Vec::new();
    let mut done: usize = program.len();
    assert(program@.skip(done as int) =~= Seq::<Instruction>::empty());
    let mut pieces: Vec<Vec<u8>> = Vec::new();
    let mut i: usize = 0;
    while i < program.len()
        invariant
            i <= program.len(),
            pieces@.len() == i,
            forall|j: int| 0 <= j < i ==> (#[trigger] pieces@[j])@ == program@[j].encoding(),
        decreases program.len() - i,
    {
        pieces.push(program[i].encode());
        i = i + 1;
    }
    while done > 0
        invariant
            done <= program.len(),
            pieces@.len() == done,
            forall|j: int| 0 <= j < done ==> (#[trigger] pieces@[j])@ == program@[j].encoding(),
            bytes@ == program_encoding(program@.skip(done as int)),
        decreases done,
    {
        let mut piece = pieces.pop().unwrap();
        done = done - 1;
        assert(program@.skip(done as int).skip(1) =~= program@.skip(done + 1));
        piece.append(&mut bytes);
        bytes = piece;
    }
    assert(program@.skip(0) =~= program@);
    bytes
}

/// Decoding inverts encoding, for whole programs: the bytes that a program
/// is written as are that program, and are read without an error. (No
/// program takes more bytes than a machine can hold.)
pub proof fn lemma_program_round_trip(program: Seq<Instruction>)
    requires
        program_encoding(program).len() <= usize::MAX,
    ensures
        is_program(program_encoding(program), program),
        program_error(program_encoding(program)) is None,
    decreases program.len(),
{
    if program.len() > 0 {
        let first = program[0];
        let rest = program_encoding(program.skip(1));
        let bytes = program_encoding(program);
        first.lemma_round_trip(rest);
        lemma_size_read(first, bytes, first.encoding().len());
        assert(bytes.skip(first.encoding().len() as int) =~= rest);
        lemma_program_round_trip(program.skip(1));
    }
}

} // verus!
