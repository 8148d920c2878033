//! The errors that end a run.

use franklin_crypto::bellman::SynthesisError;
use vstd::prelude::*;

verus! {

/// `bellman::SynthesisError`, the error of a constraint system. The machine
/// carries it and does not look inside.
#[verifier::external_type_specification]
#[verifier::external_body]
pub struct ExSynthesisError(SynthesisError);

/// Every way in which a run can fail. No error is recovered from inside the
/// machine: the first one ends the run.
#[derive(Debug)]
pub enum RuntimeError {
    InvalidArguments,
    StackUnderflow,
    StackOverflow,
    UnexpectedEndOfFile,
    SynthesisError(SynthesisError),
    InternalError(String),
    IntegerOverflow,
    UnexpectedLoopEnd,
    UnexpectedReturn,
    UnexpectedFrameExit,
    UnexpectedElse,
    UnexpectedEndIf,
    AssertionError,
    FirstInstructionNotCall,
    WrongInputsCount,
    StackIndexOutOfRange,
    UninitializedStorageAccess,
    MissingArgument,
    BranchStacksDoNotMatch,
    IndexOutOfBounds,
    UsingMerkleTreeAsValue,
}

/// What an error says, with its text as a sequence of characters. Contracts
/// name errors through this type.
pub enum Fault {
    InvalidArguments,
    StackUnderflow,
    StackOverflow,
    UnexpectedEndOfFile,
    Synthesis,
    Internal(Seq<char>),
    IntegerOverflow,
    UnexpectedLoopEnd,
    UnexpectedReturn,
    UnexpectedFrameExit,
    UnexpectedElse,
    UnexpectedEndIf,
    Assertion,
    FirstInstructionNotCall,
    WrongInputsCount,
    StackIndexOutOfRange,
    UninitializedStorageAccess,
    MissingArgument,
    BranchStacksDoNotMatch,
    IndexOutOfBounds,
    UsingMerkleTreeAsValue,
}

impl View for RuntimeError {
    type V = Fault;

    open spec fn view(&self) -> Fault {
        match self {
            RuntimeError::InvalidArguments => Fault::InvalidArguments,
            RuntimeError::StackUnderflow => Fault::StackUnderflow,
            RuntimeError::StackOverflow => Fault::StackOverflow,
            RuntimeError::UnexpectedEndOfFile => Fault::UnexpectedEndOfFile,
            RuntimeError::SynthesisError(_) => Fault::Synthesis,
            RuntimeError::InternalError(message) => Fault::Internal(message@),
            RuntimeError::IntegerOverflow => Fault::IntegerOverflow,
            RuntimeError::UnexpectedLoopEnd => Fault::UnexpectedLoopEnd,
            RuntimeError::UnexpectedReturn => Fault::UnexpectedReturn,
            RuntimeError::UnexpectedFrameExit => Fault::UnexpectedFrameExit,
            RuntimeError::UnexpectedElse => Fault::UnexpectedElse,
            RuntimeError::UnexpectedEndIf => Fault::UnexpectedEndIf,
            RuntimeError::AssertionError => Fault::Assertion,
            RuntimeError::FirstInstructionNotCall => Fault::FirstInstructionNotCall,
            RuntimeError::WrongInputsCount => Fault::WrongInputsCount,
            RuntimeError::StackIndexOutOfRange => Fault::StackIndexOutOfRange,
            RuntimeError::UninitializedStorageAccess => Fault::UninitializedStorageAccess,
            RuntimeError::MissingArgument => Fault::MissingArgument,
            RuntimeError::BranchStacksDoNotMatch => Fault::BranchStacksDoNotMatch,
            RuntimeError::IndexOutOfBounds => Fault::IndexOutOfBounds,
            RuntimeError::UsingMerkleTreeAsValue => Fault::UsingMerkleTreeAsValue,
        }
    }
}

impl From<SynthesisError> for RuntimeError {
    fn from(error: SynthesisError) -> (converted: RuntimeError) {
        RuntimeError::SynthesisError(error)
    }
}

impl vstd::std_specs::convert::FromSpecImpl<SynthesisError> for RuntimeError {
    open spec fn obeys_from_spec() -> bool {
        true
    }

    open spec fn from_spec(error: SynthesisError) -> RuntimeError {
        RuntimeError::SynthesisError(error)
    }
}

/// The text of the error that an operation reports when no function frame is
/// open.
pub open spec fn missing_frame_text() -> Seq<char> {
    "Root frame is missing"@
}

/// The error reported when an operation needs the current function frame and
/// there is none.
pub fn missing_frame() -> (error: RuntimeError)
    ensures
        error@ == Fault::Internal(missing_frame_text()),
{
    RuntimeError::InternalError("Root frame is missing".to_owned())
}

} // verus!
