//! Function frames, the blocks open inside them, and the state of a run.

use crate::primitive::values;
use crate::primitive::Primitive;
use crate::vm::evaluation_stack::EvaluationStack;
use crate::vm::memory::Memory;
use crate::vm::model::BlockModel;
use crate::vm::model::FrameModel;
use vstd::prelude::*;

verus! {

/// An open loop. Its body is run again from its first instruction until no
/// pass is left.
#[derive(Debug)]
pub struct Loop {
    pub first_instruction_index: usize,
    pub iterations_left: usize,
}

/// An open conditional. `condition` is the operand that opened it, not yet
/// combined with the conditions around it; `is_full` says that its else arm
/// has begun.
#[derive(Debug)]
pub struct Branch<P> {
    pub condition: P,
    pub is_full: bool,
}

/// An open loop or conditional. Whoever closes a block says which of the two
/// it expects.
#[derive(Debug)]
pub enum Block<P> {
    Loop(Loop),
    Branch(Branch<P>),
}

impl<P: Primitive> View for Block<P> {
    type V = BlockModel;

    open spec fn view(&self) -> BlockModel {
        match self {
            Block::Loop(block) => BlockModel::Loop {
                first_instruction_index: block.first_instruction_index,
                iterations_left: block.iterations_left,
            },
            Block::Branch(block) => BlockModel::Branch {
                condition: block.condition.value(),
                is_full: block.is_full,
            },
        }
    }
}

/// The blocks that a sequence of blocks stands for.
pub open spec fn block_models<P: Primitive>(blocks: Seq<Block<P>>) -> Seq<BlockModel> {
    Seq::new(blocks.len(), |i: int| blocks[i]@)
}

/// One activation of a function: its window of the data memory, the address
/// to return to, and the blocks open in it.
///
/// Local address `a` is the cell `stack_frame_begin + a` of the data memory.
/// `stack_frame_end` is the first cell behind everything the frame has
/// stored; the frame of a function called from here begins there.
#[derive(Debug)]
pub struct FunctionFrame<P> {
    pub stack_frame_begin: usize,
    pub stack_frame_end: usize,
    pub return_address: usize,
    pub blocks: Vec<Block<P>>,
}

impl<P: Primitive> View for FunctionFrame<P> {
    type V = FrameModel;

    open spec fn view(&self) -> FrameModel {
        FrameModel {
            stack_frame_begin: self.stack_frame_begin,
            stack_frame_end: self.stack_frame_end,
            return_address: self.return_address,
            blocks: block_models(self.blocks@),
        }
    }
}

impl<P: Primitive> FunctionFrame<P> {
    /// A frame that has stored nothing yet and has no open block.
    pub fn new(stack_frame_begin: usize, return_address: usize) -> (frame: Self)
        ensures
            frame@ == FrameModel::new(stack_frame_begin, return_address),
    {
        let frame = FunctionFrame {
            stack_frame_begin,
            stack_frame_end: stack_frame_begin,
            return_address,
            blocks: Vec::new(),
        };
        assert(frame@.blocks =~= Seq::empty());
        frame
    }
}

/// The frames that a sequence of frames stands for.
pub open spec fn frame_models<P: Primitive>(frames: Seq<FunctionFrame<P>>) -> Seq<FrameModel> {
    Seq::new(frames.len(), |i: int| frames[i]@)
}

/// Everything that the instructions of a run work on, but for the backend
/// and the outputs.
pub struct State<P> {
    pub instruction_counter: usize,
    pub conditions_stack: Vec<P>,
    pub evaluation_stack: EvaluationStack<P>,
    pub data_stack: Memory<P>,
    pub frames_stack: Vec<FunctionFrame<P>>,
}

impl<P: Primitive> State<P> {
    /// The state before a run: no condition, no operand, no cell, no frame.
    pub fn new() -> (state: Self)
        ensures
            state.instruction_counter == 0,
            values(state.conditions_stack@) == Seq::<Option<int>>::empty(),
            state.evaluation_stack@ == crate::vm::evaluation_stack::StackModel::empty(),
            state.data_stack@ == crate::vm::memory::MemoryModel::empty(),
            frame_models(state.frames_stack@) == Seq::<FrameModel>::empty(),
    {
        let state = State {
            instruction_counter: 0,
            conditions_stack: Vec::new(),
            evaluation_stack: EvaluationStack::new(),
            data_stack: Memory::new(),
            frames_stack: Vec::new(),
        };
        assert(values(state.conditions_stack@) =~= Seq::<Option<int>>::empty());
        assert(frame_models(state.frames_stack@) =~= Seq::<FrameModel>::empty());
        state
    }
}

} // verus!
