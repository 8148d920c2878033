//! The operations of the machine that the instructions are made of.
//!
//! Each operation is proved against the function of the same name on
//! `VmModel`. An operation that needs nothing from the backend does exactly
//! what that function says, and fails exactly where it gives a fault. An
//! operation that asks the backend reports a fault of the program before it
//! asks; after that it fails where the backend does, and nothing is then
//! promised of the machine, whose run is over.

use crate::primitive::values;
use crate::primitive::Primitive;
use crate::primitive::PrimitiveOperations;
use crate::vm::cell::slots;
use crate::vm::cell::Cell;
use crate::vm::cell::Slot;
use crate::vm::error::missing_frame;
use crate::vm::evaluation_stack::lemma_put_back;
use crate::vm::error::Fault;
use crate::vm::error::RuntimeError;
use crate::vm::model::BlockModel;
use crate::vm::model::FrameModel;
use crate::vm::model::VmModel;
use crate::vm::state::block_models;
use crate::vm::state::frame_models;
use crate::vm::state::Block;
use crate::vm::state::Branch;
use crate::vm::state::FunctionFrame;
use crate::vm::state::Loop;
use crate::vm::VirtualMachine;
use vstd::prelude::*;

verus! {

/// The interface of the machine that the instructions use.
pub trait InternalVM<P: Primitive> {
    fn push(&mut self, cell: Cell<P>) -> Result<(), RuntimeError>;

    fn pop(&mut self) -> Result<Cell<P>, RuntimeError>;

    fn load(&mut self, address: usize) -> Result<Cell<P>, RuntimeError>;

    fn load_global(&mut self, address: usize) -> Result<Cell<P>, RuntimeError>;

    fn store(&mut self, address: usize, cell: Cell<P>) -> Result<(), RuntimeError>;

    fn store_global(&mut self, address: usize, cell: Cell<P>) -> Result<(), RuntimeError>;

    fn loop_begin(&mut self, iterations: usize) -> Result<(), RuntimeError>;

    fn loop_end(&mut self) -> Result<(), RuntimeError>;

    fn call(&mut self, address: usize, inputs_count: usize) -> Result<(), RuntimeError>;

    fn ret(&mut self, outputs_count: usize) -> Result<(), RuntimeError>;

    fn branch_then(&mut self) -> Result<(), RuntimeError>;

    fn branch_else(&mut self) -> Result<(), RuntimeError>;

    fn branch_end(&mut self) -> Result<(), RuntimeError>;

    fn exit(&mut self, outputs_count: usize) -> Result<(), RuntimeError>;
}

impl<P: Primitive, O: PrimitiveOperations<P>> VirtualMachine<P, O> {
    /// Puts a block on top of the blocks of the current frame.
    fn push_block(&mut self, block: Block<P>)
        requires
            old(self)@.frames.len() > 0,
        ensures
            final(self)@ == old(self)@.with_blocks(old(self)@.frame().blocks.push(block@)),
            final(self).operations() == old(self).operations(),
    {
        let mut frame = self.state.frames_stack.pop().unwrap();
        frame.blocks.push(block);
        assert(frame@.blocks =~= old(self)@.frame().blocks.push(block@));
        self.state.frames_stack.push(frame);
        assert(self@.frames =~= old(self)@.with_blocks(
            old(self)@.frame().blocks.push(block@),
        ).frames);
    }

    /// Takes the innermost block of the current frame.
    fn pop_block(&mut self) -> (block: Block<P>)
        requires
            old(self)@.frames.len() > 0,
            old(self)@.frame().blocks.len() > 0,
        ensures
            block@ == old(self)@.frame().blocks.last(),
            final(self)@ == old(self)@.with_blocks(old(self)@.frame().blocks.drop_last()),
            final(self).operations() == old(self).operations(),
    {
        let mut frame = self.state.frames_stack.pop().unwrap();
        let block = frame.blocks.pop().unwrap();
        assert(frame@.blocks =~= old(self)@.frame().blocks.drop_last());
        self.state.frames_stack.push(frame);
        assert(self@.frames =~= old(self)@.with_blocks(
            old(self)@.frame().blocks.drop_last(),
        ).frames);
        block
    }

    /// Opens a conditional whose condition has been popped and combined with
    /// the conditions around it: see `VmModel::branch_opened`.
    pub fn open_branch(&mut self, condition: P, combined: P) -> (res: Result<(), RuntimeError>)
        ensures
            match res {
                Ok(()) => old(self)@.branch_opened(condition.value(), combined.value()) == Ok::<
                    _,
                    Fault,
                >(final(self)@),
                Err(e) => old(self)@.branch_opened(condition.value(), combined.value()) == Err::<
                    VmModel,
                    _,
                >(e@),
            },
            res is Err ==> final(self)@ == old(self)@,
            final(self).operations() == old(self).operations(),
    {
        if self.state.frames_stack.len() == 0 {
            return Err(RuntimeError::StackUnderflow);
        }
        self.state.conditions_stack.push(combined);
        assert(values(self.state.conditions_stack@) =~= old(self)@.conditions.push(
            combined.value(),
        ));
        self.push_block(Block::Branch(Branch { condition, is_full: false }));
        self.state.evaluation_stack.fork();
        self.state.data_stack.fork();
        Ok(())
    }

    /// Begins the else arm of the innermost conditional under a condition
    /// that has been computed already: see `VmModel::else_opened`.
    pub fn open_else(&mut self, combined: P) -> (res: Result<(), RuntimeError>)
        ensures
            match res {
                Ok(()) => old(self)@.else_opened(combined.value()) == Ok::<_, Fault>(final(self)@),
                Err(e) => old(self)@.else_opened(combined.value()) == Err::<VmModel, _>(e@),
            },
            res is Err ==> final(self)@ == old(self)@,
            final(self).operations() == old(self).operations(),
    {
        let frames = self.state.frames_stack.len();
        if frames == 0 {
            return Err(missing_frame());
        }
        let blocks = self.state.frames_stack[frames - 1].blocks.len();
        if blocks == 0 {
            return Err(RuntimeError::UnexpectedElse);
        }
        assert(old(self)@.frame().blocks.last() == self.state.frames_stack@[frames
            - 1].blocks@[blocks - 1]@);
        let condition = match &self.state.frames_stack[frames - 1].blocks[blocks - 1] {
            Block::Branch(branch) => {
                if branch.is_full {
                    return Err(RuntimeError::UnexpectedElse);
                }
                branch.condition.duplicate()
            },
            Block::Loop(_) => {
                return Err(RuntimeError::UnexpectedElse);
            },
        };
        if self.state.conditions_stack.len() < 2 {
            return Err(RuntimeError::StackUnderflow);
        }
        if !self.state.data_stack.can_switch() {
            return Err(RuntimeError::UnexpectedElse);
        }
        let _ = self.pop_block();
        self.push_block(Block::Branch(Branch { condition, is_full: true }));
        let _ = self.state.conditions_stack.pop();
        self.state.conditions_stack.push(combined);
        assert(values(self.state.conditions_stack@) =~= old(self)@.conditions.drop_last().push(
            combined.value(),
        ));
        let _ = self.state.data_stack.switch_branch();
        self.state.evaluation_stack.fork();
        assert(self@.frames =~= old(self)@.with_blocks(
            old(self)@.frame().blocks.drop_last().push(
                BlockModel::Branch { condition: condition.value(), is_full: true },
            ),
        ).frames);
        Ok(())
    }
}

impl<P: Primitive, O: PrimitiveOperations<P>> InternalVM<P> for VirtualMachine<P, O> {
    /// Puts a cell on the evaluation stack.
    fn push(&mut self, cell: Cell<P>) -> (res: Result<(), RuntimeError>)
        ensures
            res is Ok,
            final(self)@ == old(self)@.push(cell@),
            final(self).operations() == old(self).operations(),
    {
        self.state.evaluation_stack.push(cell)
    }

    /// Takes the top cell of the evaluation stack.
    fn pop(&mut self) -> (res: Result<Cell<P>, RuntimeError>)
        ensures
            match res {
                Ok(cell) => old(self)@.pop() == Ok::<_, Fault>((final(self)@, cell@)),
                Err(e) => old(self)@.pop() == Err::<(VmModel, Slot), _>(e@),
            },
            final(self).operations() == old(self).operations(),
            res is Err ==> final(self)@ == old(self)@,
    {
        self.state.evaluation_stack.pop()
    }

    /// A copy of the cell at a local address of the current frame.
    fn load(&mut self, address: usize) -> (res: Result<Cell<P>, RuntimeError>)
        ensures
            *final(self) == *old(self),
            match res {
                Ok(cell) => old(self)@.load(address) == Ok::<_, Fault>(cell@),
                Err(e) => old(self)@.load(address) == Err::<Slot, _>(e@),
            },
    {
        let frames = self.state.frames_stack.len();
        if frames == 0 {
            return Err(RuntimeError::StackUnderflow);
        }
        let frame = &self.state.frames_stack[frames - 1];
        match frame.stack_frame_begin.checked_add(address) {
            Some(cell) => {
                if cell < frame.stack_frame_end {
                    self.state.data_stack.get(cell)
                } else {
                    Err(RuntimeError::UninitializedStorageAccess)
                }
            },
            None => Err(RuntimeError::UninitializedStorageAccess),
        }
    }

    /// A copy of a cell of the data memory, whatever frame it belongs to.
    fn load_global(&mut self, address: usize) -> (res: Result<Cell<P>, RuntimeError>)
        ensures
            *final(self) == *old(self),
            match res {
                Ok(cell) => old(self)@.load_global(address as int) == Ok::<_, Fault>(cell@),
                Err(e) => old(self)@.load_global(address as int) == Err::<Slot, _>(e@),
            },
    {
        self.state.data_stack.get(address)
    }

    /// Writes a cell to a local address of the current frame, and moves the
    /// frame's end behind it.
    fn store(&mut self, address: usize, cell: Cell<P>) -> (res: Result<(), RuntimeError>)
        ensures
            match res {
                Ok(()) => old(self)@.store(address, cell@) == Ok::<_, Fault>(final(self)@),
                Err(e) => old(self)@.store(address, cell@) == Err::<VmModel, _>(e@),
            },
            final(self).operations() == old(self).operations(),
            res is Err ==> final(self)@ == old(self)@,
    {
        let frames = self.state.frames_stack.len();
        if frames == 0 {
            return Err(RuntimeError::StackUnderflow);
        }
        let target = match self.state.frames_stack[frames - 1].stack_frame_begin.checked_add(
            address,
        ) {
            Some(target) => target,
            None => {
                return Err(RuntimeError::StackOverflow);
            },
        };
        if target == usize::MAX {
            return Err(RuntimeError::StackOverflow);
        }
        let mut frame = self.state.frames_stack.pop().unwrap();
        if frame.stack_frame_end <= target {
            frame.stack_frame_end = target + 1;
        }
        self.state.frames_stack.push(frame);
        let stored = self.state.data_stack.set(target, cell);
        assert(self@.frames =~= old(self)@.store(address, cell@)->Ok_0.frames);
        stored
    }

    /// Writes a cell of the data memory, whatever frame it belongs to.
    fn store_global(&mut self, address: usize, cell: Cell<P>) -> (res: Result<(), RuntimeError>)
        ensures
            match res {
                Ok(()) => old(self)@.store_global(address, cell@) == Ok::<_, Fault>(final(self)@),
                Err(e) => old(self)@.store_global(address, cell@) == Err::<VmModel, _>(e@),
            },
            final(self).operations() == old(self).operations(),
            res is Err ==> final(self)@ == old(self)@,
    {
        self.state.data_stack.set(address, cell)
    }

    /// Opens a loop whose body begins at the next instruction and runs
    /// `iterations` times. A loop of no pass cannot be opened: the machine
    /// does not know where its body ends.
    fn loop_begin(&mut self, iterations: usize) -> (res: Result<(), RuntimeError>)
        ensures
            match res {
                Ok(()) => old(self)@.loop_begin(iterations) == Ok::<_, Fault>(final(self)@),
                Err(e) => old(self)@.loop_begin(iterations) == Err::<VmModel, _>(e@),
            },
            final(self).operations() == old(self).operations(),
            res is Err ==> final(self)@ == old(self)@,
    {
        if self.state.frames_stack.len() == 0 {
            return Err(missing_frame());
        }
        if iterations == 0 {
            return Err(RuntimeError::InvalidArguments);
        }
        let block = Loop {
            first_instruction_index: self.state.instruction_counter,
            iterations_left: iterations - 1,
        };
        self.push_block(Block::Loop(block));
        Ok(())
    }

    /// Ends a pass of the innermost loop: back to the first instruction of
    /// its body while a pass is left, on behind the loop when none is.
    fn loop_end(&mut self) -> (res: Result<(), RuntimeError>)
        ensures
            match res {
                Ok(()) => old(self)@.loop_end() == Ok::<_, Fault>(final(self)@),
                Err(e) => old(self)@.loop_end() == Err::<VmModel, _>(e@),
            },
            final(self).operations() == old(self).operations(),
            res is Err ==> final(self)@ == old(self)@,
    {
        let frames = self.state.frames_stack.len();
        if frames == 0 {
            return Err(missing_frame());
        }
        let blocks = self.state.frames_stack[frames - 1].blocks.len();
        if blocks == 0 {
            return Err(RuntimeError::UnexpectedLoopEnd);
        }
        assert(old(self)@.frame().blocks.last() == self.state.frames_stack@[frames
            - 1].blocks@[blocks - 1]@);
        let (first_instruction_index, iterations_left) = match &self.state.frames_stack[frames
            - 1].blocks[blocks - 1] {
            Block::Loop(block) => (block.first_instruction_index, block.iterations_left),
            Block::Branch(_) => {
                return Err(RuntimeError::UnexpectedLoopEnd);
            },
        };
        let _ = self.pop_block();
        if iterations_left != 0 {
            self.state.instruction_counter = first_instruction_index;
            self.push_block(
                Block::Loop(Loop { first_instruction_index, iterations_left: iterations_left - 1 }),
            );
        }
        assert(self@.frames =~= old(self)@.loop_end()->Ok_0.frames);
        Ok(())
    }

    /// Calls the function at `address`: a new frame begins where the current
    /// one ends, and the `inputs_count` top operands become its locals
    /// `0..inputs_count`, the top operand first. A call that cannot take its
    /// arguments is refused before anything is changed.
    fn call(&mut self, address: usize, inputs_count: usize) -> (res: Result<(), RuntimeError>)
        ensures
            match res {
                Ok(()) => old(self)@.call(address, inputs_count) == Ok::<_, Fault>(final(self)@),
                Err(e) => old(self)@.call(address, inputs_count) == Err::<VmModel, _>(e@),
            },
            final(self).operations() == old(self).operations(),
            res is Err ==> final(self)@ == old(self)@,
    {
        let frames = self.state.frames_stack.len();
        if frames == 0 {
            return Err(RuntimeError::StackUnderflow);
        }
        let offset = self.state.frames_stack[frames - 1].stack_frame_end;
        let available = self.state.evaluation_stack.height();
        let room = usize::MAX - offset;
        proof {
            old(self)@.entered().lemma_arguments_fault(0, inputs_count);
        }
        if inputs_count > available || inputs_count > room {
            if available <= room {
                return Err(RuntimeError::StackUnderflow);
            } else {
                return Err(RuntimeError::StackOverflow);
            }
        }
        self.state.frames_stack.push(FunctionFrame::new(offset, self.state.instruction_counter));
        assert(self@.frames =~= old(self)@.entered().frames);
        let mut next: usize = 0;
        while next < inputs_count
            invariant
                next <= inputs_count,
                old(self)@.frames.len() > 0,
                old(self)@.entered().take_arguments(0, inputs_count) is Ok,
                self@.take_arguments(next, inputs_count) == old(self)@.entered().take_arguments(
                    0,
                    inputs_count,
                ),
                self.operations() == old(self).operations(),
            decreases inputs_count - next,
        {
            let ghost before = self@;
            let argument = match self.pop() {
                Ok(argument) => argument,
                Err(e) => {
                    assert(before.take_arguments(next, inputs_count) == Err::<VmModel, _>(e@));
                    return Err(e);
                },
            };
            match self.store(next, argument) {
                Ok(()) => {},
                Err(e) => {
                    assert(before.take_arguments(next, inputs_count) == Err::<VmModel, _>(e@));
                    return Err(e);
                },
            }
            assert(before.take_arguments(next, inputs_count) == self@.take_arguments(
                (next + 1) as usize,
                inputs_count,
            ));
            next = next + 1;
        }
        self.state.instruction_counter = address;
        Ok(())
    }

    /// Returns from the current function with the `outputs_count` top
    /// operands as its results: they are taken from the stack, the frame is
    /// given up, and they are put back as they lay. A return that lacks a
    /// result or a frame is refused before anything is changed.
    fn ret(&mut self, outputs_count: usize) -> (res: Result<(), RuntimeError>)
        ensures
            match res {
                Ok(()) => old(self)@.ret(outputs_count) == Ok::<_, Fault>(final(self)@),
                Err(e) => old(self)@.ret(outputs_count) == Err::<VmModel, _>(e@),
            },
            final(self).operations() == old(self).operations(),
            res is Err ==> final(self)@ == old(self)@,
    {
        if self.state.evaluation_stack.height() < outputs_count {
            return Err(RuntimeError::StackUnderflow);
        }
        if self.state.frames_stack.len() == 0 {
            return Err(RuntimeError::StackUnderflow);
        }
        let ghost level = old(self)@.evaluation.top();
        let mut outputs: Vec<Cell<P>> = Vec::new();
        let mut taken: usize = 0;
        assert(old(self)@.evaluation.with_top(level.take(level.len() as int))
            == old(self)@.evaluation) by {
            assert(level.take(level.len() as int) =~= level);
            assert(old(self)@.evaluation.with_top(level).arms =~= old(self)@.evaluation.arms);
        }
        while taken < outputs_count
            invariant
                taken <= outputs_count,
                outputs_count <= level.len(),
                old(self)@.frames.len() > 0,
                outputs.len() == taken,
                level == old(self)@.evaluation.top(),
                self@ == (VmModel {
                    evaluation: old(self)@.evaluation.with_top(level.take(level.len() - taken)),
                    ..old(self)@
                }),
                forall|j: int| 0 <= j < taken ==> outputs@[j]@ == level[level.len() - 1 - j],
                self.operations() == old(self).operations(),
            decreases outputs_count - taken,
        {
            let output = match self.pop() {
                Ok(output) => output,
                Err(e) => {
                    return Err(e);
                },
            };
            outputs.push(output);
            taken = taken + 1;
            assert(self@.evaluation.arms =~= old(self)@.evaluation.with_top(
                level.take(level.len() - taken),
            ).arms && self@.evaluation.base =~= old(self)@.evaluation.with_top(
                level.take(level.len() - taken),
            ).base) by {
                assert(level.take(level.len() - taken + 1).drop_last() =~= level.take(
                    level.len() - taken,
                ));
            }
        }
        let frame = match self.state.frames_stack.pop() {
            Some(frame) => frame,
            None => {
                return Err(RuntimeError::StackUnderflow);
            },
        };
        self.state.instruction_counter = frame.return_address;
        assert(self@.frames =~= old(self)@.frames.drop_last());
        let ghost returned = old(self)@.ret(outputs_count)->Ok_0;
        while outputs.len() > 0
            invariant
                outputs.len() <= level.len(),
                level == old(self)@.evaluation.top(),
                returned == old(self)@.ret(outputs_count)->Ok_0,
                self@ == (VmModel {
                    evaluation: old(self)@.evaluation.with_top(
                        level.take(level.len() - outputs.len()),
                    ),
                    ..returned
                }),
                forall|j: int|
                    0 <= j < outputs.len() ==> outputs@[j]@ == level[level.len() - 1 - j],
                self.operations() == old(self).operations(),
            decreases outputs.len(),
        {
            let ghost left = outputs.len();
            let output = outputs.pop().unwrap();
            let _ = self.push(output);
            assert(self@.evaluation.arms =~= old(self)@.evaluation.with_top(
                level.take(level.len() - outputs.len()),
            ).arms && self@.evaluation.base =~= old(self)@.evaluation.with_top(
                level.take(level.len() - outputs.len()),
            ).base) by {
                assert(level.take(level.len() - left).push(level[level.len() - left])
                    =~= level.take(level.len() - left + 1));
            }
        }
        Ok(())
    }

    /// Begins a conditional: pops its condition, combines it with the
    /// condition around it, and opens the then arm. A fault of the program
    /// leaves the machine as it was; the backend is asked for the one
    /// conjunction after that.
    fn branch_then(&mut self) -> (res: Result<(), RuntimeError>)
        ensures
            old(self)@.branch_then() matches Err(fault) ==> {
                &&& res matches Err(e) && e@ == fault
                &&& final(self)@ == old(self)@
                &&& final(self).operations() == old(self).operations()
            },
            res is Ok ==> old(self)@.branch_then() == Ok::<_, Fault>(final(self)@),
            old(self).operations().reliable() ==> final(self).operations().reliable(),
            old(self).operations().reliable() && old(self)@.branch_then() is Ok ==> res is Ok,
    {
        let condition = match self.pop() {
            Ok(Cell::Value(condition)) => condition,
            Ok(Cell::Uninitialized) => {
                let _ = self.push(Cell::Uninitialized);
                proof {
                    lemma_put_back(old(self)@.evaluation);
                }
                return Err(RuntimeError::UninitializedStorageAccess);
            },
            Err(e) => {
                return Err(e);
            },
        };
        let conditions = self.state.conditions_stack.len();
        if conditions == 0 || self.state.frames_stack.len() == 0 {
            let _ = self.push(Cell::Value(condition));
            proof {
                lemma_put_back(old(self)@.evaluation);
            }
            return Err(RuntimeError::StackUnderflow);
        }
        let around = self.state.conditions_stack[conditions - 1].duplicate();
        let combined = match self.operator.and(condition.duplicate(), around) {
            Ok(combined) => combined,
            Err(e) => {
                return Err(e);
            },
        };
        self.open_branch(condition, combined)
    }

    /// Begins the else arm of the innermost conditional. It runs under the
    /// conditions around the conditional and the negation of its own. A
    /// fault of the program leaves the machine as it was; the backend is
    /// asked for the negation and the conjunction after that.
    fn branch_else(&mut self) -> (res: Result<(), RuntimeError>)
        ensures
            old(self)@.branch_else() matches Err(fault) ==> {
                &&& res matches Err(e) && e@ == fault
                &&& final(self)@ == old(self)@
                &&& final(self).operations() == old(self).operations()
            },
            res is Ok ==> old(self)@.branch_else() == Ok::<_, Fault>(final(self)@),
            old(self).operations().reliable() ==> final(self).operations().reliable(),
            old(self).operations().reliable() && old(self)@.branch_else() is Ok ==> res is Ok,
    {
        let frames = self.state.frames_stack.len();
        if frames == 0 {
            return Err(missing_frame());
        }
        let blocks = self.state.frames_stack[frames - 1].blocks.len();
        if blocks == 0 {
            return Err(RuntimeError::UnexpectedElse);
        }
        assert(old(self)@.frame().blocks.last() == self.state.frames_stack@[frames
            - 1].blocks@[blocks - 1]@);
        let condition = match &self.state.frames_stack[frames - 1].blocks[blocks - 1] {
            Block::Branch(branch) => {
                if branch.is_full {
                    return Err(RuntimeError::UnexpectedElse);
                }
                branch.condition.duplicate()
            },
            Block::Loop(_) => {
                return Err(RuntimeError::UnexpectedElse);
            },
        };
        let conditions = self.state.conditions_stack.len();
        if conditions < 2 {
            return Err(RuntimeError::StackUnderflow);
        }
        if !self.state.data_stack.can_switch() {
            return Err(RuntimeError::UnexpectedElse);
        }
        let around = self.state.conditions_stack[conditions - 2].duplicate();
        let negated = match self.operator.not(condition) {
            Ok(negated) => negated,
            Err(e) => {
                return Err(e);
            },
        };
        let combined = match self.operator.and(around, negated) {
            Ok(combined) => combined,
            Err(e) => {
                return Err(e);
            },
        };
        self.open_else(combined)
    }

    /// Ends the innermost conditional. With an else arm, the evaluation
    /// stack and the data memory are merged by the conditional's own
    /// condition. Without one, the operands that the then arm left are
    /// dropped, and the data memory is merged with its cells from before the
    /// conditional.
    ///
    /// A fault of the program leaves the machine as it was. After that the
    /// backend is asked for one selection for each operand and each cell
    /// that holds a value in both arms, and the end fails only where the
    /// backend does: not at all where there is nothing to select, nor with a
    /// reliable backend.
    fn branch_end(&mut self) -> (res: Result<(), RuntimeError>)
        ensures
            old(self)@.branch_end() matches Err(fault) ==> {
                &&& res matches Err(e) && e@ == fault
                &&& final(self)@ == old(self)@
                &&& final(self).operations() == old(self).operations()
            },
            res is Ok ==> old(self)@.branch_end() == Ok::<_, Fault>(final(self)@),
            old(self)@.branch_end() is Ok && old(self)@.end_selects_nothing() ==> {
                &&& res is Ok
                &&& final(self).operations() == old(self).operations()
            },
            old(self).operations().reliable() ==> final(self).operations().reliable(),
            old(self).operations().reliable() && old(self)@.branch_end() is Ok ==> res is Ok,
    {
        if self.state.conditions_stack.len() == 0 {
            return Err(RuntimeError::StackUnderflow);
        }
        let frames = self.state.frames_stack.len();
        if frames == 0 {
            return Err(missing_frame());
        }
        let blocks = self.state.frames_stack[frames - 1].blocks.len();
        if blocks == 0 {
            return Err(RuntimeError::UnexpectedEndIf);
        }
        assert(old(self)@.frame().blocks.last() == self.state.frames_stack@[frames
            - 1].blocks@[blocks - 1]@);
        let (condition, is_full) = match &self.state.frames_stack[frames - 1].blocks[blocks - 1] {
            Block::Branch(branch) => (branch.condition.duplicate(), branch.is_full),
            Block::Loop(_) => {
                return Err(RuntimeError::UnexpectedEndIf);
            },
        };
        if is_full {
            if self.state.evaluation_stack.depth() < 2 {
                return Err(RuntimeError::StackUnderflow);
            }
            if !self.state.evaluation_stack.arms_match() {
                return Err(RuntimeError::BranchStacksDoNotMatch);
            }
        } else {
            if self.state.evaluation_stack.depth() == 0 {
                return Err(RuntimeError::StackUnderflow);
            }
        }
        if self.state.data_stack.depth() == 0 {
            return Err(RuntimeError::StackUnderflow);
        }
        if !self.state.data_stack.arms_match() {
            return Err(RuntimeError::BranchStacksDoNotMatch);
        }
        let _ = self.state.conditions_stack.pop();
        assert(values(self.state.conditions_stack@) =~= old(self)@.conditions.drop_last());
        let _ = self.pop_block();
        if is_full {
            match self.state.evaluation_stack.merge(condition.duplicate(), &mut self.operator) {
                Ok(()) => {},
                Err(e) => {
                    return Err(e);
                },
            }
        } else {
            let _ = self.state.evaluation_stack.revert();
        }
        self.state.data_stack.merge(condition, &mut self.operator)
    }

    /// Ends the program: the `outputs_count` top operands become its
    /// outputs, the top operand first, and the instruction counter leaves
    /// the program. An end that lacks an output is refused before anything
    /// is changed.
    fn exit(&mut self, outputs_count: usize) -> (res: Result<(), RuntimeError>)
        ensures
            match res {
                Ok(()) => old(self)@.exit(outputs_count) == Ok::<_, Fault>(final(self)@),
                Err(e) => old(self)@.exit(outputs_count) == Err::<VmModel, _>(e@),
            },
            final(self).operations() == old(self).operations(),
            res is Err ==> final(self)@ == old(self)@,
    {
        proof {
            old(self)@.lemma_exit_fault(outputs_count);
        }
        match self.state.evaluation_stack.check_values(outputs_count) {
            Ok(()) => {},
            Err(e) => {
                return Err(e);
            },
        }
        let mut left: usize = outputs_count;
        while left > 0
            invariant
                old(self)@.exit(outputs_count) is Ok,
                self@.exit(left) == old(self)@.exit(outputs_count),
                self.operations() == old(self).operations(),
            decreases left,
        {
            let value = match self.pop() {
                Ok(cell) => match cell.value() {
                    Ok(value) => value,
                    Err(e) => {
                        return Err(e);
                    },
                },
                Err(e) => {
                    return Err(e);
                },
            };
            let ghost popped = self@;
            self.outputs.push(value);
            assert(self@.outputs =~= popped.outputs.push(value.value()));
            left = left - 1;
        }
        self.state.instruction_counter = usize::MAX;
        Ok(())
    }
}

} // verus!
