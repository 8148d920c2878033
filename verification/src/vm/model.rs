//! The machine as the contracts see it.
//!
//! A value is seen as the integer it stands for, so that a state of the
//! machine is plain mathematics, and every operation of the machine is a
//! function from a state to the next one, or to the fault that the
//! operation ends in. The executable machine is proved against these
//! functions; the laws of the machine are proved of them.

use crate::primitive::negated_value;
use crate::primitive::quotient_value;
use crate::primitive::remainder_value;
use crate::primitive::BinaryOperator;
use crate::vm::cell::nothing_to_select;
use crate::vm::cell::Slot;
use crate::vm::error::missing_frame_text;
use crate::vm::error::Fault;
use crate::vm::evaluation_stack::values_fault;
use crate::vm::evaluation_stack::StackModel;
use crate::vm::memory::MemoryModel;
use vstd::prelude::*;

verus! {

/// An open loop or conditional.
pub enum BlockModel {
    Loop { first_instruction_index: usize, iterations_left: usize },
    Branch { condition: Option<int>, is_full: bool },
}

/// The index of the element that lies `offset` behind the one at `index`.
pub open spec fn element_index(index: int, offset: int) -> int {
    index + offset
}

/// The element of `array` at `index`: unknown where the index is, and where
/// it lies outside the array (which a backend refuses).
pub open spec fn element_value(array: Seq<Option<int>>, index: Option<int>) -> Option<int> {
    match index {
        Some(i) => if 0 <= i < array.len() {
            array[i]
        } else {
            None
        },
        None => None,
    }
}

/// The `count` elements of `array` from `index` on, as slots.
pub open spec fn sequence_read(array: Seq<Option<int>>, index: Option<int>, count: nat) -> Seq<
    Slot,
> {
    Seq::new(
        count,
        |i: int|
            Slot::Value(
                element_value(array, BinaryOperator::Add.value(index, Some(i))),
            ),
    )
}

impl BlockModel {
    /// The condition of a conditional; a loop has none.
    pub open spec fn condition(self) -> Option<int> {
        match self {
            BlockModel::Branch { condition, .. } => condition,
            BlockModel::Loop { .. } => None,
        }
    }
}

/// One activation of a function.
pub struct FrameModel {
    pub stack_frame_begin: usize,
    pub stack_frame_end: usize,
    pub return_address: usize,
    pub blocks: Seq<BlockModel>,
}

impl FrameModel {
    /// A frame that has stored nothing yet and has no open block.
    pub open spec fn new(stack_frame_begin: usize, return_address: usize) -> FrameModel {
        FrameModel {
            stack_frame_begin,
            stack_frame_end: stack_frame_begin,
            return_address,
            blocks: Seq::empty(),
        }
    }
}

/// A state of the machine.
pub struct VmModel {
    /// The index of the next instruction.
    pub instruction_counter: usize,
    /// For each open conditional arm, and below them for the program itself,
    /// whether the instructions there are really reached; the innermost last.
    pub conditions: Seq<Option<int>>,
    pub evaluation: StackModel,
    pub memory: MemoryModel,
    /// The function frames, the current one last.
    pub frames: Seq<FrameModel>,
    /// What the program has given out so far.
    pub outputs: Seq<Option<int>>,
}

impl StackModel {
    /// The stack after a conditional has been left: both arms merged where
    /// there is an else arm, the then arm dropped where there is none.
    pub open spec fn left(self, condition: Option<int>, is_full: bool) -> Result<StackModel, Fault> {
        if is_full {
            if self.arms.len() < 2 {
                Err(Fault::StackUnderflow)
            } else if !self.can_merge() {
                Err(Fault::BranchStacksDoNotMatch)
            } else {
                Ok(self.merged(condition))
            }
        } else {
            if self.arms.len() == 0 {
                Err(Fault::StackUnderflow)
            } else {
                Ok(self.reverted())
            }
        }
    }
}

impl MemoryModel {
    /// The memory after a conditional has been left.
    pub open spec fn left(self, condition: Option<int>) -> Result<MemoryModel, Fault> {
        if self.forks.len() == 0 {
            Err(Fault::StackUnderflow)
        } else if !self.can_merge() {
            Err(Fault::BranchStacksDoNotMatch)
        } else {
            Ok(self.merged(condition))
        }
    }
}

impl VmModel {
    /// The state of a machine that has not run yet.
    pub open spec fn initial() -> VmModel {
        VmModel {
            instruction_counter: 0,
            conditions: Seq::empty(),
            evaluation: StackModel::empty(),
            memory: MemoryModel::empty(),
            frames: Seq::empty(),
            outputs: Seq::empty(),
        }
    }

    /// The current frame.
    pub open spec fn frame(self) -> FrameModel {
        self.frames.last()
    }

    /// The state with another current frame in place of the present one.
    pub open spec fn with_frame(self, frame: FrameModel) -> VmModel {
        VmModel { frames: self.frames.update(self.frames.len() - 1, frame), ..self }
    }

    /// The state with other open blocks in the current frame.
    pub open spec fn with_blocks(self, blocks: Seq<BlockModel>) -> VmModel {
        self.with_frame(FrameModel { blocks, ..self.frame() })
    }

    /// The cell of the data memory that a local address of the current frame
    /// names.
    pub open spec fn absolute(self, address: usize) -> int {
        self.frame().stack_frame_begin + address
    }

    pub open spec fn push(self, slot: Slot) -> VmModel {
        VmModel { evaluation: self.evaluation.pushed(slot), ..self }
    }

    /// The state after the top operand has been taken.
    pub open spec fn popped(self) -> VmModel {
        VmModel { evaluation: self.evaluation.popped(), ..self }
    }

    /// Pop: the state without its top operand, and that operand.
    pub open spec fn pop(self) -> Result<(VmModel, Slot), Fault> {
        if !self.evaluation.can_pop() {
            Err(Fault::StackUnderflow)
        } else {
            Ok((self.popped(), self.evaluation.top().last()))
        }
    }

    /// Pop of an operand that has to be a value.
    pub open spec fn pop_value(self) -> Result<(VmModel, Option<int>), Fault> {
        match self.pop() {
            Err(fault) => Err(fault),
            Ok((state, Slot::Value(value))) => Ok((state, value)),
            Ok((_, Slot::Uninitialized)) => Err(Fault::UninitializedStorageAccess),
        }
    }

    /// Whether the current frame has stored up to the cell `offset` behind
    /// local address `address`, and the cell holds a value.
    pub open spec fn readable(self, address: usize, offset: int) -> bool {
        &&& self.absolute(address) + offset < self.frame().stack_frame_end
        &&& self.memory.readable(self.absolute(address) + offset)
    }

    /// Load from a local address of the current frame. The frame reads only
    /// what lies before its end: what it has stored itself, or was given as
    /// an argument.
    pub open spec fn load(self, address: usize) -> Result<Slot, Fault> {
        if self.frames.len() == 0 {
            Err(Fault::StackUnderflow)
        } else if !self.readable(address, 0) {
            Err(Fault::UninitializedStorageAccess)
        } else {
            Ok(self.memory.cells[self.absolute(address)])
        }
    }

    /// Load from a cell of the data memory.
    pub open spec fn load_global(self, address: int) -> Result<Slot, Fault> {
        if !self.memory.readable(address) {
            Err(Fault::UninitializedStorageAccess)
        } else {
            Ok(self.memory.cells[address])
        }
    }

    /// Store to a local address of the current frame. The frame's end moves
    /// behind the cell that was written, if it lay before it.
    pub open spec fn store(self, address: usize, slot: Slot) -> Result<VmModel, Fault> {
        if self.frames.len() == 0 {
            Err(Fault::StackUnderflow)
        } else if self.absolute(address) >= usize::MAX {
            Err(Fault::StackOverflow)
        } else {
            let cell = self.absolute(address);
            let end = if self.frame().stack_frame_end > cell {
                self.frame().stack_frame_end
            } else {
                (cell + 1) as usize
            };
            Ok(
                VmModel { memory: self.memory.stored(cell, slot), ..self }.with_frame(
                    FrameModel { stack_frame_end: end, ..self.frame() },
                ),
            )
        }
    }

    /// Store to a cell of the data memory. No frame changes.
    pub open spec fn store_global(self, address: usize, slot: Slot) -> Result<VmModel, Fault> {
        if address == usize::MAX {
            Err(Fault::StackOverflow)
        } else {
            Ok(VmModel { memory: self.memory.stored(address as int, slot), ..self })
        }
    }

    /// The state with `slots` put on the evaluation stack, the last of them
    /// on top.
    pub open spec fn push_all(self, slots: Seq<Slot>) -> VmModel {
        VmModel { evaluation: self.evaluation.with_top(self.evaluation.top() + slots), ..self }
    }

    /// An instruction that takes two operands and gives one: the top operand
    /// is the left one.
    pub open spec fn binary(self, operator: BinaryOperator) -> Result<VmModel, Fault> {
        match self.pop_value() {
            Err(fault) => Err(fault),
            Ok((state, left)) => match state.pop_value() {
                Err(fault) => Err(fault),
                Ok((rest, right)) => Ok(rest.push(Slot::Value(operator.value(left, right)))),
            },
        }
    }

    /// An instruction that divides the top operand by the one below it and
    /// gives the quotient, or the remainder. (A divisor known to be zero is
    /// refused by the backend.)
    pub open spec fn divide(self, remainder: bool) -> Result<VmModel, Fault> {
        match self.pop_value() {
            Err(fault) => Err(fault),
            Ok((state, left)) => match state.pop_value() {
                Err(fault) => Err(fault),
                Ok((rest, right)) => Ok(
                    rest.push(
                        Slot::Value(
                            if remainder {
                                remainder_value(left, right)
                            } else {
                                quotient_value(left, right)
                            },
                        ),
                    ),
                ),
            },
        }
    }

    /// What a reliable backend refuses of a division: a divisor known to be
    /// zero.
    pub open spec fn division_refused(self) -> Option<Fault> {
        match self.pop_value() {
            Ok((state, _)) => match state.pop_value() {
                Ok((_, right)) => if right == Some(0int) {
                    Some(Fault::InvalidArguments)
                } else {
                    None
                },
                Err(_) => None,
            },
            Err(_) => None,
        }
    }

    /// What a reliable backend refuses of a read of `value_len` elements of
    /// an array of `array_len` elements: an index known to lead outside the
    /// array for one of them.
    pub open spec fn sequence_refused(self, array_len: usize, value_len: usize) -> Option<Fault> {
        match self.pop_value() {
            Ok((_, Some(index))) => if exists|i: int|
                0 <= i < value_len && !(0 <= #[trigger] element_index(index, i) < array_len) {
                Some(Fault::IndexOutOfBounds)
            } else {
                None
            },
            _ => None,
        }
    }

    /// The instruction that negates its operand.
    pub open spec fn negate(self) -> Result<VmModel, Fault> {
        match self.pop_value() {
            Err(fault) => Err(fault),
            Ok((state, element)) => Ok(state.push(Slot::Value(negated_value(element)))),
        }
    }

    /// Whether the `length` cells from local address `address` on all hold
    /// values.
    pub open spec fn array_readable(self, address: usize, length: usize) -> bool {
        forall|i: int| 0 <= i < length ==> #[trigger] self.readable(address, i)
    }

    /// The values of the `length` cells from local address `address` on.
    pub open spec fn array(self, address: usize, length: usize) -> Seq<Option<int>> {
        Seq::new(
            length as nat,
            |i: int|
                match self.memory.cells[self.absolute(address) + i] {
                    Slot::Value(value) => value,
                    Slot::Uninitialized => None,
                },
        )
    }

    /// The instruction that reads `value_len` elements of an array from an
    /// index that is itself an operand. The first element read ends on top
    /// of the stack.
    pub open spec fn load_sequence_by_index(
        self,
        address: usize,
        array_len: usize,
        value_len: usize,
    ) -> Result<VmModel, Fault> {
        match self.pop_value() {
            Err(fault) => Err(fault),
            Ok((state, index)) => {
                if array_len > 0 && state.frames.len() == 0 {
                    Err(Fault::StackUnderflow)
                } else if !state.array_readable(address, array_len) {
                    Err(Fault::UninitializedStorageAccess)
                } else {
                    Ok(
                        state.push_all(
                            sequence_read(
                                state.array(address, array_len),
                                index,
                                value_len as nat,
                            ).reverse(),
                        ),
                    )
                }
            },
        }
    }

    /// The beginning of a loop of `iterations` passes. The instruction
    /// counter stands at the first instruction of the body, which is the
    /// first pass; the passes after it are counted in the block.
    pub open spec fn loop_begin(self, iterations: usize) -> Result<VmModel, Fault> {
        if self.frames.len() == 0 {
            Err(Fault::Internal(missing_frame_text()))
        } else if iterations == 0 {
            Err(Fault::InvalidArguments)
        } else {
            Ok(
                self.with_blocks(
                    self.frame().blocks.push(
                        BlockModel::Loop {
                            first_instruction_index: self.instruction_counter,
                            iterations_left: (iterations - 1) as usize,
                        },
                    ),
                ),
            )
        }
    }

    /// The end of a loop body: back to its first instruction while a pass is
    /// left, on behind the loop when none is.
    pub open spec fn loop_end(self) -> Result<VmModel, Fault> {
        if self.frames.len() == 0 {
            Err(Fault::Internal(missing_frame_text()))
        } else if self.frame().blocks.len() == 0 {
            Err(Fault::UnexpectedLoopEnd)
        } else {
            match self.frame().blocks.last() {
                BlockModel::Loop { first_instruction_index, iterations_left } => {
                    if iterations_left != 0 {
                        Ok(
                            VmModel {
                                instruction_counter: first_instruction_index,
                                ..self.with_blocks(
                                    self.frame().blocks.drop_last().push(
                                        BlockModel::Loop {
                                            first_instruction_index,
                                            iterations_left: (iterations_left - 1) as usize,
                                        },
                                    ),
                                )
                            },
                        )
                    } else {
                        Ok(self.with_blocks(self.frame().blocks.drop_last()))
                    }
                },
                BlockModel::Branch { .. } => Err(Fault::UnexpectedLoopEnd),
            }
        }
    }

    /// The state in which a called function finds itself, before it has
    /// taken its arguments: a new frame that begins where the caller's ends.
    pub open spec fn entered(self) -> VmModel {
        VmModel {
            frames: self.frames.push(
                FrameModel::new(self.frame().stack_frame_end, self.instruction_counter),
            ),
            ..self
        }
    }

    /// The arguments from number `next` on: each is popped and stored at the
    /// local address of its number.
    pub open spec fn take_arguments(self, next: usize, inputs_count: usize) -> Result<
        VmModel,
        Fault,
    >
        decreases inputs_count - next,
    {
        if next >= inputs_count {
            Ok(self)
        } else {
            match self.pop() {
                Err(fault) => Err(fault),
                Ok((state, slot)) => match state.store(next, slot) {
                    Err(fault) => Err(fault),
                    Ok(stored) => stored.take_arguments((next + 1) as usize, inputs_count),
                },
            }
        }
    }

    /// Why the arguments from number `next` on cannot be taken, if they
    /// cannot: the operands end before the arguments do, or the cells of the
    /// data memory do; where both end, what ends first decides, and the
    /// operands decide where they end together.
    pub open spec fn arguments_fault(self, next: usize, inputs_count: usize) -> Option<Fault> {
        let count = inputs_count - next;
        let available = self.evaluation.top().len();
        let behind = usize::MAX - self.frame().stack_frame_begin - next;
        let room = if behind < 0 {
            0
        } else {
            behind
        };
        if count <= available && count <= room {
            None
        } else if available <= room {
            Some(Fault::StackUnderflow)
        } else {
            Some(Fault::StackOverflow)
        }
    }

    /// The arguments are taken exactly where `arguments_fault` finds no
    /// fault, and the fault is the one it finds.
    pub proof fn lemma_arguments_fault(self, next: usize, inputs_count: usize)
        requires
            self.frames.len() > 0,
        ensures
            match self.arguments_fault(next, inputs_count) {
                None => self.take_arguments(next, inputs_count) is Ok,
                Some(fault) => self.take_arguments(next, inputs_count) == Err::<VmModel, _>(fault),
            },
        decreases inputs_count - next,
    {
        if next < inputs_count {
            let level = self.evaluation.top();
            if level.len() > 0 {
                let popped = self.popped();
                assert(popped.evaluation.top() =~= level.drop_last());
                if let Ok(stored) = popped.store(next, level.last()) {
                    assert(stored.evaluation == popped.evaluation);
                    assert(stored.frame().stack_frame_begin == self.frame().stack_frame_begin);
                    stored.lemma_arguments_fault((next + 1) as usize, inputs_count);
                }
            }
        }
    }

    /// A call succeeds exactly where a frame is open, the current level
    /// holds the arguments, and the data memory has cells for them behind
    /// the caller's frame.
    pub proof fn lemma_call_succeeds(self, address: usize, inputs_count: usize)
        ensures
            self.call(address, inputs_count) is Ok <==> {
                &&& self.frames.len() > 0
                &&& inputs_count > 0 ==> {
                    &&& inputs_count <= self.evaluation.top().len()
                    &&& self.frame().stack_frame_end + inputs_count <= usize::MAX
                }
            },
    {
        if self.frames.len() > 0 {
            self.entered().lemma_arguments_fault(0, inputs_count);
        }
    }

    /// The outputs are taken at the end of a program exactly where the
    /// current level holds that many values on top, and the fault is the one
    /// of the first operand that cannot be taken.
    pub proof fn lemma_exit_fault(self, outputs_count: usize)
        ensures
            match values_fault(self.evaluation.top(), outputs_count as nat) {
                None => self.exit(outputs_count) is Ok,
                Some(fault) => self.exit(outputs_count) == Err::<VmModel, _>(fault),
            },
        decreases outputs_count,
    {
        if outputs_count > 0 {
            let level = self.evaluation.top();
            if level.len() > 0 && level.last() is Value {
                let popped = self.pop_value()->Ok_0.0;
                let value = self.pop_value()->Ok_0.1;
                assert(popped.evaluation.top() =~= level.drop_last());
                let next = VmModel { outputs: popped.outputs.push(value), ..popped };
                next.lemma_exit_fault((outputs_count - 1) as usize);
            }
        }
    }

    /// A call of the function at `address` with `inputs_count` arguments.
    pub open spec fn call(self, address: usize, inputs_count: usize) -> Result<VmModel, Fault> {
        if self.frames.len() == 0 {
            Err(Fault::StackUnderflow)
        } else {
            match self.entered().take_arguments(0, inputs_count) {
                Err(fault) => Err(fault),
                Ok(state) => Ok(VmModel { instruction_counter: address, ..state }),
            }
        }
    }

    /// The return from a function with `outputs_count` results. The results
    /// stay on the evaluation stack as they lie.
    pub open spec fn ret(self, outputs_count: usize) -> Result<VmModel, Fault> {
        if self.evaluation.top().len() < outputs_count {
            Err(Fault::StackUnderflow)
        } else if self.frames.len() == 0 {
            Err(Fault::StackUnderflow)
        } else {
            Ok(
                VmModel {
                    instruction_counter: self.frame().return_address,
                    frames: self.frames.drop_last(),
                    ..self
                },
            )
        }
    }

    /// A conditional opened by `condition`, whose then arm runs under
    /// `combined`: the condition is kept in a new block, `combined` becomes
    /// the innermost condition, and the evaluation stack and the data memory
    /// are forked.
    pub open spec fn branch_opened(self, condition: Option<int>, combined: Option<int>) -> Result<
        VmModel,
        Fault,
    > {
        if self.frames.len() == 0 {
            Err(Fault::StackUnderflow)
        } else {
            Ok(
                VmModel {
                    conditions: self.conditions.push(combined),
                    evaluation: self.evaluation.forked(),
                    memory: self.memory.forked(),
                    ..self.with_blocks(
                        self.frame().blocks.push(BlockModel::Branch { condition, is_full: false }),
                    )
                },
            )
        }
    }

    /// The beginning of a conditional: its condition is popped, and its then
    /// arm runs under that condition and the conditions around it.
    pub open spec fn branch_then(self) -> Result<VmModel, Fault> {
        match self.pop_value() {
            Err(fault) => Err(fault),
            Ok((state, condition)) => {
                if state.conditions.len() == 0 {
                    Err(Fault::StackUnderflow)
                } else {
                    state.branch_opened(
                        condition,
                        BinaryOperator::And.value(condition, state.conditions.last()),
                    )
                }
            },
        }
    }

    /// The else arm of the innermost conditional, which runs under
    /// `combined`: the block is marked full, `combined` takes the place of the
    /// then arm's condition, the data memory goes back to its cells from
    /// before the conditional, and the evaluation stack gets a level for the
    /// arm.
    pub open spec fn else_opened(self, combined: Option<int>) -> Result<VmModel, Fault> {
        if self.frames.len() == 0 {
            Err(Fault::Internal(missing_frame_text()))
        } else if self.frame().blocks.len() == 0 {
            Err(Fault::UnexpectedElse)
        } else {
            match self.frame().blocks.last() {
                BlockModel::Branch { condition, is_full: false } => {
                    if self.conditions.len() < 2 {
                        Err(Fault::StackUnderflow)
                    } else if !self.memory.can_switch() {
                        Err(Fault::UnexpectedElse)
                    } else {
                        Ok(
                            VmModel {
                                conditions: self.conditions.drop_last().push(combined),
                                evaluation: self.evaluation.forked(),
                                memory: self.memory.switched(),
                                ..self.with_blocks(
                                    self.frame().blocks.drop_last().push(
                                        BlockModel::Branch { condition, is_full: true },
                                    ),
                                )
                            },
                        )
                    }
                },
                _ => Err(Fault::UnexpectedElse),
            }
        }
    }

    /// The condition under which the else arm of the innermost conditional
    /// runs: the conditions around the conditional, and not its own.
    pub open spec fn else_condition(self) -> Option<int> {
        BinaryOperator::And.value(
            self.conditions[self.conditions.len() - 2],
            negated_value(self.frame().blocks.last().condition()),
        )
    }

    /// The beginning of the else arm of the innermost conditional.
    pub open spec fn branch_else(self) -> Result<VmModel, Fault> {
        self.else_opened(self.else_condition())
    }

    /// Whether the end of the innermost conditional has nothing to select:
    /// no cell of the data memory holds a value in both arms, and, where
    /// there is an else arm, no operand does.
    pub open spec fn end_selects_nothing(self) -> bool {
        match self.frame().blocks.last() {
            BlockModel::Branch { is_full, .. } => {
                &&& nothing_to_select(self.memory.then_cells(), self.memory.else_cells())
                &&& is_full ==> nothing_to_select(
                    self.evaluation.then_level(),
                    self.evaluation.else_level(),
                )
            },
            BlockModel::Loop { .. } => false,
        }
    }

    /// The end of the innermost conditional.
    pub open spec fn branch_end(self) -> Result<VmModel, Fault> {
        if self.conditions.len() == 0 {
            Err(Fault::StackUnderflow)
        } else if self.frames.len() == 0 {
            Err(Fault::Internal(missing_frame_text()))
        } else if self.frame().blocks.len() == 0 {
            Err(Fault::UnexpectedEndIf)
        } else {
            match self.frame().blocks.last() {
                BlockModel::Branch { condition, is_full } => {
                    match self.evaluation.left(condition, is_full) {
                        Err(fault) => Err(fault),
                        Ok(evaluation) => match self.memory.left(condition) {
                            Err(fault) => Err(fault),
                            Ok(memory) => Ok(
                                VmModel {
                                    conditions: self.conditions.drop_last(),
                                    evaluation,
                                    memory,
                                    ..self.with_blocks(self.frame().blocks.drop_last())
                                },
                            ),
                        },
                    }
                },
                BlockModel::Loop { .. } => Err(Fault::UnexpectedEndIf),
            }
        }
    }

    /// The end of the program with `outputs_count` outputs: they are popped
    /// into the outputs, the top operand first, and the instruction counter
    /// leaves the program.
    pub open spec fn exit(self, outputs_count: usize) -> Result<VmModel, Fault>
        decreases outputs_count,
    {
        if outputs_count == 0 {
            Ok(VmModel { instruction_counter: usize::MAX, ..self })
        } else {
            match self.pop_value() {
                Err(fault) => Err(fault),
                Ok((state, value)) => VmModel {
                    outputs: state.outputs.push(value),
                    ..state
                }.exit((outputs_count - 1) as usize),
            }
        }
    }
}

} // verus!
