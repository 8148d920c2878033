//! Laws of the machine, proved of its model.
//!
//! An arm of a conditional, the body of a loop or the code of a called
//! function may be any code at all: a law that speaks of one takes the state
//! in which that code ended as it comes, and asks of it only what the law
//! says.

use crate::instructions::Instruction;
use crate::vm::cell::merged_slot;
use crate::vm::cell::merged_slots;
use crate::vm::cell::same_shape;
use crate::vm::cell::Slot;
use crate::vm::error::Fault;
use crate::vm::evaluation_stack::StackModel;
use crate::vm::model::BlockModel;
use crate::vm::model::FrameModel;
use crate::vm::model::VmModel;
use vstd::prelude::*;

verus! {

/// The condition that opens a conditional begun in `state`: the value of the
/// top operand.
pub open spec fn opening_condition(state: VmModel) -> Option<int> {
    match state.evaluation.top().last() {
        Slot::Value(value) => value,
        Slot::Uninitialized => None,
    }
}

/// The code of an arm has run from `begun` to `done` and has closed what it
/// opened: the conditions, the frames with their blocks, the forks of the
/// data memory and the levels of the evaluation stack below its own are as
/// it found them.
pub open spec fn arm_ran(begun: VmModel, done: VmModel) -> bool {
    &&& done.conditions == begun.conditions
    &&& done.frames == begun.frames
    &&& done.memory.forks == begun.memory.forks
    &&& done.evaluation.base == begun.evaluation.base
    &&& done.evaluation.arms.len() == begun.evaluation.arms.len()
    &&& done.evaluation.arms.drop_last() == begun.evaluation.arms.drop_last()
}

/// Branch merge. After `if C { X } else { Y }`, every cell of the data
/// memory holds the selection by `C` between what `X` left there and what
/// `Y` left there: where `C` is known, the cell of `X` if it is true and
/// that of `Y` if it is false. `Y` has started from the memory as it was
/// before the conditional, and the conditions and forks are again what they
/// were before it. The operands that the arms left are merged in the same
/// way, onto what lay below the condition. The arms may hold conditionals
/// of their own.
pub proof fn lemma_branch_merge(
    before: VmModel,
    then_begun: VmModel,
    then_done: VmModel,
    else_begun: VmModel,
    else_done: VmModel,
    after: VmModel,
)
    requires
        before.branch_then() == Ok::<_, Fault>(then_begun),
        arm_ran(then_begun, then_done),
        then_done.branch_else() == Ok::<_, Fault>(else_begun),
        arm_ran(else_begun, else_done),
        else_done.branch_end() == Ok::<_, Fault>(after),
    ensures
        else_begun.memory.cells == before.memory.cells,
        same_shape(then_done.memory.cells, else_done.memory.cells),
        after.memory.cells.len() == then_done.memory.cells.len(),
        forall|cell: int|
            0 <= cell < after.memory.cells.len() ==> #[trigger] after.memory.cells[cell]
                == merged_slot(
                opening_condition(before),
                then_done.memory.cells[cell],
                else_done.memory.cells[cell],
            ),
        opening_condition(before) matches Some(c) ==> forall|cell: int|
            0 <= cell < after.memory.cells.len() ==> #[trigger] after.memory.cells[cell] == if c
                != 0 {
                then_done.memory.cells[cell]
            } else {
                else_done.memory.cells[cell]
            },
        after.memory.forks == before.memory.forks,
        after.conditions == before.conditions,
        after.frames == before.frames,
        same_shape(then_done.evaluation.top(), else_done.evaluation.top()),
        after.evaluation == before.evaluation.popped().with_top(
            before.evaluation.popped().top() + merged_slots(
                opening_condition(before),
                then_done.evaluation.top(),
                else_done.evaluation.top(),
            ),
        ),
{
    let popped = before.popped();
    let condition = opening_condition(before);
    let ending = else_done.evaluation;
    assert(then_done.evaluation.arms.len() == popped.evaluation.arms.len() + 1);
    assert(ending.arms.len() == popped.evaluation.arms.len() + 2);
    assert(ending.arms.drop_last() == then_done.evaluation.arms);
    assert(ending.then_level() == then_done.evaluation.top()) by {
        assert(ending.arms.drop_last()[ending.arms.len() - 2] == ending.arms[ending.arms.len()
            - 2]);
    }
    assert(ending.else_level() == ending.top());
    assert(else_begun.frame().blocks.last() == BlockModel::Branch { condition, is_full: true });
    assert(else_done.evaluation.left(condition, true) is Ok);
    assert(ending.can_merge());
    let below = StackModel { arms: ending.arms.take(ending.arms.len() - 2), ..ending };
    assert(below.arms =~= popped.evaluation.arms) by {
        assert(then_done.evaluation.arms.drop_last() =~= popped.evaluation.arms);
        assert(ending.arms.take(ending.arms.len() - 2) =~= ending.arms.drop_last().drop_last());
    }
    assert(below == popped.evaluation);
    assert(after.evaluation == ending.merged(condition));
    assert(then_begun.frame().blocks.last() == BlockModel::Branch { condition, is_full: false });
    assert(then_begun.memory.forks.drop_last() =~= before.memory.forks);
    assert(else_begun.memory.forks.drop_last() =~= before.memory.forks);
    assert(after.conditions =~= before.conditions);
    assert(after.frames =~= before.frames) by {
        assert(then_begun.frame().blocks.drop_last() =~= before.frame().blocks);
        assert(else_begun.frame().blocks.drop_last() =~= before.frame().blocks);
    }
}

/// A conditional without an else arm keeps what was there. After
/// `if C { X }`, every cell of the data memory holds the selection by `C`
/// between what `X` left there and what it held before: with `C` false the
/// cell is as it was before the conditional, with `C` true it is as `X` left
/// it. A load from a local address finds the same. The operands that `X`
/// left on the evaluation stack are gone.
pub proof fn lemma_conditional_without_else(
    before: VmModel,
    then_begun: VmModel,
    then_done: VmModel,
    after: VmModel,
)
    requires
        before.branch_then() == Ok::<_, Fault>(then_begun),
        arm_ran(then_begun, then_done),
        then_done.branch_end() == Ok::<_, Fault>(after),
    ensures
        same_shape(then_done.memory.cells, before.memory.cells),
        forall|cell: int|
            0 <= cell < after.memory.cells.len() ==> #[trigger] after.memory.cells[cell]
                == merged_slot(
                opening_condition(before),
                then_done.memory.cells[cell],
                before.memory.cells[cell],
            ),
        forall|address: usize|
            opening_condition(before) == Some(0int) ==> #[trigger] after.load(address)
                == before.load(address),
        opening_condition(before) matches Some(c) ==> forall|address: usize|
            c != 0 ==> #[trigger] after.load(address) == then_done.load(address),
        after.evaluation == before.evaluation.popped(),
        after.memory.forks == before.memory.forks,
        after.conditions == before.conditions,
        after.frames == before.frames,
{
    let condition = opening_condition(before);
    assert(then_begun.frame().blocks.last() == BlockModel::Branch { condition, is_full: false });
    assert(then_begun.memory.forks.drop_last() =~= before.memory.forks);
    assert(after.conditions =~= before.conditions);
    assert(after.frames =~= before.frames) by {
        assert(then_begun.frame().blocks.drop_last() =~= before.frame().blocks);
    }
    assert(after.evaluation.arms =~= before.evaluation.popped().arms);
}

/// Arms that leave different numbers of operands cannot be merged: the end
/// of a conditional with both arms is then refused, whatever the backend
/// would say.
pub proof fn lemma_uneven_arms_are_refused(state: VmModel)
    requires
        state.conditions.len() > 0,
        state.frames.len() > 0,
        state.frame().blocks.len() > 0,
        state.frame().blocks.last() matches BlockModel::Branch { is_full: true, .. },
        state.evaluation.arms.len() >= 2,
        state.evaluation.then_level().len() != state.evaluation.else_level().len(),
    ensures
        state.branch_end() == Err::<VmModel, _>(Fault::BranchStacksDoNotMatch),
{
}

/// The state after `passes` passes of a loop that was begun in `begun`:
/// each pass is the body, which may be any code, and then the end of the
/// loop.
pub open spec fn looped(begun: VmModel, body: spec_fn(VmModel) -> VmModel, passes: nat) -> Result<
    VmModel,
    Fault,
>
    decreases passes,
{
    if passes == 0 {
        Ok(begun)
    } else {
        match looped(begun, body, (passes - 1) as nat) {
            Ok(state) => body(state).loop_end(),
            Err(fault) => Err(fault),
        }
    }
}

/// The code of a body closes what it opens: it leaves the frames and their
/// blocks as it found them.
pub open spec fn keeps_frames(body: spec_fn(VmModel) -> VmModel) -> bool {
    forall|state: VmModel| (#[trigger] body(state)).frames == state.frames
}

/// Loop unrolling is exact. A loop begun for `iterations` passes, one at
/// least, runs its body exactly that many times: after each pass but the
/// last the instruction counter stands at the first instruction of the body
/// again and one pass fewer is left; after the last pass the loop is closed
/// and the instruction counter is where the body left it.
pub proof fn lemma_loop_unrolling(
    before: VmModel,
    iterations: usize,
    body: spec_fn(VmModel) -> VmModel,
    passes: nat,
)
    requires
        before.frames.len() > 0,
        iterations >= 1,
        keeps_frames(body),
        passes <= iterations,
    ensures
        before.loop_begin(iterations) matches Ok(begun) && looped(begun, body, passes) matches Ok(
            state,
        ) && if passes < iterations {
            &&& state.frames == before.with_blocks(
                before.frame().blocks.push(
                    BlockModel::Loop {
                        first_instruction_index: before.instruction_counter,
                        iterations_left: (iterations - 1 - passes) as usize,
                    },
                ),
            ).frames
            &&& state.instruction_counter == before.instruction_counter
        } else {
            state == (VmModel {
                frames: before.frames,
                ..body(looped(begun, body, (passes - 1) as nat)->Ok_0)
            })
        },
    decreases passes,
{
    let begun = before.loop_begin(iterations)->Ok_0;
    if passes > 0 {
        lemma_loop_unrolling(before, iterations, body, (passes - 1) as nat);
        let earlier = looped(begun, body, (passes - 1) as nat)->Ok_0;
        let ran = body(earlier);
        assert(ran.frames == earlier.frames);
        let blocks = before.frame().blocks.push(
            BlockModel::Loop {
                first_instruction_index: before.instruction_counter,
                iterations_left: (iterations - passes) as usize,
            },
        );
        assert(ran.frame().blocks == blocks);
        assert(blocks.drop_last() =~= before.frame().blocks);
        let state = ran.loop_end()->Ok_0;
        if passes < iterations {
            assert(state.frames =~= before.with_blocks(
                before.frame().blocks.push(
                    BlockModel::Loop {
                        first_instruction_index: before.instruction_counter,
                        iterations_left: (iterations - 1 - passes) as usize,
                    },
                ),
            ).frames);
        } else {
            assert(state.frames =~= before.frames);
        }
    }
}

/// The frames lie in the data memory one behind another: each ends at or
/// behind its beginning, and at or before the beginning of every frame that
/// was opened later.
pub open spec fn frames_in_order(frames: Seq<FrameModel>) -> bool {
    &&& forall|i: int|
        0 <= i < frames.len() ==> (#[trigger] frames[i]).stack_frame_begin
            <= frames[i].stack_frame_end
    &&& forall|i: int, j: int|
        0 <= i < j < frames.len() ==> (#[trigger] frames[i]).stack_frame_end
            <= (#[trigger] frames[j]).stack_frame_begin
}

/// What taking the arguments from number `next` on does to a state.
proof fn lemma_take_arguments(state: VmModel, next: usize, inputs_count: usize)
    requires
        state.frames.len() > 0,
        next <= inputs_count,
        state.take_arguments(next, inputs_count) is Ok,
    ensures
        ({
            let taken = state.take_arguments(next, inputs_count)->Ok_0;
            let level = state.evaluation.top();
            let count = inputs_count - next;
            let begin = state.frame().stack_frame_begin;
            &&& level.len() >= count
            &&& count > 0 ==> begin + inputs_count <= usize::MAX
            &&& taken.evaluation == state.evaluation.with_top(level.take(level.len() - count))
            &&& taken.instruction_counter == state.instruction_counter
            &&& taken.conditions == state.conditions
            &&& taken.outputs == state.outputs
            &&& taken.memory.forks == state.memory.forks
            &&& taken.frames.len() == state.frames.len()
            &&& taken.frames.drop_last() == state.frames.drop_last()
            &&& taken.frame() == (FrameModel {
                stack_frame_end: if count > 0 && state.frame().stack_frame_end < begin
                    + inputs_count {
                    (begin + inputs_count) as usize
                } else {
                    state.frame().stack_frame_end
                },
                ..state.frame()
            })
            &&& taken.memory.cells.len() >= state.memory.cells.len()
            &&& count > 0 ==> taken.memory.cells.len() >= begin + inputs_count
            &&& forall|i: int|
                next <= i < inputs_count ==> #[trigger] taken.memory.cells[begin + i]
                    == level[level.len() - 1 - (i - next)]
            &&& forall|cell: int|
                0 <= cell < state.memory.cells.len() && !(begin + next <= cell < begin
                    + inputs_count) ==> #[trigger] taken.memory.cells[cell]
                    == state.memory.cells[cell]
            &&& forall|cell: int|
                state.memory.cells.len() <= cell < taken.memory.cells.len() && !(begin + next
                    <= cell < begin + inputs_count)
                    ==> #[trigger] taken.memory.cells[cell] is Uninitialized
        }),
    decreases inputs_count - next,
{
    let level = state.evaluation.top();
    let begin = state.frame().stack_frame_begin;
    if next < inputs_count {
        let popped = state.popped();
        let slot = level.last();
        let stored = popped.store(next, slot)->Ok_0;
        assert(stored.frames.drop_last() =~= state.frames.drop_last());
        lemma_take_arguments(stored, (next + 1) as usize, inputs_count);
        let taken = state.take_arguments(next, inputs_count)->Ok_0;
        assert(taken == stored.take_arguments((next + 1) as usize, inputs_count)->Ok_0);
        let shorter = level.drop_last();
        assert(popped.evaluation.top() =~= shorter);
        assert(stored.evaluation == popped.evaluation);
        let count = inputs_count - next;
        assert(level.len() >= count);
        assert(shorter.take(shorter.len() - (count - 1)) =~= level.take(level.len() - count));
        assert(taken.evaluation.base =~= state.evaluation.with_top(
            level.take(level.len() - count),
        ).base);
        assert(taken.evaluation.arms =~= state.evaluation.with_top(
            level.take(level.len() - count),
        ).arms);
        assert(taken.evaluation == state.evaluation.with_top(level.take(level.len() - count)));
        assert(taken.frames.drop_last() =~= state.frames.drop_last());
        assert(stored.memory.cells.len() >= state.memory.cells.len());
        assert(stored.memory.cells[begin + next] == slot);
        assert forall|i: int| next <= i < inputs_count implies #[trigger] taken.memory.cells[begin
            + i] == level[level.len() - 1 - (i - next)] by {
            if i == next {
            } else {
                assert(shorter[shorter.len() - 1 - (i - (next + 1))] == level[level.len() - 1 - (i
                    - next)]);
            }
        }
        assert forall|cell: int|
            0 <= cell < state.memory.cells.len() && !(begin + next <= cell < begin
                + inputs_count) implies #[trigger] taken.memory.cells[cell]
            == state.memory.cells[cell] by {
            assert(stored.memory.cells[cell] == state.memory.cells[cell]);
        }
        assert forall|cell: int|
            state.memory.cells.len() <= cell < taken.memory.cells.len() && !(begin + next
                <= cell < begin + inputs_count) implies #[trigger] taken.memory.cells[cell]
            is Uninitialized by {
            if cell < stored.memory.cells.len() {
                assert(stored.memory.cells[cell] is Uninitialized);
            }
        }
    } else {
        assert(level.take(level.len() as int) =~= level);
        assert(state.evaluation.with_top(level).arms =~= state.evaluation.arms);
    }
}

/// A called function finds its arguments in its locals. A call with
/// `inputs_count` arguments takes that many operands from the top level of
/// the evaluation stack, and local address `i` of the new frame holds the
/// operand that lay `i` below the top. The new frame begins where the
/// caller's ends, and no cell before that has changed.
pub proof fn lemma_call_receives_arguments(before: VmModel, address: usize, inputs_count: usize)
    requires
        before.call(address, inputs_count) is Ok,
    ensures
        ({
            let called = before.call(address, inputs_count)->Ok_0;
            let level = before.evaluation.top();
            let begin = before.frame().stack_frame_end;
            &&& level.len() >= inputs_count
            &&& called.instruction_counter == address
            &&& called.evaluation == before.evaluation.with_top(
                level.take(level.len() - inputs_count),
            )
            &&& called.frames.len() == before.frames.len() + 1
            &&& called.frames.drop_last() == before.frames
            &&& called.frame().stack_frame_begin == begin
            &&& called.frame().stack_frame_end == begin + inputs_count
            &&& called.frame().return_address == before.instruction_counter
            &&& called.frame().blocks == Seq::<BlockModel>::empty()
            &&& inputs_count > 0 ==> called.memory.cells.len() >= begin + inputs_count
            &&& forall|i: int|
                0 <= i < inputs_count ==> #[trigger] called.memory.cells[begin + i] == level[level.len()
                    - 1 - i]
            &&& forall|i: usize|
                i < inputs_count ==> #[trigger] called.load_global(begin + i) == Ok::<_, Fault>(
                    level[level.len() - 1 - i],
                ) || level[level.len() - 1 - i] is Uninitialized
            &&& forall|cell: int|
                0 <= cell < before.memory.cells.len() && cell < begin
                    ==> #[trigger] called.memory.cells[cell] == before.memory.cells[cell]
            &&& called.memory.cells.len() >= before.memory.cells.len()
            &&& forall|cell: int|
                before.memory.cells.len() <= cell < called.memory.cells.len() && cell < begin
                    ==> #[trigger] called.memory.cells[cell] is Uninitialized
        }),
{
    let entered = before.entered();
    lemma_take_arguments(entered, 0, inputs_count);
    assert(entered.frames.drop_last() =~= before.frames);
}

/// A store stays in its frame. A store to a local address writes one cell,
/// at or behind the beginning of the current frame; every other cell, and
/// every other frame, is as it was.
pub proof fn lemma_store_stays_in_frame(state: VmModel, address: usize, slot: Slot)
    requires
        state.store(address, slot) is Ok,
    ensures
        ({
            let stored = state.store(address, slot)->Ok_0;
            &&& state.absolute(address) >= state.frame().stack_frame_begin
            &&& stored.memory.cells[state.absolute(address)] == slot
            &&& forall|cell: int|
                0 <= cell < state.memory.cells.len() && cell != state.absolute(address)
                    ==> #[trigger] stored.memory.cells[cell] == state.memory.cells[cell]
            &&& stored.memory.cells.len() >= state.memory.cells.len()
            &&& forall|cell: int|
                state.memory.cells.len() <= cell < stored.memory.cells.len() && cell
                    != state.absolute(address)
                    ==> #[trigger] stored.memory.cells[cell] is Uninitialized
            &&& stored.frames.len() == state.frames.len()
            &&& stored.frames.drop_last() == state.frames.drop_last()
            &&& stored.frame().stack_frame_begin == state.frame().stack_frame_begin
            &&& stored.frame().stack_frame_end >= state.frame().stack_frame_end
            &&& stored.frame().stack_frame_end > state.absolute(address)
        }),
{
    let stored = state.store(address, slot)->Ok_0;
    assert(stored.frames.drop_last() =~= state.frames.drop_last());
}

/// Frame isolation. While the frames lie in order, a function called with
/// its arguments can store to any of its local addresses without touching a
/// cell of its caller: after the store, and after the return behind it, the
/// caller loads from each of its local addresses what it loaded before the
/// call, and its frame is as it was. What the function stored lies behind
/// the caller's frame, where no load of the caller reaches.
pub proof fn lemma_frame_isolation(
    before: VmModel,
    address: usize,
    inputs_count: usize,
    local: usize,
    slot: Slot,
    outputs_count: usize,
)
    requires
        frames_in_order(before.frames),
        before.call(address, inputs_count) is Ok,
        before.call(address, inputs_count)->Ok_0.store(local, slot) is Ok,
        before.call(address, inputs_count)->Ok_0.store(local, slot)->Ok_0.ret(outputs_count) is Ok,
    ensures
        ({
            let stored = before.call(address, inputs_count)->Ok_0.store(local, slot)->Ok_0;
            let returned = stored.ret(outputs_count)->Ok_0;
            &&& frames_in_order(stored.frames)
            &&& stored.absolute(local) >= before.frame().stack_frame_end
            &&& returned.frames == before.frames
            &&& returned.instruction_counter == before.instruction_counter
            &&& forall|kept: usize|
                before.absolute(kept) < before.frame().stack_frame_end ==> #[trigger] returned.load(
                    kept,
                ) == before.load(kept)
            &&& forall|other: usize|
                before.absolute(other) >= before.frame().stack_frame_end
                    ==> #[trigger] returned.load(other) == Err::<Slot, _>(
                    Fault::UninitializedStorageAccess,
                )
        }),
{
    let called = before.call(address, inputs_count)->Ok_0;
    lemma_call_receives_arguments(before, address, inputs_count);
    lemma_store_stays_in_frame(called, local, slot);
    let stored = called.store(local, slot)->Ok_0;
    assert(stored.frames.drop_last() =~= before.frames);
    assert forall|i: int, j: int| 0 <= i < j < stored.frames.len() implies (
    #[trigger] stored.frames[i]).stack_frame_end <= (#[trigger] stored.frames[j]).stack_frame_begin by {
        assert(stored.frames[i] == stored.frames.drop_last()[i]);
        if j < stored.frames.len() - 1 {
            assert(stored.frames[j] == stored.frames.drop_last()[j]);
        } else {
            assert(before.frames[i].stack_frame_end <= before.frame().stack_frame_end) by {
                if i < before.frames.len() - 1 {
                    assert(before.frames[i].stack_frame_end
                        <= before.frames[before.frames.len() - 1].stack_frame_begin);
                }
            }
        }
    }
    assert forall|i: int| 0 <= i < stored.frames.len() implies (
    #[trigger] stored.frames[i]).stack_frame_begin <= stored.frames[i].stack_frame_end by {
        if i < stored.frames.len() - 1 {
            assert(stored.frames[i] == stored.frames.drop_last()[i]);
        }
    }
    let returned = stored.ret(outputs_count)->Ok_0;
    assert(returned.frames =~= before.frames);
    assert forall|kept: usize|
        before.absolute(kept) < before.frame().stack_frame_end implies #[trigger] returned.load(
        kept,
    ) == before.load(kept) by {
        let cell = before.absolute(kept);
        assert(returned.absolute(kept) == cell);
        assert(returned.memory == stored.memory);
        if cell < before.memory.cells.len() {
            assert(called.memory.cells[cell] == before.memory.cells[cell]);
            assert(stored.memory.cells[cell] == called.memory.cells[cell]);
        } else if cell < called.memory.cells.len() {
            assert(called.memory.cells[cell] is Uninitialized);
            assert(stored.memory.cells[cell] == called.memory.cells[cell]);
        } else if cell < stored.memory.cells.len() {
            assert(stored.memory.cells[cell] is Uninitialized);
        }
    }
}

/// Results of a call. A function that was called with `inputs_count`
/// arguments and has left `results` on the evaluation stack, on top of what
/// it found there, returns them to its caller: behind the return the stack
/// holds what it held before the call, less the arguments, and the results
/// on top, as they lay. The frames and the instruction counter are those of
/// the caller again.
pub proof fn lemma_return_leaves_results(
    before: VmModel,
    address: usize,
    inputs_count: usize,
    done: VmModel,
    results: Seq<Slot>,
)
    requires
        before.call(address, inputs_count) is Ok,
        results.len() <= usize::MAX,
        done.frames.len() == before.frames.len() + 1,
        done.frames.drop_last() == before.frames,
        done.frame().return_address == before.instruction_counter,
        done.evaluation == before.call(address, inputs_count)->Ok_0.evaluation.with_top(
            before.call(address, inputs_count)->Ok_0.evaluation.top() + results,
        ),
    ensures
        ({
            let level = before.evaluation.top();
            &&& level.len() >= inputs_count
            &&& done.ret(results.len() as usize) matches Ok(returned) && {
                &&& returned.evaluation.top() == level.take(level.len() - inputs_count) + results
                &&& returned.evaluation.top().len() == level.len() - inputs_count + results.len()
                &&& returned.evaluation.arms.len() == before.evaluation.arms.len()
                &&& returned.frames == before.frames
                &&& returned.instruction_counter == before.instruction_counter
            }
        }),
{
    lemma_call_receives_arguments(before, address, inputs_count);
    let called = before.call(address, inputs_count)->Ok_0;
    let level = before.evaluation.top();
    let kept = level.take(level.len() - inputs_count);
    assert(called.evaluation.top() =~= kept);
    assert(done.evaluation.top() =~= kept + results);
    assert(done.frames.drop_last() =~= before.frames);
}

/// The beginning and the end of every frame, without its blocks.
pub open spec fn windows(frames: Seq<FrameModel>) -> Seq<(usize, usize)> {
    Seq::new(frames.len(), |i: int| (frames[i].stack_frame_begin, frames[i].stack_frame_end))
}

/// Frames with the same windows are in order together.
proof fn lemma_same_windows(frames: Seq<FrameModel>, after: Seq<FrameModel>)
    requires
        frames_in_order(frames),
        windows(after) == windows(frames),
    ensures
        frames_in_order(after),
{
    assert(after.len() == windows(after).len());
    assert forall|i: int| 0 <= i < after.len() implies (#[trigger] after[i]).stack_frame_begin
        <= after[i].stack_frame_end by {
        assert(windows(after)[i] == windows(frames)[i]);
        assert(frames[i].stack_frame_begin <= frames[i].stack_frame_end);
    }
    assert forall|i: int, j: int| 0 <= i < j < after.len() implies (
    #[trigger] after[i]).stack_frame_end <= (#[trigger] after[j]).stack_frame_begin by {
        assert(windows(after)[i] == windows(frames)[i]);
        assert(windows(after)[j] == windows(frames)[j]);
        assert(frames[i].stack_frame_end <= frames[j].stack_frame_begin);
    }
}

/// Frames whose current frame has grown at its end are still in order.
proof fn lemma_grown_frame(frames: Seq<FrameModel>, after: Seq<FrameModel>)
    requires
        frames_in_order(frames),
        frames.len() > 0,
        after.len() == frames.len(),
        after.drop_last() == frames.drop_last(),
        after.last().stack_frame_begin == frames.last().stack_frame_begin,
        after.last().stack_frame_end >= frames.last().stack_frame_end,
    ensures
        frames_in_order(after),
{
    assert forall|i: int| 0 <= i < after.len() implies (#[trigger] after[i]).stack_frame_begin
        <= after[i].stack_frame_end by {
        if i < after.len() - 1 {
            assert(after[i] == after.drop_last()[i]);
            assert(frames[i] == frames.drop_last()[i]);
        }
        assert(frames[i].stack_frame_begin <= frames[i].stack_frame_end);
    }
    assert forall|i: int, j: int| 0 <= i < j < after.len() implies (
    #[trigger] after[i]).stack_frame_end <= (#[trigger] after[j]).stack_frame_begin by {
        assert(after[i] == after.drop_last()[i]);
        assert(frames[i] == frames.drop_last()[i]);
        if j < after.len() - 1 {
            assert(after[j] == after.drop_last()[j]);
            assert(frames[j] == frames.drop_last()[j]);
        }
        assert(frames[i].stack_frame_end <= frames[j].stack_frame_begin);
    }
}

/// Every instruction keeps the frames in order.
pub proof fn lemma_instruction_keeps_frames_in_order(state: VmModel, instruction: Instruction)
    requires
        frames_in_order(state.frames),
        instruction.effect(state) is Ok,
    ensures
        frames_in_order(instruction.effect(state)->Ok_0.frames),
{
    let after = instruction.effect(state)->Ok_0;
    match instruction {
        Instruction::Store(_) => {
            assert(after.frames.drop_last() =~= state.frames.drop_last());
            lemma_grown_frame(state.frames, after.frames);
        },
        Instruction::Call(call) => {
            lemma_call_receives_arguments(state, call.address, call.inputs_count);
            assert forall|i: int| 0 <= i < after.frames.len() implies (
            #[trigger] after.frames[i]).stack_frame_begin <= after.frames[i].stack_frame_end by {
                if i < after.frames.len() - 1 {
                    assert(after.frames[i] == after.frames.drop_last()[i]);
                }
            }
            assert forall|i: int, j: int| 0 <= i < j < after.frames.len() implies (
            #[trigger] after.frames[i]).stack_frame_end <= (
            #[trigger] after.frames[j]).stack_frame_begin by {
                assert(after.frames[i] == after.frames.drop_last()[i]);
                if j < after.frames.len() - 1 {
                    assert(after.frames[j] == after.frames.drop_last()[j]);
                } else if i < state.frames.len() - 1 {
                    assert(state.frames[i].stack_frame_end <= state.frames[state.frames.len()
                        - 1].stack_frame_begin);
                }
            }
        },
        Instruction::Return(_) => {
            assert forall|i: int, j: int| 0 <= i < j < after.frames.len() implies (
            #[trigger] after.frames[i]).stack_frame_end <= (
            #[trigger] after.frames[j]).stack_frame_begin by {
                assert(state.frames[i].stack_frame_end <= state.frames[j].stack_frame_begin);
            }
            assert forall|i: int| 0 <= i < after.frames.len() implies (
            #[trigger] after.frames[i]).stack_frame_begin <= after.frames[i].stack_frame_end by {
                assert(state.frames[i].stack_frame_begin <= state.frames[i].stack_frame_end);
            }
        },
        Instruction::Exit(exit) => {
            lemma_exit(state, exit.outputs_count);
        },
        _ => {
            assert(windows(after.frames) =~= windows(state.frames));
            lemma_same_windows(state.frames, after.frames);
        },
    }
}

/// The frames are in order when a run of a fresh machine begins.
pub proof fn lemma_fresh_frames_are_in_order(inputs: Seq<Option<int>>)
    ensures
        frames_in_order(VmModel::initial().started(inputs).frames),
{
}

/// A run keeps the frames in order.
pub proof fn lemma_run_keeps_frames_in_order(start: VmModel, program: Seq<Instruction>, steps: nat)
    requires
        frames_in_order(start.frames),
        start.progressed(program, steps) is Ok,
    ensures
        frames_in_order(start.progressed(program, steps)->Ok_0.frames),
    decreases steps,
{
    if steps > 0 {
        let earlier = (steps - 1) as nat;
        lemma_run_keeps_frames_in_order(start, program, earlier);
        let state = start.progressed(program, earlier)->Ok_0;
        if !state.halted(program) {
            let fetched = VmModel {
                instruction_counter: (state.instruction_counter + 1) as usize,
                ..state
            };
            lemma_instruction_keeps_frames_in_order(
                fetched,
                program[state.instruction_counter as int],
            );
        }
    }
}

/// How many conditionals are open among `blocks`.
pub open spec fn open_conditionals(blocks: Seq<BlockModel>) -> nat
    decreases blocks.len(),
{
    if blocks.len() == 0 {
        0
    } else {
        open_conditionals(blocks.drop_last()) + match blocks.last() {
            BlockModel::Branch { .. } => 1nat,
            BlockModel::Loop { .. } => 0nat,
        }
    }
}

/// How many arms the conditionals among `blocks` have begun: one for each,
/// and one more for each that is in its else arm.
pub open spec fn open_arms(blocks: Seq<BlockModel>) -> nat
    decreases blocks.len(),
{
    if blocks.len() == 0 {
        0
    } else {
        open_arms(blocks.drop_last()) + match blocks.last() {
            BlockModel::Branch { is_full, .. } => if is_full {
                2nat
            } else {
                1nat
            },
            BlockModel::Loop { .. } => 0nat,
        }
    }
}

/// How many conditionals are open in all of `frames`.
pub open spec fn conditionals_in(frames: Seq<FrameModel>) -> nat
    decreases frames.len(),
{
    if frames.len() == 0 {
        0
    } else {
        conditionals_in(frames.drop_last()) + open_conditionals(frames.last().blocks)
    }
}

/// How many arms the conditionals in all of `frames` have begun.
pub open spec fn arms_in(frames: Seq<FrameModel>) -> nat
    decreases frames.len(),
{
    if frames.len() == 0 {
        0
    } else {
        arms_in(frames.drop_last()) + open_arms(frames.last().blocks)
    }
}

/// The stacks of the machine agree with the conditionals that are open:
/// the condition stack holds one condition for each and the constant below
/// them, the data memory one fork for each, and the evaluation stack one
/// level for each arm begun.
pub open spec fn balanced(state: VmModel) -> bool {
    &&& state.conditions.len() == conditionals_in(state.frames) + 1
    &&& state.memory.forks.len() == conditionals_in(state.frames)
    &&& state.evaluation.arms.len() == arms_in(state.frames)
}

/// A frame without an open conditional has begun no arm.
proof fn lemma_no_conditional_no_arm(blocks: Seq<BlockModel>)
    ensures
        open_conditionals(blocks) == 0 <==> open_arms(blocks) == 0,
    decreases blocks.len(),
{
    if blocks.len() > 0 {
        lemma_no_conditional_no_arm(blocks.drop_last());
    }
}

/// The counts of a frame stack whose current frame has been replaced.
proof fn lemma_counts_with_frame(frames: Seq<FrameModel>, frame: FrameModel)
    requires
        frames.len() > 0,
    ensures
        conditionals_in(frames.update(frames.len() - 1, frame)) == conditionals_in(
            frames.drop_last(),
        ) + open_conditionals(frame.blocks),
        arms_in(frames.update(frames.len() - 1, frame)) == arms_in(frames.drop_last()) + open_arms(
            frame.blocks,
        ),
{
    assert(frames.update(frames.len() - 1, frame).drop_last() =~= frames.drop_last());
}

/// The counts of a frame stack with one more frame.
proof fn lemma_counts_with_new_frame(frames: Seq<FrameModel>, frame: FrameModel)
    ensures
        conditionals_in(frames.push(frame)) == conditionals_in(frames) + open_conditionals(
            frame.blocks,
        ),
        arms_in(frames.push(frame)) == arms_in(frames) + open_arms(frame.blocks),
{
    assert(frames.push(frame).drop_last() =~= frames);
}

/// The counts of blocks with one more block.
proof fn lemma_counts_with_block(blocks: Seq<BlockModel>, block: BlockModel)
    ensures
        open_conditionals(blocks.push(block)) == open_conditionals(blocks) + match block {
            BlockModel::Branch { .. } => 1nat,
            BlockModel::Loop { .. } => 0nat,
        },
        open_arms(blocks.push(block)) == open_arms(blocks) + match block {
            BlockModel::Branch { is_full, .. } => if is_full {
                2nat
            } else {
                1nat
            },
            BlockModel::Loop { .. } => 0nat,
        },
{
    assert(blocks.push(block).drop_last() =~= blocks);
}

/// What keeps the balance: a step that leaves the conditions, the forks,
/// the number of levels and the blocks of every frame as they are.
proof fn lemma_quiet_step(state: VmModel, after: VmModel)
    requires
        balanced(state),
        state.frames.len() > 0,
        after.conditions == state.conditions,
        after.memory.forks == state.memory.forks,
        after.evaluation.arms.len() == state.evaluation.arms.len(),
        after.frames.len() == state.frames.len(),
        after.frames.drop_last() == state.frames.drop_last(),
        after.frame().blocks == state.frame().blocks,
    ensures
        balanced(after),
{
    lemma_counts_with_frame(state.frames, after.frame());
    lemma_counts_with_frame(state.frames, state.frame());
    assert(state.frames.update(state.frames.len() - 1, after.frame()) =~= after.frames) by {
        assert forall|i: int| 0 <= i < after.frames.len() implies state.frames.update(
            state.frames.len() - 1,
            after.frame(),
        )[i] == after.frames[i] by {
            if i < after.frames.len() - 1 {
                assert(after.frames[i] == after.frames.drop_last()[i]);
                assert(state.frames[i] == state.frames.drop_last()[i]);
            }
        }
    }
    assert(state.frames.update(state.frames.len() - 1, state.frame()) =~= state.frames);
}

/// What the end of a program does to a state, but for the outputs.
proof fn lemma_exit(state: VmModel, outputs_count: usize)
    requires
        state.exit(outputs_count) is Ok,
    ensures
        ({
            let after = state.exit(outputs_count)->Ok_0;
            &&& after.conditions == state.conditions
            &&& after.frames == state.frames
            &&& after.memory == state.memory
            &&& after.evaluation.arms.len() == state.evaluation.arms.len()
            &&& after.instruction_counter == usize::MAX
        }),
    decreases outputs_count,
{
    if outputs_count > 0 {
        let popped = state.pop_value()->Ok_0.0;
        let value = state.pop_value()->Ok_0.1;
        lemma_exit(
            VmModel { outputs: popped.outputs.push(value), ..popped },
            (outputs_count - 1) as usize,
        );
    }
}

/// The instructions that open, turn or close a conditional keep the
/// balance.
proof fn lemma_conditional_keeps_balance(state: VmModel, instruction: Instruction)
    requires
        balanced(state),
        instruction.effect(state) is Ok,
        instruction is If || instruction is Else || instruction is EndIf,
    ensures
        balanced(instruction.effect(state)->Ok_0),
        instruction.effect(state)->Ok_0.conditions[0] == state.conditions[0],
{
    let after = instruction.effect(state)->Ok_0;
    match instruction {
        Instruction::If(_) => {
            let popped = state.popped();
            let condition = opening_condition(state);
            let block = BlockModel::Branch { condition, is_full: false };
            let frame = FrameModel { blocks: popped.frame().blocks.push(block), ..popped.frame() };
            lemma_counts_with_frame(popped.frames, frame);
            lemma_counts_with_frame(popped.frames, popped.frame());
            assert(popped.frames.update(popped.frames.len() - 1, popped.frame())
                =~= popped.frames);
            lemma_counts_with_block(popped.frame().blocks, block);
        },
        Instruction::Else(_) => {
            let blocks = state.frame().blocks;
            let condition = blocks.last().condition();
            let block = BlockModel::Branch { condition, is_full: true };
            let frame = FrameModel { blocks: blocks.drop_last().push(block), ..state.frame() };
            lemma_counts_with_frame(state.frames, frame);
            lemma_counts_with_frame(state.frames, state.frame());
            assert(state.frames.update(state.frames.len() - 1, state.frame()) =~= state.frames);
            lemma_counts_with_block(blocks.drop_last(), block);
        },
        Instruction::EndIf(_) => {
            let blocks = state.frame().blocks;
            let frame = FrameModel { blocks: blocks.drop_last(), ..state.frame() };
            lemma_counts_with_frame(state.frames, frame);
            lemma_counts_with_frame(state.frames, state.frame());
            assert(state.frames.update(state.frames.len() - 1, state.frame()) =~= state.frames);
        },
        _ => {},
    }
}

/// The instructions that begin and end loops, calls and the program keep the
/// balance, but for a return out of an open conditional.
proof fn lemma_flow_keeps_balance(state: VmModel, instruction: Instruction)
    requires
        balanced(state),
        instruction.effect(state) is Ok,
        instruction is LoopBegin || instruction is LoopEnd || instruction is Call
            || instruction is Return || instruction is Exit,
        instruction is Return ==> open_conditionals(state.frame().blocks) == 0,
    ensures
        balanced(instruction.effect(state)->Ok_0),
        instruction.effect(state)->Ok_0.conditions == state.conditions,
{
    let after = instruction.effect(state)->Ok_0;
    match instruction {
        Instruction::LoopBegin(begin) => {
            let block = BlockModel::Loop {
                first_instruction_index: state.instruction_counter,
                iterations_left: (begin.iterations - 1) as usize,
            };
            let frame = FrameModel { blocks: state.frame().blocks.push(block), ..state.frame() };
            lemma_counts_with_frame(state.frames, frame);
            lemma_counts_with_frame(state.frames, state.frame());
            assert(state.frames.update(state.frames.len() - 1, state.frame()) =~= state.frames);
            lemma_counts_with_block(state.frame().blocks, block);
        },
        Instruction::LoopEnd(_) => {
            let blocks = state.frame().blocks;
            lemma_counts_with_frame(state.frames, after.frame());
            lemma_counts_with_frame(state.frames, state.frame());
            assert(state.frames.update(state.frames.len() - 1, state.frame()) =~= state.frames);
            assert(state.frames.update(state.frames.len() - 1, after.frame()) =~= after.frames);
            match blocks.last() {
                BlockModel::Loop { first_instruction_index, iterations_left } => {
                    if iterations_left != 0 {
                        lemma_counts_with_block(
                            blocks.drop_last(),
                            BlockModel::Loop {
                                first_instruction_index,
                                iterations_left: (iterations_left - 1) as usize,
                            },
                        );
                    }
                },
                _ => {},
            }
        },
        Instruction::Call(call) => {
            let entered = state.entered();
            lemma_take_arguments(entered, 0, call.inputs_count);
            lemma_counts_with_new_frame(
                state.frames,
                FrameModel::new(state.frame().stack_frame_end, state.instruction_counter),
            );
            lemma_quiet_step_of(entered, after);
        },
        Instruction::Return(_) => {
            lemma_no_conditional_no_arm(state.frame().blocks);
        },
        Instruction::Exit(exit) => {
            lemma_exit(state, exit.outputs_count);
        },
        _ => {},
    }
}

/// As `lemma_quiet_step`, from the counts of the state instead of its
/// balance.
proof fn lemma_quiet_step_of(state: VmModel, after: VmModel)
    requires
        state.frames.len() > 0,
        after.frames.len() == state.frames.len(),
        after.frames.drop_last() == state.frames.drop_last(),
        after.frame().blocks == state.frame().blocks,
    ensures
        conditionals_in(after.frames) == conditionals_in(state.frames),
        arms_in(after.frames) == arms_in(state.frames),
{
    lemma_counts_with_frame(state.frames, after.frame());
    lemma_counts_with_frame(state.frames, state.frame());
    assert(state.frames.update(state.frames.len() - 1, after.frame()) =~= after.frames) by {
        assert forall|i: int| 0 <= i < after.frames.len() implies state.frames.update(
            state.frames.len() - 1,
            after.frame(),
        )[i] == after.frames[i] by {
            if i < after.frames.len() - 1 {
                assert(after.frames[i] == after.frames.drop_last()[i]);
                assert(state.frames[i] == state.frames.drop_last()[i]);
            }
        }
    }
    assert(state.frames.update(state.frames.len() - 1, state.frame()) =~= state.frames);
}

/// The instructions that only compute and move cells keep the balance.
proof fn lemma_work_keeps_balance(state: VmModel, instruction: Instruction)
    requires
        balanced(state),
        instruction.effect(state) is Ok,
        !(instruction is If || instruction is Else || instruction is EndIf),
        !(instruction is LoopBegin || instruction is LoopEnd || instruction is Call
            || instruction is Return || instruction is Exit),
    ensures
        balanced(instruction.effect(state)->Ok_0),
        instruction.effect(state)->Ok_0.conditions == state.conditions,
{
    let after = instruction.effect(state)->Ok_0;
    match instruction {
        Instruction::Store(_) => {
            assert(after.frames.drop_last() =~= state.frames.drop_last());
            lemma_quiet_step(state, after);
        },
        _ => {
            assert(after.frames == state.frames);
        },
    }
}

/// Every instruction keeps the balance of the machine, and the constant at
/// the bottom of the condition stack; the one exception is a return out of
/// a function that has left a conditional open.
pub proof fn lemma_instruction_keeps_balance(state: VmModel, instruction: Instruction)
    requires
        balanced(state),
        instruction.effect(state) is Ok,
        instruction is Return ==> open_conditionals(state.frame().blocks) == 0,
    ensures
        balanced(instruction.effect(state)->Ok_0),
        instruction.effect(state)->Ok_0.conditions[0] == state.conditions[0],
{
    if instruction is If || instruction is Else || instruction is EndIf {
        lemma_conditional_keeps_balance(state, instruction);
    } else if instruction is LoopBegin || instruction is LoopEnd || instruction is Call
        || instruction is Return || instruction is Exit {
        lemma_flow_keeps_balance(state, instruction);
    } else {
        lemma_work_keeps_balance(state, instruction);
    }
}

/// Every return among the first `steps` instructions of a run found the
/// conditionals of its function closed.
pub open spec fn returns_closed(start: VmModel, program: Seq<Instruction>, steps: nat) -> bool {
    forall|earlier: nat|
        earlier < steps ==> match #[trigger] start.progressed(program, earlier) {
            Ok(state) => {
                ||| state.halted(program)
                ||| !(program[state.instruction_counter as int] is Return)
                ||| open_conditionals(state.frame().blocks) == 0
            },
            Err(_) => true,
        }
}

/// A run keeps the balance of the machine, and the constant at the bottom
/// of the condition stack, as long as no function returns out of an open
/// conditional.
pub proof fn lemma_run_keeps_balance(start: VmModel, program: Seq<Instruction>, steps: nat)
    requires
        balanced(start),
        start.progressed(program, steps) is Ok,
        returns_closed(start, program, steps),
    ensures
        balanced(start.progressed(program, steps)->Ok_0),
        start.progressed(program, steps)->Ok_0.conditions[0] == start.conditions[0],
    decreases steps,
{
    if steps > 0 {
        let earlier = (steps - 1) as nat;
        assert(returns_closed(start, program, earlier));
        lemma_run_keeps_balance(start, program, earlier);
        let state = start.progressed(program, earlier)->Ok_0;
        if !state.halted(program) {
            let fetched = VmModel {
                instruction_counter: (state.instruction_counter + 1) as usize,
                ..state
            };
            lemma_instruction_keeps_balance(fetched, program[state.instruction_counter as int]);
        }
    }
}

/// Condition stack balance. A run of a fresh machine that has ended with
/// every conditional closed, and in which no function returned out of an
/// open conditional, leaves the condition stack as it was when the run
/// began: one entry, the constant true. The data memory has no fork left
/// and the evaluation stack no level of an arm.
pub proof fn lemma_condition_stack_balance(
    inputs: Seq<Option<int>>,
    program: Seq<Instruction>,
    steps: nat,
)
    requires
        VmModel::initial().started(inputs).progressed(program, steps) is Ok,
        returns_closed(VmModel::initial().started(inputs), program, steps),
        conditionals_in(VmModel::initial().started(inputs).progressed(program, steps)->Ok_0.frames)
            == 0,
    ensures
        VmModel::initial().started(inputs).progressed(program, steps)->Ok_0.conditions
            == seq![Some(1int)],
        VmModel::initial().started(inputs).progressed(program, steps)->Ok_0.memory.forks.len()
            == 0,
        VmModel::initial().started(inputs).progressed(
            program,
            steps,
        )->Ok_0.evaluation.arms.len() == 0,
{
    let start = VmModel::initial().started(inputs);
    let root = FrameModel::new(0, usize::MAX);
    lemma_counts_with_new_frame(Seq::empty(), root);
    assert(start.frames =~= Seq::<FrameModel>::empty().push(root));
    assert(open_conditionals(root.blocks) == 0);
    assert(open_arms(root.blocks) == 0);
    assert(balanced(start));
    lemma_run_keeps_balance(start, program, steps);
    let end = start.progressed(program, steps)->Ok_0;
    assert(end.conditions =~= seq![Some(1int)]);
    let frames = end.frames;
    lemma_no_arm_without_conditional(frames);
}

/// Frames without an open conditional have begun no arm.
proof fn lemma_no_arm_without_conditional(frames: Seq<FrameModel>)
    requires
        conditionals_in(frames) == 0,
    ensures
        arms_in(frames) == 0,
    decreases frames.len(),
{
    if frames.len() > 0 {
        lemma_no_conditional_no_arm(frames.last().blocks);
        lemma_no_arm_without_conditional(frames.drop_last());
    }
}

} // verus!
