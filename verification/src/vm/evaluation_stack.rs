//! The evaluation stack: the operands of the instructions, last in, first
//! out, kept apart arm by arm.
//!
//! Each arm of an open conditional works on a level of its own, which starts
//! empty: an arm can neither take nor change what lies below it. Leaving a
//! conditional with both arms merges their two levels into the level below;
//! leaving one without an else arm drops what its then arm left.

use crate::primitive::Primitive;
use crate::primitive::PrimitiveOperations;
use crate::vm::cell::merge_cells;
use crate::vm::cell::merged_slots;
use crate::vm::cell::nothing_to_select;
use crate::vm::cell::same_shape;
use crate::vm::cell::shapes_match;
use crate::vm::cell::slots;
use crate::vm::cell::Cell;
use crate::vm::cell::Slot;
use crate::vm::error::Fault;
use crate::vm::error::RuntimeError;
use vstd::prelude::*;

verus! {

/// The evaluation stack as the contracts see it.
pub struct StackModel {
    /// The operands outside every conditional, the top last.
    pub base: Seq<Slot>,
    /// One level for each arm that is open or awaits its merge, the innermost
    /// last.
    pub arms: Seq<Seq<Slot>>,
}

impl StackModel {
    pub open spec fn empty() -> StackModel {
        StackModel { base: Seq::empty(), arms: Seq::empty() }
    }

    /// The level that pushes and pops work on.
    pub open spec fn top(self) -> Seq<Slot> {
        if self.arms.len() > 0 {
            self.arms.last()
        } else {
            self.base
        }
    }

    /// The stack with another top level in place of the present one.
    pub open spec fn with_top(self, level: Seq<Slot>) -> StackModel {
        if self.arms.len() > 0 {
            StackModel { arms: self.arms.update(self.arms.len() - 1, level), ..self }
        } else {
            StackModel { base: level, ..self }
        }
    }

    pub open spec fn pushed(self, slot: Slot) -> StackModel {
        self.with_top(self.top().push(slot))
    }

    /// Whether the top level holds an operand.
    pub open spec fn can_pop(self) -> bool {
        self.top().len() > 0
    }

    pub open spec fn popped(self) -> StackModel {
        self.with_top(self.top().drop_last())
    }

    /// The stack after an arm has been entered.
    pub open spec fn forked(self) -> StackModel {
        StackModel { arms: self.arms.push(Seq::empty()), ..self }
    }

    /// The stack after the innermost arm has been dropped.
    pub open spec fn reverted(self) -> StackModel {
        StackModel { arms: self.arms.drop_last(), ..self }
    }

    /// The level of the then arm, where both arms await their merge.
    pub open spec fn then_level(self) -> Seq<Slot> {
        self.arms[self.arms.len() - 2]
    }

    /// The level of the else arm, where both arms await their merge.
    pub open spec fn else_level(self) -> Seq<Slot> {
        self.arms[self.arms.len() - 1]
    }

    /// Whether the two innermost levels can be merged.
    pub open spec fn can_merge(self) -> bool {
        self.arms.len() >= 2 && same_shape(self.then_level(), self.else_level())
    }

    /// The stack after the two innermost levels have been merged onto the
    /// level below them.
    pub open spec fn merged(self, condition: Option<int>) -> StackModel {
        let below = StackModel { arms: self.arms.take(self.arms.len() - 2), ..self };
        below.with_top(
            below.top() + merged_slots(condition, self.then_level(), self.else_level()),
        )
    }
}

/// Why the `count` top operands of a level cannot be taken as values, the
/// top one first, if they cannot: the first that is there and holds no value
/// is an access to uninitialized storage; a level that ends before is an
/// underflow.
pub open spec fn values_fault(level: Seq<Slot>, count: nat) -> Option<Fault>
    decreases count,
{
    if count == 0 {
        None
    } else if level.len() == 0 {
        Some(Fault::StackUnderflow)
    } else if level.last() is Uninitialized {
        Some(Fault::UninitializedStorageAccess)
    } else {
        values_fault(level.drop_last(), (count - 1) as nat)
    }
}

/// A stack whose top operand is taken and put back is as it was.
pub proof fn lemma_put_back(stack: StackModel)
    requires
        stack.can_pop(),
    ensures
        stack.popped().pushed(stack.top().last()) == stack,
{
    let level = stack.top();
    assert(level.drop_last().push(level.last()) =~= level);
    assert(stack.popped().top() =~= level.drop_last());
    assert(stack.popped().pushed(level.last()).arms =~= stack.arms);
    assert(stack.popped().pushed(level.last()).base =~= stack.base);
}

/// The evaluation stack.
pub struct EvaluationStack<P> {
    base: Vec<Cell<P>>,
    arms: Vec<Vec<Cell<P>>>,
}

impl<P: Primitive> View for EvaluationStack<P> {
    type V = StackModel;

    closed spec fn view(&self) -> StackModel {
        StackModel {
            base: slots(self.base@),
            arms: Seq::new(self.arms@.len(), |i: int| slots(self.arms@[i]@)),
        }
    }
}

impl<P: Primitive> EvaluationStack<P> {
    /// A stack without operands, outside any conditional.
    pub fn new() -> (stack: Self)
        ensures
            stack@ == StackModel::empty(),
    {
        let stack = EvaluationStack { base: Vec::new(), arms: Vec::new() };
        assert(stack@.base =~= Seq::empty());
        assert(stack@.arms =~= Seq::empty());
        stack
    }

    /// Puts a cell on top of the current level.
    pub fn push(&mut self, cell: Cell<P>) -> (res: Result<(), RuntimeError>)
        ensures
            res is Ok,
            final(self)@ == old(self)@.pushed(cell@),
    {
        match self.arms.pop() {
            Some(mut level) => {
                level.push(cell);
                self.arms.push(level);
                assert(self@.base == old(self)@.base);
                assert(self@.arms =~= old(self)@.pushed(cell@).arms) by {
                    assert(slots(level@) =~= old(self)@.top().push(cell@));
                }
            },
            None => {
                self.base.push(cell);
                assert(self@.base =~= old(self)@.pushed(cell@).base);
                assert(self@.arms =~= old(self)@.pushed(cell@).arms);
            },
        }
        Ok(())
    }

    /// Takes the cell on top of the current level. What lies below the
    /// current level stays out of reach.
    pub fn pop(&mut self) -> (res: Result<Cell<P>, RuntimeError>)
        ensures
            match res {
                Ok(cell) => {
                    &&& old(self)@.can_pop()
                    &&& cell@ == old(self)@.top().last()
                    &&& final(self)@ == old(self)@.popped()
                },
                Err(e) => {
                    &&& !old(self)@.can_pop()
                    &&& e@ == Fault::StackUnderflow
                    &&& final(self)@ == old(self)@
                },
            },
    {
        match self.arms.pop() {
            Some(mut level) => {
                let taken = level.pop();
                self.arms.push(level);
                match taken {
                    Some(cell) => {
                        assert(self@.arms =~= old(self)@.popped().arms) by {
                            assert(slots(level@) =~= old(self)@.top().drop_last());
                        }
                        Ok(cell)
                    },
                    None => {
                        assert(self@.arms =~= old(self)@.arms);
                        Err(RuntimeError::StackUnderflow)
                    },
                }
            },
            None => {
                assert(self@.arms =~= old(self)@.arms);
                match self.base.pop() {
                    Some(cell) => {
                        assert(self@.base =~= old(self)@.popped().base);
                        Ok(cell)
                    },
                    None => Err(RuntimeError::StackUnderflow),
                }
            },
        }
    }

    /// How many operands the current level holds.
    pub fn height(&self) -> (height: usize)
        ensures
            height == self@.top().len(),
    {
        let open = self.arms.len();
        if open == 0 {
            self.base.len()
        } else {
            self.arms[open - 1].len()
        }
    }

    /// Whether the `count` top operands of the current level can be taken as
    /// values, and the fault if they cannot. The stack is only looked at.
    pub fn check_values(&self, count: usize) -> (res: Result<(), RuntimeError>)
        ensures
            match res {
                Ok(()) => values_fault(self@.top(), count as nat) is None,
                Err(e) => values_fault(self@.top(), count as nat) == Some(e@),
            },
    {
        let open = self.arms.len();
        let level = if open == 0 {
            &self.base
        } else {
            &self.arms[open - 1]
        };
        assert(slots(level@) == self@.top());
        let ghost all = slots(level@);
        let mut checked: usize = 0;
        assert(all.take(all.len() as int) =~= all);
        while checked < count
            invariant
                checked <= count,
                checked <= level.len(),
                all == slots(level@),
                all == self@.top(),
                values_fault(all, count as nat) == values_fault(
                    all.take(all.len() - checked),
                    (count - checked) as nat,
                ),
            decreases count - checked,
        {
            if checked == level.len() {
                return Err(RuntimeError::StackUnderflow);
            }
            let ghost rest = all.take(all.len() - checked);
            assert(rest.last() == all[all.len() - checked - 1]);
            assert(rest.drop_last() =~= all.take(all.len() - checked - 1));
            match &level[level.len() - checked - 1] {
                Cell::Value(_) => {},
                Cell::Uninitialized => {
                    return Err(RuntimeError::UninitializedStorageAccess);
                },
            }
            checked = checked + 1;
        }
        Ok(())
    }

    /// How many arms are open or await their merge.
    pub fn depth(&self) -> (depth: usize)
        ensures
            depth == self@.arms.len(),
    {
        self.arms.len()
    }

    /// Whether the two innermost levels can be merged: there are two, and
    /// they have the same shape.
    pub fn arms_match(&self) -> (same: bool)
        ensures
            same == self@.can_merge(),
    {
        let open = self.arms.len();
        if open < 2 {
            false
        } else {
            shapes_match(&self.arms[open - 2], &self.arms[open - 1])
        }
    }

    /// Enters an arm: a new, empty level on top of what is there.
    pub fn fork(&mut self)
        ensures
            final(self)@ == old(self)@.forked(),
    {
        self.arms.push(Vec::new());
        assert(self@.arms =~= old(self)@.forked().arms) by {
            assert(slots(Seq::<Cell<P>>::empty()) =~= Seq::<Slot>::empty());
        }
    }

    /// Drops the innermost arm with every cell that it pushed. What lay on
    /// the stack when the arm was entered is there again, unchanged.
    pub fn revert(&mut self) -> (res: Result<(), RuntimeError>)
        ensures
            match res {
                Ok(()) => old(self)@.arms.len() > 0 && final(self)@ == old(self)@.reverted(),
                Err(e) => {
                    &&& old(self)@.arms.len() == 0
                    &&& e@ == Fault::StackUnderflow
                    &&& final(self)@ == old(self)@
                },
            },
    {
        match self.arms.pop() {
            Some(_) => {
                assert(self@.arms =~= old(self)@.reverted().arms);
                Ok(())
            },
            None => {
                assert(self@.arms =~= old(self)@.arms);
                Err(RuntimeError::StackUnderflow)
            },
        }
    }

    /// Leaves a conditional with both arms: the levels of the then arm and of
    /// the else arm are merged by `condition`, and the merged cells are put on
    /// the level below, in their order.
    ///
    /// With fewer than two arms, and with arms that differ in length or in
    /// where they hold values, the merge is refused before the backend is
    /// asked for anything, and the stack stays as it is. Otherwise the
    /// backend is asked for one selection for each slot that holds a value
    /// in both arms, and the merge fails only where the backend does: not at
    /// all where no slot holds a value in both arms, nor with a reliable
    /// backend. Where the backend fails, nothing is promised of the stack.
    pub fn merge<O: PrimitiveOperations<P>>(&mut self, condition: P, ops: &mut O) -> (res: Result<
        (),
        RuntimeError,
    >)
        ensures
            old(self)@.arms.len() < 2 ==> (res matches Err(e) && e@ == Fault::StackUnderflow),
            old(self)@.arms.len() >= 2 && !old(self)@.can_merge() ==> (res matches Err(e) && e@
                == Fault::BranchStacksDoNotMatch),
            !old(self)@.can_merge() ==> final(self)@ == old(self)@ && *final(ops) == *old(ops),
            res is Ok ==> old(self)@.can_merge() && final(self)@ == old(self)@.merged(
                condition.value(),
            ),
            old(self)@.can_merge() && nothing_to_select(
                old(self)@.then_level(),
                old(self)@.else_level(),
            ) ==> res is Ok && *final(ops) == *old(ops),
            old(ops).reliable() ==> final(ops).reliable(),
            old(ops).reliable() && old(self)@.can_merge() ==> res is Ok,
    {
        let open = self.arms.len();
        if open < 2 {
            return Err(RuntimeError::StackUnderflow);
        }
        if !self.arms_match() {
            return Err(RuntimeError::BranchStacksDoNotMatch);
        }
        let else_arm = self.arms.pop().unwrap();
        let then_arm = self.arms.pop().unwrap();
        assert(slots(else_arm@) == old(self)@.else_level());
        assert(slots(then_arm@) == old(self)@.then_level());
        let mut cells = merge_cells(&condition, &then_arm, &else_arm, ops)?;
        let ghost added = slots(cells@);
        let ghost below = StackModel { arms: old(self)@.arms.take(open - 2), ..old(self)@ };
        assert(self@.arms =~= below.arms);
        match self.arms.pop() {
            Some(mut level) => {
                level.append(&mut cells);
                self.arms.push(level);
                assert(self@.arms =~= below.with_top(below.top() + added).arms) by {
                    assert(slots(level@) =~= below.top() + added);
                }
            },
            None => {
                self.base.append(&mut cells);
                assert(self@.base =~= below.top() + added);
                assert(self@.arms =~= below.arms);
            },
        }
        Ok(())
    }
}

} // verus!
