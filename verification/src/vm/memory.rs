//! The data memory: addressed cells that follow the branches of the program.
//!
//! Entering a conditional forks the memory: the cells at that point are kept
//! aside. The else arm starts again from them, while the cells that the then
//! arm left are kept in turn. Leaving the conditional merges the two arms
//! slot by slot; a conditional without an else arm merges what the then arm
//! left with the cells kept at the fork.

use crate::primitive::Primitive;
use crate::primitive::PrimitiveOperations;
use crate::vm::cell::duplicate_cells;
use crate::vm::cell::merge_cells;
use crate::vm::cell::merged_slots;
use crate::vm::cell::nothing_to_select;
use crate::vm::cell::same_shape;
use crate::vm::cell::shapes_match;
use crate::vm::cell::slots;
use crate::vm::cell::Cell;
use crate::vm::cell::Slot;
use crate::vm::error::Fault;
use crate::vm::error::RuntimeError;
use vstd::prelude::*;

verus! {

/// What one open conditional keeps aside.
pub struct ForkModel {
    /// The cells when the conditional was entered.
    pub base: Seq<Slot>,
    /// The cells that the then arm left, once the else arm has begun.
    pub then_arm: Option<Seq<Slot>>,
}

/// The data memory as the contracts see it.
pub struct MemoryModel {
    /// The cells that loads and stores work on.
    pub cells: Seq<Slot>,
    /// One entry for each open conditional, the innermost last.
    pub forks: Seq<ForkModel>,
}

/// `cells`, lengthened with uninitialized slots to at least `length`.
pub open spec fn padded(cells: Seq<Slot>, length: int) -> Seq<Slot> {
    if cells.len() >= length {
        cells
    } else {
        cells + Seq::new((length - cells.len()) as nat, |i: int| Slot::Uninitialized)
    }
}

impl MemoryModel {
    pub open spec fn empty() -> MemoryModel {
        MemoryModel { cells: Seq::empty(), forks: Seq::empty() }
    }

    /// Whether a load from `address` finds a value.
    pub open spec fn readable(self, address: int) -> bool {
        0 <= address < self.cells.len() && self.cells[address] is Value
    }

    /// The memory after a store to `address`. Storing beyond the last cell
    /// lengthens the memory; the cells in between stay uninitialized.
    pub open spec fn stored(self, address: int, slot: Slot) -> MemoryModel {
        MemoryModel { cells: padded(self.cells, address + 1).update(address, slot), ..self }
    }

    /// The memory after a conditional has been entered.
    pub open spec fn forked(self) -> MemoryModel {
        MemoryModel {
            forks: self.forks.push(ForkModel { base: self.cells, then_arm: None }),
            ..self
        }
    }

    /// Whether an else arm can begin: a conditional is open and is still in
    /// its then arm.
    pub open spec fn can_switch(self) -> bool {
        self.forks.len() > 0 && self.forks.last().then_arm is None
    }

    /// The memory when the else arm begins: the cells are those of the fork
    /// again, and what the then arm left is kept for the merge.
    pub open spec fn switched(self) -> MemoryModel {
        MemoryModel {
            cells: self.forks.last().base,
            forks: self.forks.drop_last().push(
                ForkModel { base: self.forks.last().base, then_arm: Some(self.cells) },
            ),
        }
    }

    /// What the then arm of the innermost conditional left.
    pub open spec fn then_cells(self) -> Seq<Slot> {
        match self.forks.last().then_arm {
            Some(cells) => cells,
            None => self.cells,
        }
    }

    /// What the else arm of the innermost conditional left; without an else
    /// arm, the cells from before the conditional.
    pub open spec fn else_cells(self) -> Seq<Slot> {
        match self.forks.last().then_arm {
            Some(_) => self.cells,
            None => self.forks.last().base,
        }
    }

    /// Whether the innermost conditional can be merged.
    pub open spec fn can_merge(self) -> bool {
        self.forks.len() > 0 && same_shape(self.then_cells(), self.else_cells())
    }

    /// The memory after the innermost conditional has been merged.
    pub open spec fn merged(self, condition: Option<int>) -> MemoryModel {
        MemoryModel {
            cells: merged_slots(condition, self.then_cells(), self.else_cells()),
            forks: self.forks.drop_last(),
        }
    }

    /// The memory after the innermost conditional has been given up.
    pub open spec fn reverted(self) -> MemoryModel {
        MemoryModel { cells: self.forks.last().base, forks: self.forks.drop_last() }
    }
}

struct Fork<P> {
    base: Vec<Cell<P>>,
    then_arm: Option<Vec<Cell<P>>>,
}

impl<P: Primitive> View for Fork<P> {
    type V = ForkModel;

    closed spec fn view(&self) -> ForkModel {
        ForkModel {
            base: slots(self.base@),
            then_arm: match self.then_arm {
                Some(cells) => Some(slots(cells@)),
                None => None,
            },
        }
    }
}

/// The data memory.
pub struct Memory<P> {
    cells: Vec<Cell<P>>,
    forks: Vec<Fork<P>>,
}

impl<P: Primitive> View for Memory<P> {
    type V = MemoryModel;

    closed spec fn view(&self) -> MemoryModel {
        MemoryModel {
            cells: slots(self.cells@),
            forks: Seq::new(self.forks@.len(), |i: int| self.forks@[i]@),
        }
    }
}

impl<P: Primitive> Memory<P> {
    /// A memory without cells, outside any conditional.
    pub fn new() -> (memory: Self)
        ensures
            memory@ == MemoryModel::empty(),
    {
        let memory = Memory { cells: Vec::new(), forks: Vec::new() };
        assert(memory@.cells =~= Seq::empty());
        assert(memory@.forks =~= Seq::empty());
        memory
    }

    /// A copy of the cell at `address`. A cell that was never written, or an
    /// address beyond the last cell, cannot be read.
    pub fn get(&self, address: usize) -> (res: Result<Cell<P>, RuntimeError>)
        ensures
            match res {
                Ok(cell) => self@.readable(address as int) && cell@ == self@.cells[address as int],
                Err(e) => !self@.readable(address as int) && e@
                    == Fault::UninitializedStorageAccess,
            },
    {
        if address >= self.cells.len() {
            return Err(RuntimeError::UninitializedStorageAccess);
        }
        match &self.cells[address] {
            Cell::Value(p) => Ok(Cell::Value(p.duplicate())),
            Cell::Uninitialized => Err(RuntimeError::UninitializedStorageAccess),
        }
    }

    /// Writes `cell` to `address`, lengthening the memory where the address
    /// lies beyond its last cell. The one address that no memory can hold is
    /// refused.
    pub fn set(&mut self, address: usize, cell: Cell<P>) -> (res: Result<(), RuntimeError>)
        ensures
            match res {
                Ok(()) => address < usize::MAX && final(self)@ == old(self)@.stored(
                    address as int,
                    cell@,
                ),
                Err(e) => address == usize::MAX && e@ == Fault::StackOverflow && final(self)@
                    == old(self)@,
            },
    {
        if address == usize::MAX {
            return Err(RuntimeError::StackOverflow);
        }
        while self.cells.len() <= address
            invariant
                address < usize::MAX,
                self.forks == old(self).forks,
                old(self).cells@.len() <= self.cells@.len(),
                self.cells@.len() <= old(self).cells@.len() || self.cells@.len() <= address + 1,
                forall|j: int| 0 <= j < old(self).cells@.len() ==> self.cells@[j] == old(self).cells@[j],
                forall|j: int|
                    old(self).cells@.len() <= j < self.cells@.len()
                        ==> self.cells@[j] is Uninitialized,
            decreases address + 1 - self.cells.len(),
        {
            self.cells.push(Cell::Uninitialized);
        }
        self.cells[address] = cell;
        assert(self@.cells =~= old(self)@.stored(address as int, cell@).cells);
        assert(self@.forks =~= old(self)@.forks);
        Ok(())
    }

    /// How many conditionals are open.
    pub fn depth(&self) -> (depth: usize)
        ensures
            depth == self@.forks.len(),
    {
        self.forks.len()
    }

    /// Whether an else arm can begin.
    pub fn can_switch(&self) -> (possible: bool)
        ensures
            possible == self@.can_switch(),
    {
        let open = self.forks.len();
        if open == 0 {
            false
        } else {
            assert(self@.forks.last() == self.forks@[open - 1]@);
            self.forks[open - 1].then_arm.is_none()
        }
    }

    /// Whether the innermost conditional can be merged: one is open, and its
    /// two arms have the same shape.
    pub fn arms_match(&self) -> (same: bool)
        ensures
            same == self@.can_merge(),
    {
        let open = self.forks.len();
        if open == 0 {
            false
        } else {
            assert(self@.forks.last() == self.forks@[open - 1]@);
            match &self.forks[open - 1].then_arm {
                Some(then_arm) => shapes_match(then_arm, &self.cells),
                None => shapes_match(&self.cells, &self.forks[open - 1].base),
            }
        }
    }

    /// Enters a conditional: the cells are kept aside, and stay as they are.
    pub fn fork(&mut self)
        ensures
            final(self)@ == old(self)@.forked(),
    {
        let base = duplicate_cells(&self.cells);
        self.forks.push(Fork { base, then_arm: None });
        assert(self@.forks =~= old(self)@.forked().forks);
    }

    /// Begins the else arm of the innermost conditional: the cells are again
    /// those from before the conditional, and what the then arm left is kept
    /// for the merge.
    pub fn switch_branch(&mut self) -> (res: Result<(), RuntimeError>)
        ensures
            match res {
                Ok(()) => old(self)@.can_switch() && final(self)@ == old(self)@.switched(),
                Err(e) => !old(self)@.can_switch() && e@ == Fault::UnexpectedElse && final(self)@
                    == old(self)@,
            },
    {
        let open = self.forks.len();
        if open == 0 {
            return Err(RuntimeError::UnexpectedElse);
        }
        if self.forks[open - 1].then_arm.is_some() {
            assert(self@.forks.last() == self.forks@[open - 1]@);
            return Err(RuntimeError::UnexpectedElse);
        }
        assert(self@.forks.last() == self.forks@[open - 1]@);
        let fork = self.forks.pop().unwrap();
        let mut cells = duplicate_cells(&fork.base);
        std::mem::swap(&mut self.cells, &mut cells);
        self.forks.push(Fork { base: fork.base, then_arm: Some(cells) });
        assert(self@.forks =~= old(self)@.switched().forks);
        Ok(())
    }

    /// Leaves the innermost conditional, merging its two arms by `condition`.
    ///
    /// Without an open conditional, and with arms of different shape, the
    /// merge is refused before the backend is asked for anything, and the
    /// memory stays as it is. Otherwise the backend is asked for one
    /// selection for each cell that holds a value in both arms, and the
    /// merge fails only where the backend does: not at all where no cell
    /// holds a value in both arms, nor with a reliable backend. Where the
    /// backend fails, nothing is promised of the memory.
    pub fn merge<O: PrimitiveOperations<P>>(&mut self, condition: P, ops: &mut O) -> (res: Result<
        (),
        RuntimeError,
    >)
        ensures
            old(self)@.forks.len() == 0 ==> (res matches Err(e) && e@ == Fault::StackUnderflow),
            old(self)@.forks.len() > 0 && !old(self)@.can_merge() ==> (res matches Err(e) && e@
                == Fault::BranchStacksDoNotMatch),
            !old(self)@.can_merge() ==> final(self)@ == old(self)@ && *final(ops) == *old(ops),
            res is Ok ==> old(self)@.can_merge() && final(self)@ == old(self)@.merged(
                condition.value(),
            ),
            old(self)@.can_merge() && nothing_to_select(
                old(self)@.then_cells(),
                old(self)@.else_cells(),
            ) ==> res is Ok && *final(ops) == *old(ops),
            old(ops).reliable() ==> final(ops).reliable(),
            old(ops).reliable() && old(self)@.can_merge() ==> res is Ok,
    {
        let open = self.forks.len();
        if open == 0 {
            return Err(RuntimeError::StackUnderflow);
        }
        if !self.arms_match() {
            return Err(RuntimeError::BranchStacksDoNotMatch);
        }
        assert(self@.forks.last() == self.forks@[open - 1]@);
        let fork = self.forks.pop().unwrap();
        let cells = match &fork.then_arm {
            Some(then_arm) => merge_cells(&condition, then_arm, &self.cells, ops)?,
            None => merge_cells(&condition, &self.cells, &fork.base, ops)?,
        };
        self.cells = cells;
        assert(self@.forks =~= old(self)@.merged(condition.value()).forks);
        Ok(())
    }

    /// Gives up the innermost conditional: the cells are again those from
    /// before it.
    pub fn revert(&mut self) -> (res: Result<(), RuntimeError>)
        ensures
            match res {
                Ok(()) => old(self)@.forks.len() > 0 && final(self)@ == old(self)@.reverted(),
                Err(e) => {
                    &&& old(self)@.forks.len() == 0
                    &&& e@ == Fault::StackUnderflow
                    &&& final(self)@ == old(self)@
                },
            },
    {
        let open = self.forks.len();
        if open == 0 {
            return Err(RuntimeError::StackUnderflow);
        }
        assert(self@.forks.last() == self.forks@[open - 1]@);
        let fork = self.forks.pop().unwrap();
        self.cells = fork.base;
        assert(self@.forks =~= old(self)@.reverted().forks);
        Ok(())
    }
}

} // verus!
