//! Cells, and the slot-by-slot merge of two branch arms.

use crate::primitive::selected_value;
use crate::primitive::Primitive;
use crate::primitive::PrimitiveOperations;
use crate::vm::error::Fault;
use crate::vm::error::RuntimeError;
use vstd::prelude::*;

verus! {

/// One slot of the evaluation stack or of the data memory: a value, or the
/// mark of a slot that nothing has been written to.
#[derive(Debug)]
pub enum Cell<P> {
    Value(P),
    Uninitialized,
}

/// What a cell holds, as the contracts see it: the integer its value stands
/// for (unknown where the backend has not resolved it), or nothing at all.
pub enum Slot {
    Value(Option<int>),
    Uninitialized,
}

impl<P: Primitive> View for Cell<P> {
    type V = Slot;

    open spec fn view(&self) -> Slot {
        match self {
            Cell::Value(p) => Slot::Value(p.value()),
            Cell::Uninitialized => Slot::Uninitialized,
        }
    }
}

impl<P: Primitive> Cell<P> {
    /// The value in the cell. An uninitialized cell has none.
    pub fn value(self) -> (res: Result<P, RuntimeError>)
        ensures
            match res {
                Ok(p) => self == Cell::Value(p),
                Err(e) => self is Uninitialized && e@ == Fault::UninitializedStorageAccess,
            },
    {
        match self {
            Cell::Value(p) => Ok(p),
            Cell::Uninitialized => Err(RuntimeError::UninitializedStorageAccess),
        }
    }

    /// A second cell that holds the same.
    pub fn duplicate(&self) -> (copy: Self)
        ensures
            copy@ == self@,
    {
        match self {
            Cell::Value(p) => Cell::Value(p.duplicate()),
            Cell::Uninitialized => Cell::Uninitialized,
        }
    }
}

/// What a sequence of cells holds.
pub open spec fn slots<P: Primitive>(cells: Seq<Cell<P>>) -> Seq<Slot> {
    Seq::new(cells.len(), |i: int| cells[i]@)
}

/// Two arms have the same shape when they are equally long and hold values
/// in the same places.
pub open spec fn same_shape(then_arm: Seq<Slot>, else_arm: Seq<Slot>) -> bool {
    &&& then_arm.len() == else_arm.len()
    &&& forall|i: int|
        0 <= i < then_arm.len() ==> (#[trigger] then_arm[i] is Value) == (else_arm[i] is Value)
}

/// No slot holds a value in both arms, so that a merge of the arms has
/// nothing to select between.
pub open spec fn nothing_to_select(then_arm: Seq<Slot>, else_arm: Seq<Slot>) -> bool {
    forall|i: int|
        0 <= i < then_arm.len() && i < else_arm.len() ==> !(#[trigger] then_arm[i] is Value
            && else_arm[i] is Value)
}

/// The merge of one slot: the selection between the two values, or no value
/// where neither arm has one.
pub open spec fn merged_slot(condition: Option<int>, then_slot: Slot, else_slot: Slot) -> Slot {
    match (then_slot, else_slot) {
        (Slot::Value(t), Slot::Value(e)) => Slot::Value(selected_value(condition, t, e)),
        _ => Slot::Uninitialized,
    }
}

/// The merge of two arms of the same shape, slot by slot.
pub open spec fn merged_slots(condition: Option<int>, then_arm: Seq<Slot>, else_arm: Seq<Slot>) -> Seq<
    Slot,
> {
    Seq::new(then_arm.len(), |i: int| merged_slot(condition, then_arm[i], else_arm[i]))
}

/// Copies a sequence of cells.
pub fn duplicate_cells<P: Primitive>(cells: &Vec<Cell<P>>) -> (copy: Vec<Cell<P>>)
    ensures
        slots(copy@) == slots(cells@),
{
    let mut copy: Vec<Cell<P>> = Vec::new();
    let mut i: usize = 0;
    while i < cells.len()
        invariant
            i <= cells.len(),
            copy.len() == i,
            forall|j: int| 0 <= j < i ==> copy@[j]@ == cells@[j]@,
        decreases cells.len() - i,
    {
        copy.push(cells[i].duplicate());
        i = i + 1;
    }
    assert(slots(copy@) =~= slots(cells@));
    copy
}

/// Whether two arms have the same shape.
pub fn shapes_match<P: Primitive>(then_arm: &Vec<Cell<P>>, else_arm: &Vec<Cell<P>>) -> (same: bool)
    ensures
        same == same_shape(slots(then_arm@), slots(else_arm@)),
{
    if then_arm.len() != else_arm.len() {
        return false;
    }
    let mut i: usize = 0;
    while i < then_arm.len()
        invariant
            i <= then_arm.len(),
            then_arm.len() == else_arm.len(),
            forall|j: int|
                0 <= j < i ==> (#[trigger] slots(then_arm@)[j] is Value) == (slots(
                    else_arm@,
                )[j] is Value),
        decreases then_arm.len() - i,
    {
        let matches = match (&then_arm[i], &else_arm[i]) {
            (Cell::Value(_), Cell::Value(_)) => true,
            (Cell::Uninitialized, Cell::Uninitialized) => true,
            _ => false,
        };
        if !matches {
            assert(slots(then_arm@)[i as int] is Value != slots(else_arm@)[i as int] is Value);
            return false;
        }
        i = i + 1;
    }
    true
}

/// Merges the two arms of a conditional: every slot of the result is the
/// backend's selection, by `condition`, between the slot of the then arm and
/// that of the else arm.
///
/// Arms of different shape are an error of the program and are reported
/// before the backend is asked for anything. The backend is asked for one
/// selection for each slot that holds a value in both arms, in the order of
/// the slots, and the merge fails only where the backend does: not at all
/// where no slot holds a value in both arms, nor with a reliable backend.
pub fn merge_cells<P: Primitive, O: PrimitiveOperations<P>>(
    condition: &P,
    then_arm: &Vec<Cell<P>>,
    else_arm: &Vec<Cell<P>>,
    ops: &mut O,
) -> (res: Result<Vec<Cell<P>>, RuntimeError>)
    ensures
        !same_shape(slots(then_arm@), slots(else_arm@)) ==> (res matches Err(e) && e@
            == Fault::BranchStacksDoNotMatch),
        !same_shape(slots(then_arm@), slots(else_arm@)) ==> *final(ops) == *old(ops),
        res matches Ok(cells) ==> slots(cells@) == merged_slots(
            condition.value(),
            slots(then_arm@),
            slots(else_arm@),
        ),
        same_shape(slots(then_arm@), slots(else_arm@)) && nothing_to_select(
            slots(then_arm@),
            slots(else_arm@),
        ) ==> res is Ok && *final(ops) == *old(ops),
        old(ops).reliable() ==> final(ops).reliable(),
        old(ops).reliable() && same_shape(slots(then_arm@), slots(else_arm@)) ==> res is Ok,
{
    if !shapes_match(then_arm, else_arm) {
        return Err(RuntimeError::BranchStacksDoNotMatch);
    }
    let mut cells: Vec<Cell<P>> = Vec::new();
    let mut i: usize = 0;
    while i < then_arm.len()
        invariant
            i <= then_arm.len(),
            same_shape(slots(then_arm@), slots(else_arm@)),
            cells.len() == i,
            old(ops).reliable() ==> ops.reliable(),
            nothing_to_select(slots(then_arm@), slots(else_arm@)) ==> *ops == *old(ops),
            forall|j: int|
                0 <= j < i ==> cells@[j]@ == merged_slot(
                    condition.value(),
                    then_arm@[j]@,
                    else_arm@[j]@,
                ),
        decreases then_arm.len() - i,
    {
        let cell = match (&then_arm[i], &else_arm[i]) {
            (Cell::Value(t), Cell::Value(e)) => {
                assert(slots(then_arm@)[i as int] is Value && slots(else_arm@)[i as int] is Value);
                let chosen = ops.conditional_select(
                    condition.duplicate(),
                    t.duplicate(),
                    e.duplicate(),
                )?;
                Cell::Value(chosen)
            },
            _ => Cell::Uninitialized,
        };
        cells.push(cell);
        i = i + 1;
    }
    assert(slots(cells@) =~= merged_slots(
        condition.value(),
        slots(then_arm@),
        slots(else_arm@),
    ));
    Ok(cells)
}

} // verus!
