//! The virtual machine.

pub mod cell;
pub mod error;
pub mod evaluation_stack;
pub mod internal;
pub mod laws;
pub mod memory;
pub mod model;
pub mod state;

pub use cell::Cell;
pub use cell::Slot;
pub use error::Fault;
pub use error::RuntimeError;
pub use evaluation_stack::EvaluationStack;
pub use evaluation_stack::StackModel;
pub use internal::InternalVM;
pub use memory::Memory;
pub use memory::MemoryModel;
pub use model::BlockModel;
pub use model::FrameModel;
pub use model::VmModel;
pub use state::Block;
pub use state::Branch;
pub use state::FunctionFrame;
pub use state::Loop;
pub use state::State;

use crate::instructions::Instruction;
use crate::number::bigint_from_usize;
use crate::number::bigint_value;
use crate::primitive::values;
use crate::primitive::Primitive;
use crate::primitive::PrimitiveOperations;
use crate::vm::state::frame_models;
use num_bigint::BigInt;
use vstd::prelude::*;

verus! {

/// The integers that a sequence of numbers holds; an absent number stands
/// for an unknown integer.
pub open spec fn number_values(numbers: Seq<Option<BigInt>>) -> Seq<Option<int>> {
    Seq::new(
        numbers.len(),
        |i: int|
            match numbers[i] {
                Some(number) => Some(bigint_value(number)),
                None => None,
            },
    )
}

/// The values that a program starts with: the inputs that were given, or as
/// many unknown values as the program declares where none were.
pub open spec fn input_values(inputs: Option<&[BigInt]>, inputs_count: usize) -> Seq<Option<int>> {
    match inputs {
        Some(numbers) => Seq::new(numbers@.len(), |i: int| Some(bigint_value(numbers@[i]))),
        None => Seq::new(inputs_count as nat, |i: int| None),
    }
}

/// Why a run cannot begin, if it cannot: the program has to start with the
/// call of its entry point, and inputs, where they are given, have to be as
/// many as that call declares.
pub open spec fn setup_fault(program: Seq<Instruction>, inputs: Option<&[BigInt]>) -> Option<
    Fault,
> {
    if program.len() == 0 {
        Some(Fault::FirstInstructionNotCall)
    } else {
        match program[0] {
            Instruction::Call(call) => match inputs {
                Some(numbers) => if numbers@.len() != call.inputs_count {
                    Some(Fault::WrongInputsCount)
                } else {
                    None
                },
                None => None,
            },
            _ => Some(Fault::FirstInstructionNotCall),
        }
    }
}

/// What the error says that ends a run of too many steps.
pub open spec fn budget_text() -> Seq<char> {
    "The run took too many steps"@
}

/// The most steps that a run is given.
pub open spec fn budget() -> nat {
    u64::MAX as nat
}

/// How many inputs a program declares.
pub open spec fn declared_inputs(program: Seq<Instruction>) -> usize {
    match program[0] {
        Instruction::Call(call) => call.inputs_count,
        _ => 0,
    }
}

/// The slots of known and unknown values.
pub open spec fn value_slots(values: Seq<Option<int>>) -> Seq<Slot> {
    Seq::new(values.len(), |i: int| Slot::Value(values[i]))
}

impl VmModel {
    /// The state in which a run begins: the condition stack holds the
    /// constant true, the frame of the program itself is open, and the
    /// inputs lie on the evaluation stack, the last of them on top.
    pub open spec fn started(self, inputs: Seq<Option<int>>) -> VmModel {
        VmModel { conditions: self.conditions.push(Some(1int)), ..self }.rooted().push_all(
            value_slots(inputs),
        )
    }

    /// The state with the frame of the program itself opened: it begins at
    /// the first cell, and a return from it leaves the program.
    pub open spec fn rooted(self) -> VmModel {
        VmModel { frames: self.frames.push(FrameModel::new(0, usize::MAX)), ..self }
    }

    /// Fetch and dispatch: the instruction at the instruction counter runs
    /// with the counter moved behind it, and comes to its outcome.
    pub open spec fn stepped(self, program: Seq<Instruction>) -> Result<VmModel, Fault> {
        program[self.instruction_counter as int].outcome(
            VmModel { instruction_counter: (self.instruction_counter + 1) as usize, ..self },
        )
    }

    /// Whether the run is over: the instruction counter has left the
    /// program.
    pub open spec fn halted(self, program: Seq<Instruction>) -> bool {
        self.instruction_counter >= program.len()
    }

    /// The state after `steps` instructions of `program`, or after fewer if
    /// the run is over before; the first fault ends everything.
    pub open spec fn progressed(self, program: Seq<Instruction>, steps: nat) -> Result<
        VmModel,
        Fault,
    >
        decreases steps,
    {
        if steps == 0 {
            Ok(self)
        } else {
            match self.progressed(program, (steps - 1) as nat) {
                Err(fault) => Err(fault),
                Ok(state) => if state.halted(program) {
                    Ok(state)
                } else {
                    state.stepped(program)
                },
            }
        }
    }
}

/// The machine: the state of a run, the backend that gives the values their
/// meaning, and the outputs collected so far.
pub struct VirtualMachine<P: Primitive, O: PrimitiveOperations<P>> {
    state: State<P>,
    operator: O,
    outputs: Vec<P>,
}

impl<P: Primitive, O: PrimitiveOperations<P>> View for VirtualMachine<P, O> {
    type V = VmModel;

    closed spec fn view(&self) -> VmModel {
        VmModel {
            instruction_counter: self.state.instruction_counter,
            conditions: values(self.state.conditions_stack@),
            evaluation: self.state.evaluation_stack@,
            memory: self.state.data_stack@,
            frames: frame_models(self.state.frames_stack@),
            outputs: values(self.outputs@),
        }
    }
}

impl<P: Primitive, O: PrimitiveOperations<P>> VirtualMachine<P, O> {
    /// The backend of the machine.
    pub closed spec fn operations(&self) -> O {
        self.operator
    }

    /// The data memory of the machine.
    pub closed spec fn data_memory(&self) -> Memory<P> {
        self.state.data_stack
    }

    /// A machine that has not run yet, with `operator` as its backend.
    pub fn new(operator: O) -> (vm: Self)
        ensures
            vm@ == VmModel::initial(),
            vm.operations() == operator,
    {
        let vm = VirtualMachine { state: State::new(), operator, outputs: Vec::new() };
        assert(vm@.outputs =~= Seq::empty());
        vm
    }

    /// The backend, to compute with. The state of the run does not change.
    pub fn get_operator(&mut self) -> (operator: &mut O)
        ensures
            *operator == old(self).operations(),
            final(self).operations() == *final(operator),
            final(self)@ == old(self)@,
            final(self).data_memory() == old(self).data_memory(),
    {
        &mut self.operator
    }

    /// Puts a condition on the condition stack.
    pub fn condition_push(&mut self, element: P) -> (res: Result<(), RuntimeError>)
        ensures
            res is Ok,
            final(self)@ == (VmModel {
                conditions: old(self)@.conditions.push(element.value()),
                ..old(self)@
            }),
            final(self).operations() == old(self).operations(),
    {
        self.state.conditions_stack.push(element);
        assert(self@.conditions =~= old(self)@.conditions.push(element.value()));
        Ok(())
    }

    /// Takes the innermost condition from the condition stack.
    pub fn condition_pop(&mut self) -> (res: Result<P, RuntimeError>)
        ensures
            match res {
                Ok(element) => {
                    &&& old(self)@.conditions.len() > 0
                    &&& element.value() == old(self)@.conditions.last()
                    &&& final(self)@ == (VmModel {
                        conditions: old(self)@.conditions.drop_last(),
                        ..old(self)@
                    })
                },
                Err(e) => {
                    &&& old(self)@.conditions.len() == 0
                    &&& e@ == Fault::StackUnderflow
                    &&& final(self)@ == old(self)@
                },
            },
            final(self).operations() == old(self).operations(),
    {
        match self.state.conditions_stack.pop() {
            Some(element) => {
                assert(self@.conditions =~= old(self)@.conditions.drop_last());
                Ok(element)
            },
            None => Err(RuntimeError::StackUnderflow),
        }
    }

    /// A copy of the innermost condition: whether the instructions that run
    /// now are really reached.
    pub fn condition_top(&mut self) -> (res: Result<P, RuntimeError>)
        ensures
            *final(self) == *old(self),
            match res {
                Ok(element) => {
                    &&& old(self)@.conditions.len() > 0
                    &&& element.value() == old(self)@.conditions.last()
                },
                Err(e) => old(self)@.conditions.len() == 0 && e@ == Fault::StackUnderflow,
            },
    {
        let conditions = self.state.conditions_stack.len();
        if conditions == 0 {
            Err(RuntimeError::StackUnderflow)
        } else {
            Ok(self.state.conditions_stack[conditions - 1].duplicate())
        }
    }

    /// A run that is over stays as it is.
    pub proof fn lemma_halted_run(start: VmModel, program: Seq<Instruction>, steps: nat, other: nat)
        requires
            start.progressed(program, steps) matches Ok(end) && end.halted(program),
            other >= steps,
        ensures
            start.progressed(program, other) == start.progressed(program, steps),
        decreases other,
    {
        if other > steps {
            Self::lemma_halted_run(start, program, steps, (other - 1) as nat);
        }
    }

    /// A run that has made a fault stays at it.
    pub proof fn lemma_faulted_run(start: VmModel, program: Seq<Instruction>, steps: nat, other: nat)
        requires
            start.progressed(program, steps) is Err,
            other >= steps,
        ensures
            start.progressed(program, other) == start.progressed(program, steps),
        decreases other,
    {
        if other > steps {
            Self::lemma_faulted_run(start, program, steps, (other - 1) as nat);
        }
    }

    /// Every state before one that was reached was reached without a fault.
    pub proof fn lemma_reached(start: VmModel, program: Seq<Instruction>, steps: nat, other: nat)
        requires
            start.progressed(program, steps) is Ok,
            other <= steps,
        ensures
            start.progressed(program, other) is Ok,
        decreases steps,
    {
        if other < steps {
            Self::lemma_reached(start, program, (steps - 1) as nat, other);
        }
    }

    /// Opens the frame of the program itself and puts the inputs on the
    /// evaluation stack: the numbers that were given, or `inputs_count`
    /// unknown values where none were.
    ///
    /// The backend is asked for one value for each input, in their order.
    /// With no input nothing is asked, and the frame is opened in any case.
    /// Where the backend fails for an input, the frame is open and the
    /// inputs before that one lie on the stack.
    fn init_root_frame(&mut self, inputs_count: usize, inputs: Option<&[BigInt]>) -> (res: Result<
        (),
        RuntimeError,
    >)
        ensures
            res is Ok ==> final(self)@ == old(self)@.rooted().push_all(
                value_slots(input_values(inputs, inputs_count)),
            ),
            input_values(inputs, inputs_count).len() == 0 ==> res is Ok,
            old(self).operations().reliable() ==> res is Ok && final(self).operations().reliable(),
            res is Err ==> exists|pushed: int|
                {
                    &&& 0 <= pushed < input_values(inputs, inputs_count).len()
                    &&& final(self)@ == old(self)@.rooted().push_all(
                        #[trigger] value_slots(input_values(inputs, inputs_count)).take(pushed),
                    )
                },
    {
        self.state.frames_stack.push(FunctionFrame::new(0, usize::MAX));
        assert(self@.frames =~= old(self)@.frames.push(FrameModel::new(0, usize::MAX)));
        let ghost opened = self@;
        let ghost all = value_slots(input_values(inputs, inputs_count));
        assert(opened == old(self)@.rooted());
        assert(opened.push_all(all.take(0)) == opened) by {
            assert(opened.evaluation.top() + all.take(0) =~= opened.evaluation.top());
            assert(opened.evaluation.with_top(opened.evaluation.top()).arms
                =~= opened.evaluation.arms);
        }
        match inputs {
            None => {
                let mut i: usize = 0;
                while i < inputs_count
                    invariant
                        i <= inputs_count,
                        inputs is None,
                        old(self).operations().reliable() ==> self.operations().reliable(),
                        opened == old(self)@.rooted(),
                        all == value_slots(input_values(inputs, inputs_count)),
                        self@ == opened.push_all(all.take(i as int)),
                    decreases inputs_count - i,
                {
                    let variable = match self.operator.variable_none() {
                        Ok(variable) => variable,
                        Err(e) => {
                            return Err(e);
                        },
                    };
                    let ghost before = self@;
                    let _ = self.state.evaluation_stack.push(Cell::Value(variable));
                    assert(self@.evaluation.base =~= opened.push_all(
                        all.take(i + 1),
                    ).evaluation.base && self@.evaluation.arms =~= opened.push_all(
                        all.take(i + 1),
                    ).evaluation.arms) by {
                        assert((opened.evaluation.top() + all.take(i as int)).push(all[i as int])
                            =~= opened.evaluation.top() + all.take(i + 1));
                    }
                    i = i + 1;
                }
                assert(all.take(inputs_count as int) =~= all);
            },
            Some(numbers) => {
                let mut i: usize = 0;
                while i < numbers.len()
                    invariant
                        i <= numbers.len(),
                        inputs == Some(numbers),
                        old(self).operations().reliable() ==> self.operations().reliable(),
                        opened == old(self)@.rooted(),
                        all == value_slots(input_values(inputs, inputs_count)),
                        self@ == opened.push_all(all.take(i as int)),
                    decreases numbers.len() - i,
                {
                    let variable = match self.operator.variable_bigint(&numbers[i]) {
                        Ok(variable) => variable,
                        Err(e) => {
                            return Err(e);
                        },
                    };
                    let _ = self.state.evaluation_stack.push(Cell::Value(variable));
                    assert(self@.evaluation.base =~= opened.push_all(
                        all.take(i + 1),
                    ).evaluation.base && self@.evaluation.arms =~= opened.push_all(
                        all.take(i + 1),
                    ).evaluation.arms) by {
                        assert((opened.evaluation.top() + all.take(i as int)).push(all[i as int])
                            =~= opened.evaluation.top() + all.take(i + 1));
                    }
                    i = i + 1;
                }
                assert(all.take(numbers.len() as int) =~= all);
            },
        }
        Ok(())
    }

    /// The outputs of the program as numbers, in the order in which the
    /// program gave them out. An output that the backend cannot resolve is
    /// absent.
    ///
    /// The backend is asked to mark each output, in their order; a program
    /// without outputs has its empty list of them whatever the backend. The
    /// state of the run is not touched.
    fn get_outputs(&mut self) -> (res: Result<Vec<Option<BigInt>>, RuntimeError>)
        ensures
            final(self)@ == old(self)@,
            res matches Ok(numbers) ==> number_values(numbers@) == old(self)@.outputs,
            old(self)@.outputs.len() == 0 ==> res is Ok,
            old(self).operations().reliable() ==> res is Ok && final(self).operations().reliable(),
    {
        let mut numbers: Vec<Option<BigInt>> = Vec::new();
        let mut i: usize = 0;
        while i < self.outputs.len()
            invariant
                i <= self.outputs.len(),
                self@ == old(self)@,
                self.outputs == old(self).outputs,
                old(self).operations().reliable() ==> self.operations().reliable(),
                numbers.len() == i,
                forall|j: int|
                    0 <= j < i ==> self.outputs@[j].value() == match #[trigger] numbers@[j] {
                        Some(number) => Some(bigint_value(number)),
                        None => None,
                    },
            decreases self.outputs.len() - i,
        {
            let element = match self.operator.output(self.outputs[i].duplicate()) {
                Ok(element) => element,
                Err(e) => {
                    return Err(e);
                },
            };
            numbers.push(element.to_bigint());
            i = i + 1;
        }
        assert(number_values(numbers@) =~= self@.outputs);
        Ok(numbers)
    }

    /// Runs a program to its end.
    ///
    /// The program has to begin with the call of its entry point; the
    /// inputs, if any are given, have to be as many as that call declares.
    /// The condition stack then gets the constant true, the inputs are put
    /// on the evaluation stack, and the instructions run one after another,
    /// each with the instruction counter already behind it, until the
    /// counter leaves the program. The first error ends the run. A run is
    /// given `u64::MAX` steps.
    ///
    /// A successful run has gone through the states that `progressed` gives,
    /// and returns the outputs of the last of them; a program that makes a
    /// fault, after however many steps, has no successful run.
    ///
    /// On a reliable backend the program alone decides. A program that
    /// leaves off within the steps given has a successful run, which returns
    /// the outputs of the state in which it leaves off. A program that makes
    /// a fault within them, or asks what the backend refuses, has that
    /// fault as the error of its run. A program that does neither within the
    /// steps given has the error that says so.
    pub fn run(&mut self, instructions: &[Instruction], inputs: Option<&[BigInt]>) -> (res: Result<
        Vec<Option<BigInt>>,
        RuntimeError,
    >)
        ensures
            setup_fault(instructions@, inputs) matches Some(fault) ==> {
                &&& res matches Err(e) && e@ == fault
                &&& *final(self) == *old(self)
            },
            res matches Ok(outputs) ==> exists|steps: nat|
                {
                    &&& #[trigger] old(self)@.started(
                        input_values(inputs, declared_inputs(instructions@)),
                    ).progressed(instructions@, steps) == Ok::<_, Fault>(final(self)@)
                    &&& final(self)@.halted(instructions@)
                    &&& number_values(outputs@) == final(self)@.outputs
                },
            res is Ok ==> forall|steps: nat|
                (#[trigger] old(self)@.started(
                    input_values(inputs, declared_inputs(instructions@)),
                ).progressed(instructions@, steps)) is Ok,
            old(self).operations().reliable() ==> final(self).operations().reliable(),
            old(self).operations().reliable() && setup_fault(instructions@, inputs) is None
                ==> forall|steps: nat|
                steps <= budget() ==> match #[trigger] old(self)@.started(
                    input_values(inputs, declared_inputs(instructions@)),
                ).progressed(instructions@, steps) {
                    Ok(end) => end.halted(instructions@) ==> {
                        &&& res matches Ok(outputs) && number_values(outputs@) == end.outputs
                        &&& final(self)@ == end
                    },
                    Err(fault) => res matches Err(e) && e@ == fault,
                },
            old(self).operations().reliable() && setup_fault(instructions@, inputs) is None && (
            old(self)@.started(input_values(inputs, declared_inputs(instructions@))).progressed(
                instructions@,
                budget(),
            ) matches Ok(state) && !state.halted(instructions@)) ==> (res matches Err(e) && e@
                == Fault::Internal(budget_text())),
    {
        if instructions.len() == 0 {
            return Err(RuntimeError::FirstInstructionNotCall);
        }
        let inputs_count = match &instructions[0] {
            Instruction::Call(call) => call.inputs_count,
            _ => {
                return Err(RuntimeError::FirstInstructionNotCall);
            },
        };
        match inputs {
            Some(numbers) => {
                if numbers.len() != inputs_count {
                    return Err(RuntimeError::WrongInputsCount);
                }
            },
            None => {},
        }
        let one = match self.operator.constant_bigint(&bigint_from_usize(1)) {
            Ok(one) => one,
            Err(e) => {
                return Err(e);
            },
        };
        let _ = self.condition_push(one);
        match self.init_root_frame(inputs_count, inputs) {
            Ok(()) => {},
            Err(e) => {
                return Err(e);
            },
        }
        let ghost start = self@;
        let ghost program = instructions@;
        assert(start == old(self)@.started(input_values(inputs, inputs_count)));
        let ghost mut steps: nat = 0;
        let mut left: u64 = u64::MAX;
        while self.state.instruction_counter < instructions.len()
            invariant
                program == instructions@,
                setup_fault(instructions@, inputs) is None,
                start == old(self)@.started(input_values(inputs, declared_inputs(instructions@))),
                start.progressed(program, steps) == Ok::<_, Fault>(self@),
                steps + left == u64::MAX,
                old(self).operations().reliable() ==> self.operations().reliable(),
            decreases left,
        {
            if left == 0 {
                proof {
                    assert forall|other: nat| other <= budget() implies (
                    #[trigger] start.progressed(program, other) matches Ok(state)
                        && !state.halted(program)) by {
                        Self::lemma_reached(start, program, steps, other);
                        if start.progressed(program, other)->Ok_0.halted(program) {
                            Self::lemma_halted_run(start, program, other, steps);
                        }
                    }
                }
                return Err(RuntimeError::InternalError("The run took too many steps".to_owned()));
            }
            left = left - 1;
            let ghost before = self@;
            let instruction = &instructions[self.state.instruction_counter];
            self.state.instruction_counter = self.state.instruction_counter + 1;
            match instruction.execute(self) {
                Ok(()) => {},
                Err(e) => {
                    proof {
                        if old(self).operations().reliable() {
                            assert(start.progressed(program, steps + 1) == Err::<VmModel, _>(e@));
                            Self::lemma_faulted_run(start, program, steps + 1, budget());
                            assert forall|other: nat| other <= budget() implies match (
                            #[trigger] start.progressed(program, other)) {
                                Ok(end) => !end.halted(program),
                                Err(fault) => fault == e@,
                            } by {
                                if other <= steps {
                                    Self::lemma_reached(start, program, steps, other);
                                    if start.progressed(program, other)->Ok_0.halted(program) {
                                        Self::lemma_halted_run(start, program, other, steps);
                                    }
                                } else {
                                    Self::lemma_faulted_run(start, program, steps + 1, other);
                                }
                            }
                        }
                    }
                    return Err(e);
                },
            }
            proof {
                steps = steps + 1;
                assert(before.stepped(program) == Ok::<_, Fault>(self@));
            }
        }
        proof {
            assert forall|other: nat| (#[trigger] start.progressed(program, other)) is Ok by {
                if other >= steps {
                    Self::lemma_halted_run(start, program, steps, other);
                } else {
                    Self::lemma_reached(start, program, steps, other);
                }
            }
            assert forall|other: nat|
                (#[trigger] start.progressed(program, other)) matches Ok(end) && end.halted(
                    program,
                ) implies start.progressed(program, other) == Ok::<_, Fault>(self@) by {
                if other >= steps {
                    Self::lemma_halted_run(start, program, steps, other);
                } else {
                    Self::lemma_halted_run(start, program, other, steps);
                }
            }
            Self::lemma_halted_run(start, program, steps, budget());
        }
        self.get_outputs()
    }

    /// The data memory, to work on directly. It is handed out only while a
    /// function frame is open.
    pub fn memory(&mut self) -> (res: Result<&mut Memory<P>, RuntimeError>)
        ensures
            match res {
                Ok(memory) => {
                    &&& old(self)@.frames.len() > 0
                    &&& *memory == old(self).data_memory()
                    &&& final(self).data_memory() == *final(memory)
                    &&& final(self)@ == (VmModel { memory: final(memory)@, ..old(self)@ })
                    &&& final(self).operations() == old(self).operations()
                },
                Err(e) => {
                    &&& old(self)@.frames.len() == 0
                    &&& e@ == Fault::StackUnderflow
                    &&& *final(self) == *old(self)
                },
            },
    {
        if self.state.frames_stack.len() == 0 {
            Err(RuntimeError::StackUnderflow)
        } else {
            Ok(&mut self.state.data_stack)
        }
    }
}

} // verus!
