use num_bigint::BigInt;
use zinc::instructions::Add;
use zinc::instructions::And;
use zinc::instructions::Call;
use zinc::instructions::Div;
use zinc::instructions::Rem;
use zinc::instructions::Else;
use zinc::instructions::EndIf;
use zinc::instructions::Exit;
use zinc::instructions::Ge;
use zinc::instructions::Gt;
use zinc::instructions::If;
use zinc::instructions::Instruction;
use zinc::instructions::Le;
use zinc::instructions::Load;
use zinc::instructions::LoadGlobal;
use zinc::instructions::LoadSequenceByIndex;
use zinc::instructions::LoopBegin;
use zinc::instructions::LoopEnd;
use zinc::instructions::Lt;
use zinc::instructions::Mul;
use zinc::instructions::Ne;
use zinc::instructions::Not;
use zinc::instructions::Or;
use zinc::instructions::PushConst;
use zinc::instructions::Return;
use zinc::instructions::Store;
use zinc::instructions::StoreGlobal;
use zinc::instructions::Sub;
use zinc::instructions::Xor;
use zinc::primitive::evaluation::Evaluated;
use zinc::primitive::evaluation::Evaluator;
use zinc::primitive::PrimitiveOperations;
use zinc::vm::Cell;
use zinc::vm::InternalVM;
use zinc::vm::RuntimeError;
use zinc::vm::VirtualMachine;

fn push(value: i64) -> Instruction {
    Instruction::PushConst(PushConst::new(BigInt::from(value)))
}

fn machine() -> VirtualMachine<Evaluated, Evaluator> {
    VirtualMachine::new(Evaluator::new())
}

/// Runs `body` as the function that the program enters, and returns the
/// `outputs` top operands that it leaves, the top one first.
fn outputs_of(body: Vec<Instruction>, outputs: usize) -> Result<Vec<Option<BigInt>>, RuntimeError> {
    let mut program = vec![Instruction::Call(Call::new(1, 0))];
    program.extend(body);
    program.push(Instruction::Exit(Exit::new(outputs)));
    machine().run(&program, None)
}

fn numbers(values: &[i64]) -> Vec<Option<BigInt>> {
    values.iter().map(|value| Some(BigInt::from(*value))).collect()
}

fn expect(body: Vec<Instruction>, expected: &[i64]) {
    let outputs = outputs_of(body, expected.len()).expect("the program runs");
    assert_eq!(outputs, numbers(expected));
}

#[test]
fn test_le() {
    expect(
        vec![
            push(1),
            push(2),
            Instruction::Le(Le),
            push(2),
            push(2),
            Instruction::Le(Le),
            push(2),
            push(1),
            Instruction::Le(Le),
            push(2),
            push(-2),
            Instruction::Le(Le),
            push(-2),
            push(2),
            Instruction::Le(Le),
        ],
        &[0, 1, 1, 1, 0],
    );
}

fn compare_inputs(first: i64, second: i64) -> Vec<Option<BigInt>> {
    let program = vec![
        Instruction::Call(Call::new(1, 2)),
        Instruction::Load(Load::new(0)),
        Instruction::Load(Load::new(1)),
        Instruction::Le(Le),
        Instruction::Exit(Exit::new(1)),
    ];
    let inputs = vec![BigInt::from(first), BigInt::from(second)];
    machine().run(&program, Some(&inputs)).expect("the program runs")
}

#[test]
fn end_to_end_less_or_equal() {
    assert_eq!(compare_inputs(1, 2), numbers(&[1]));
    assert_eq!(compare_inputs(2, 2), numbers(&[1]));
    assert_eq!(compare_inputs(2, 1), numbers(&[0]));
}

#[test]
fn unknown_inputs_give_unknown_outputs() {
    let program = vec![
        Instruction::Call(Call::new(1, 2)),
        Instruction::Load(Load::new(0)),
        Instruction::Load(Load::new(1)),
        Instruction::Add(Add),
        Instruction::Exit(Exit::new(1)),
    ];
    let outputs = machine().run(&program, None).expect("the program runs");
    assert_eq!(outputs, vec![None]);
}

#[test]
fn arithmetic_is_exact() {
    expect(vec![push(3), push(40), Instruction::Add(Add)], &[43]);
    expect(vec![push(3), push(40), Instruction::Sub(Sub)], &[37]);
    expect(vec![push(40), push(3), Instruction::Sub(Sub)], &[-37]);
    expect(vec![push(-6), push(7), Instruction::Mul(Mul)], &[-42]);
    let big = "123456789012345678901234567890";
    let outputs = outputs_of(
        vec![
            Instruction::PushConst(PushConst::new(big.parse::<BigInt>().unwrap())),
            Instruction::PushConst(PushConst::new(big.parse::<BigInt>().unwrap())),
            Instruction::Mul(Mul),
        ],
        1,
    )
    .unwrap();
    let expected = "15241578753238836750495351562536198787501905199875019052100"
        .parse::<BigInt>()
        .unwrap();
    assert_eq!(outputs, vec![Some(expected)]);
}

#[test]
fn division_takes_the_top_operand_as_the_dividend() {
    expect(vec![push(2), push(7), Instruction::Div(Div)], &[3]);
    expect(vec![push(2), push(7), Instruction::Rem(Rem)], &[1]);
    expect(vec![push(2), push(-7), Instruction::Div(Div)], &[-3]);
    expect(vec![push(2), push(-7), Instruction::Rem(Rem)], &[-1]);
    expect(vec![push(-2), push(7), Instruction::Div(Div)], &[-3]);
    expect(vec![push(-2), push(7), Instruction::Rem(Rem)], &[1]);
    assert!(matches!(
        outputs_of(vec![push(0), push(7), Instruction::Div(Div)], 1),
        Err(RuntimeError::InvalidArguments)
    ));
    assert!(matches!(
        outputs_of(vec![push(0), push(7), Instruction::Rem(Rem)], 1),
        Err(RuntimeError::InvalidArguments)
    ));
}

#[test]
fn comparisons_take_the_top_operand_as_the_left_one() {
    expect(vec![push(1), push(2), Instruction::Lt(Lt)], &[0]);
    expect(vec![push(2), push(1), Instruction::Lt(Lt)], &[1]);
    expect(vec![push(2), push(2), Instruction::Lt(Lt)], &[0]);
    expect(vec![push(1), push(2), Instruction::Gt(Gt)], &[1]);
    expect(vec![push(2), push(2), Instruction::Gt(Gt)], &[0]);
    expect(vec![push(1), push(2), Instruction::Ge(Ge)], &[1]);
    expect(vec![push(2), push(1), Instruction::Ge(Ge)], &[0]);
    expect(vec![push(2), push(2), Instruction::Ge(Ge)], &[1]);
    expect(vec![push(5), push(5), Instruction::Eq(zinc::instructions::builtins::Eq)], &[1]);
    expect(vec![push(5), push(-5), Instruction::Eq(zinc::instructions::builtins::Eq)], &[0]);
    expect(vec![push(5), push(5), Instruction::Ne(Ne)], &[0]);
    expect(vec![push(5), push(6), Instruction::Ne(Ne)], &[1]);
}

#[test]
fn logic_reads_zero_as_false() {
    expect(vec![push(1), push(1), Instruction::And(And)], &[1]);
    expect(vec![push(1), push(0), Instruction::And(And)], &[0]);
    expect(vec![push(0), push(0), Instruction::Or(Or)], &[0]);
    expect(vec![push(0), push(1), Instruction::Or(Or)], &[1]);
    expect(vec![push(1), push(1), Instruction::Xor(Xor)], &[0]);
    expect(vec![push(0), push(1), Instruction::Xor(Xor)], &[1]);
    expect(vec![push(0), Instruction::Not(Not)], &[1]);
    expect(vec![push(1), Instruction::Not(Not)], &[0]);
}

fn conditional_with_both_arms(condition: i64) -> Vec<Option<BigInt>> {
    outputs_of(
        vec![
            push(7),
            Instruction::Store(Store::new(0)),
            push(8),
            Instruction::Store(Store::new(1)),
            push(condition),
            Instruction::If(If),
            push(10),
            Instruction::Store(Store::new(0)),
            push(11),
            Instruction::Store(Store::new(1)),
            Instruction::Else(Else),
            push(20),
            Instruction::Store(Store::new(0)),
            push(21),
            Instruction::Store(Store::new(1)),
            Instruction::EndIf(EndIf),
            Instruction::Load(Load::new(1)),
            Instruction::Load(Load::new(0)),
        ],
        2,
    )
    .expect("the program runs")
}

#[test]
fn branch_merge_selects_by_the_condition() {
    assert_eq!(conditional_with_both_arms(1), numbers(&[10, 11]));
    assert_eq!(conditional_with_both_arms(0), numbers(&[20, 21]));
}

fn nested_conditional(outer: i64, inner: i64) -> Vec<Option<BigInt>> {
    outputs_of(
        vec![
            push(0),
            Instruction::Store(Store::new(0)),
            push(outer),
            Instruction::If(If),
            push(inner),
            Instruction::If(If),
            push(1),
            Instruction::Store(Store::new(0)),
            Instruction::Else(Else),
            push(2),
            Instruction::Store(Store::new(0)),
            Instruction::EndIf(EndIf),
            Instruction::Else(Else),
            push(3),
            Instruction::Store(Store::new(0)),
            Instruction::EndIf(EndIf),
            Instruction::Load(Load::new(0)),
        ],
        1,
    )
    .expect("the program runs")
}

#[test]
fn branch_merge_holds_for_nested_conditionals() {
    assert_eq!(nested_conditional(1, 1), numbers(&[1]));
    assert_eq!(nested_conditional(1, 0), numbers(&[2]));
    assert_eq!(nested_conditional(0, 1), numbers(&[3]));
    assert_eq!(nested_conditional(0, 0), numbers(&[3]));
}

#[test]
fn branch_merge_of_operands() {
    let program = |condition: i64| {
        vec![
            push(condition),
            Instruction::If(If),
            push(5),
            push(6),
            Instruction::Else(Else),
            push(50),
            push(60),
            Instruction::EndIf(EndIf),
        ]
    };
    expect(program(1), &[6, 5]);
    expect(program(0), &[60, 50]);
}

fn conditional_without_else(condition: i64) -> Vec<Option<BigInt>> {
    outputs_of(
        vec![
            push(7),
            Instruction::Store(Store::new(3)),
            push(condition),
            Instruction::If(If),
            push(9),
            Instruction::Store(Store::new(3)),
            push(1000),
            Instruction::EndIf(EndIf),
            Instruction::Load(Load::new(3)),
        ],
        1,
    )
    .expect("the program runs")
}

#[test]
fn conditional_without_else_keeps_what_was_there() {
    assert_eq!(conditional_without_else(0), numbers(&[7]));
    assert_eq!(conditional_without_else(1), numbers(&[9]));
}

#[test]
fn conditional_without_else_drops_the_operands_of_its_arm() {
    let result = outputs_of(
        vec![push(1), Instruction::If(If), push(1000), Instruction::EndIf(EndIf)],
        1,
    );
    assert!(matches!(result, Err(RuntimeError::StackUnderflow)));
}

fn sum_of_passes(passes: usize) -> Result<Vec<Option<BigInt>>, RuntimeError> {
    outputs_of(
        vec![
            push(0),
            Instruction::Store(Store::new(0)),
            Instruction::LoopBegin(LoopBegin::new(passes)),
            Instruction::Load(Load::new(0)),
            push(1),
            Instruction::Add(Add),
            Instruction::Store(Store::new(0)),
            Instruction::LoopEnd(LoopEnd),
            Instruction::Load(Load::new(0)),
        ],
        1,
    )
}

#[test]
fn loop_runs_its_body_as_often_as_it_says() {
    assert_eq!(sum_of_passes(1).unwrap(), numbers(&[1]));
    assert_eq!(sum_of_passes(2).unwrap(), numbers(&[2]));
    assert_eq!(sum_of_passes(5).unwrap(), numbers(&[5]));
    assert_eq!(sum_of_passes(100).unwrap(), numbers(&[100]));
}

#[test]
fn loop_of_no_pass_is_refused() {
    assert!(matches!(sum_of_passes(0), Err(RuntimeError::InvalidArguments)));
}

#[test]
fn nested_loops_multiply() {
    expect(
        vec![
            push(0),
            Instruction::Store(Store::new(0)),
            Instruction::LoopBegin(LoopBegin::new(3)),
            Instruction::LoopBegin(LoopBegin::new(4)),
            Instruction::Load(Load::new(0)),
            push(1),
            Instruction::Add(Add),
            Instruction::Store(Store::new(0)),
            Instruction::LoopEnd(LoopEnd),
            Instruction::LoopEnd(LoopEnd),
            Instruction::Load(Load::new(0)),
        ],
        &[12],
    );
}

#[test]
fn call_hands_over_arguments_and_keeps_the_frames_apart() {
    // 0: call 2 0          the program enters its main function
    // 1: exit 3
    // 2: push 5; store 0   main: local 0 = 5
    // 4: push 30; push 40  the arguments, 40 on top
    // 6: call 10 2
    // 7: load 0            main's local 0 again
    // 8: ret 3
    // 9: (unused)
    // 10: load 0; load 1   the callee: its local 0 is 40, its local 1 is 30
    // 12: sub              30 - 40
    // 13: push 99; store 0 the callee's local 0 = 99
    // 15: load 0
    // 16: ret 2
    let program = vec![
        Instruction::Call(Call::new(2, 0)),
        Instruction::Exit(Exit::new(3)),
        push(5),
        Instruction::Store(Store::new(0)),
        push(30),
        push(40),
        Instruction::Call(Call::new(10, 2)),
        Instruction::Load(Load::new(0)),
        Instruction::Return(Return::new(3)),
        push(0),
        Instruction::Load(Load::new(0)),
        Instruction::Load(Load::new(1)),
        Instruction::Sub(Sub),
        push(99),
        Instruction::Store(Store::new(0)),
        Instruction::Load(Load::new(0)),
        Instruction::Return(Return::new(2)),
    ];
    let outputs = machine().run(&program, None).expect("the program runs");
    assert_eq!(outputs, numbers(&[5, 99, -10]));
}

#[test]
fn locals_of_a_function_are_out_of_reach_after_its_return() {
    let program = |address: usize| {
        vec![
            Instruction::Call(Call::new(2, 0)),
            Instruction::Exit(Exit::new(1)),
            push(5),
            Instruction::Store(Store::new(0)),
            Instruction::Call(Call::new(7, 0)),
            Instruction::Load(Load::new(address)),
            Instruction::Return(Return::new(1)),
            push(77),
            Instruction::Store(Store::new(0)),
            push(78),
            Instruction::Store(Store::new(3)),
            Instruction::Return(Return::new(0)),
        ]
    };
    assert_eq!(machine().run(&program(0), None).unwrap(), numbers(&[5]));
    assert!(matches!(
        machine().run(&program(1), None),
        Err(RuntimeError::UninitializedStorageAccess)
    ));
    assert!(matches!(
        machine().run(&program(4), None),
        Err(RuntimeError::UninitializedStorageAccess)
    ));
}

#[test]
fn global_addresses_name_the_cells_themselves() {
    // The callee's local 0 is the cell behind the caller's one local.
    let program = vec![
        Instruction::Call(Call::new(2, 0)),
        Instruction::Exit(Exit::new(2)),
        push(5),
        Instruction::Store(Store::new(0)),
        Instruction::Call(Call::new(6, 0)),
        Instruction::Return(Return::new(2)),
        push(77),
        Instruction::Store(Store::new(0)),
        Instruction::LoadGlobal(LoadGlobal::new(0)),
        Instruction::LoadGlobal(LoadGlobal::new(1)),
        push(6),
        Instruction::StoreGlobal(StoreGlobal::new(0)),
        Instruction::Return(Return::new(2)),
    ];
    let outputs = machine().run(&program, None).expect("the program runs");
    assert_eq!(outputs, numbers(&[77, 5]));
}

#[test]
fn uneven_arms_are_reported() {
    let result = outputs_of(
        vec![
            push(1),
            Instruction::If(If),
            push(5),
            push(6),
            Instruction::Else(Else),
            push(50),
            Instruction::EndIf(EndIf),
        ],
        0,
    );
    assert!(matches!(result, Err(RuntimeError::BranchStacksDoNotMatch)));
}

#[test]
fn arms_that_store_to_different_cells_are_reported() {
    let result = outputs_of(
        vec![
            push(1),
            Instruction::If(If),
            push(5),
            Instruction::Store(Store::new(0)),
            Instruction::Else(Else),
            Instruction::EndIf(EndIf),
        ],
        0,
    );
    assert!(matches!(result, Err(RuntimeError::BranchStacksDoNotMatch)));
}

#[test]
fn condition_stack_is_balanced_after_a_run() {
    let mut vm = machine();
    let program = vec![
        Instruction::Call(Call::new(1, 0)),
        push(1),
        Instruction::If(If),
        push(0),
        Instruction::If(If),
        Instruction::EndIf(EndIf),
        Instruction::Else(Else),
        Instruction::EndIf(EndIf),
        Instruction::Exit(Exit::new(0)),
    ];
    vm.run(&program, None).expect("the program runs");
    let constant = vm.condition_pop().expect("the constant is there");
    assert_eq!(zinc::primitive::Primitive::to_bigint(&constant), Some(BigInt::from(1)));
    assert!(matches!(vm.condition_pop(), Err(RuntimeError::StackUnderflow)));
}

#[test]
fn conditions_combine_inside_nested_conditionals() {
    let mut vm = machine();
    let program = vec![
        Instruction::Call(Call::new(1, 0)),
        push(1),
        Instruction::If(If),
        push(0),
        Instruction::If(If),
        Instruction::Else(Else),
        Instruction::Exit(Exit::new(0)),
    ];
    vm.run(&program, None).expect("the program runs");
    let values: Vec<Option<BigInt>> = (0..3)
        .map(|_| zinc::primitive::Primitive::to_bigint(&vm.condition_pop().unwrap()))
        .collect();
    assert_eq!(values, numbers(&[1, 1, 1]));
    let mut vm = machine();
    let program = vec![
        Instruction::Call(Call::new(1, 0)),
        push(0),
        Instruction::If(If),
        push(1),
        Instruction::If(If),
        Instruction::Exit(Exit::new(0)),
    ];
    vm.run(&program, None).expect("the program runs");
    let values: Vec<Option<BigInt>> = (0..3)
        .map(|_| zinc::primitive::Primitive::to_bigint(&vm.condition_pop().unwrap()))
        .collect();
    assert_eq!(values, numbers(&[0, 0, 1]));
}

#[test]
fn array_elements_are_read_by_an_index_on_the_stack() {
    let program = |index: i64, count: usize| {
        vec![
            push(10),
            Instruction::Store(Store::new(2)),
            push(11),
            Instruction::Store(Store::new(3)),
            push(12),
            Instruction::Store(Store::new(4)),
            push(13),
            Instruction::Store(Store::new(5)),
            push(index),
            Instruction::LoadSequenceByIndex(LoadSequenceByIndex::new(2, 4, count)),
        ]
    };
    expect(program(0, 1), &[10]);
    expect(program(3, 1), &[13]);
    expect(program(1, 2), &[11, 12]);
    expect(program(0, 4), &[10, 11, 12, 13]);
    assert!(matches!(outputs_of(program(4, 1), 1), Err(RuntimeError::IndexOutOfBounds)));
    assert!(matches!(outputs_of(program(3, 2), 2), Err(RuntimeError::IndexOutOfBounds)));
    assert!(matches!(outputs_of(program(-1, 1), 1), Err(RuntimeError::IndexOutOfBounds)));
}

#[test]
fn array_has_to_be_initialized() {
    let result = outputs_of(
        vec![
            push(10),
            Instruction::Store(Store::new(1)),
            push(0),
            Instruction::LoadSequenceByIndex(LoadSequenceByIndex::new(0, 2, 1)),
        ],
        1,
    );
    assert!(matches!(result, Err(RuntimeError::UninitializedStorageAccess)));
}

#[test]
fn program_has_to_begin_with_a_call() {
    assert!(matches!(machine().run(&[], None), Err(RuntimeError::FirstInstructionNotCall)));
    assert!(matches!(
        machine().run(&[push(1), Instruction::Exit(Exit::new(1))], None),
        Err(RuntimeError::FirstInstructionNotCall)
    ));
}

#[test]
fn inputs_have_to_be_as_many_as_declared() {
    let program = vec![Instruction::Call(Call::new(1, 2)), Instruction::Exit(Exit::new(0))];
    let inputs = vec![BigInt::from(1)];
    assert!(matches!(
        machine().run(&program, Some(&inputs)),
        Err(RuntimeError::WrongInputsCount)
    ));
}

#[test]
fn faults_of_the_program_are_reported() {
    assert!(matches!(outputs_of(vec![], 1), Err(RuntimeError::StackUnderflow)));
    assert!(matches!(
        outputs_of(vec![Instruction::Add(Add)], 0),
        Err(RuntimeError::StackUnderflow)
    ));
    assert!(matches!(
        outputs_of(vec![Instruction::Load(Load::new(0))], 0),
        Err(RuntimeError::UninitializedStorageAccess)
    ));
    assert!(matches!(
        outputs_of(vec![push(1), Instruction::Store(Store::new(2)), Instruction::Load(Load::new(1))], 0),
        Err(RuntimeError::UninitializedStorageAccess)
    ));
    assert!(matches!(
        outputs_of(vec![Instruction::LoopEnd(LoopEnd)], 0),
        Err(RuntimeError::UnexpectedLoopEnd)
    ));
    assert!(matches!(
        outputs_of(vec![push(1), Instruction::If(If), Instruction::LoopEnd(LoopEnd)], 0),
        Err(RuntimeError::UnexpectedLoopEnd)
    ));
    assert!(matches!(outputs_of(vec![Instruction::Else(Else)], 0), Err(RuntimeError::UnexpectedElse)));
    assert!(matches!(
        outputs_of(
            vec![push(1), Instruction::If(If), Instruction::Else(Else), Instruction::Else(Else)],
            0
        ),
        Err(RuntimeError::UnexpectedElse)
    ));
    assert!(matches!(outputs_of(vec![Instruction::EndIf(EndIf)], 0), Err(RuntimeError::UnexpectedEndIf)));
    assert!(matches!(
        outputs_of(vec![Instruction::LoopBegin(LoopBegin::new(2)), Instruction::EndIf(EndIf)], 0),
        Err(RuntimeError::UnexpectedEndIf)
    ));
    assert!(matches!(
        outputs_of(vec![push(1), Instruction::Store(Store::new(usize::MAX))], 0),
        Err(RuntimeError::StackOverflow)
    ));
    assert!(matches!(
        outputs_of(vec![push(1), Instruction::StoreGlobal(StoreGlobal::new(usize::MAX))], 0),
        Err(RuntimeError::StackOverflow)
    ));
}

#[test]
fn operations_need_a_frame() {
    assert!(matches!(machine().ret(0), Err(RuntimeError::StackUnderflow)));
    assert!(matches!(machine().call(0, 0), Err(RuntimeError::StackUnderflow)));
    assert!(matches!(machine().load(0), Err(RuntimeError::StackUnderflow)));
    assert!(matches!(machine().memory(), Err(RuntimeError::StackUnderflow)));
    match machine().loop_begin(1) {
        Err(RuntimeError::InternalError(message)) => assert_eq!(message, "Root frame is missing"),
        _ => panic!("a loop needs a frame"),
    }
    match machine().loop_end() {
        Err(RuntimeError::InternalError(message)) => assert_eq!(message, "Root frame is missing"),
        _ => panic!("a loop needs a frame"),
    }
    match machine().branch_else() {
        Err(RuntimeError::InternalError(message)) => assert_eq!(message, "Root frame is missing"),
        _ => panic!("a conditional needs a frame"),
    }
    let mut vm = machine();
    vm.condition_push(Evaluated::new(Some(BigInt::from(1)))).unwrap();
    match vm.branch_end() {
        Err(RuntimeError::InternalError(message)) => assert_eq!(message, "Root frame is missing"),
        _ => panic!("a conditional needs a frame"),
    }
    assert!(matches!(machine().branch_end(), Err(RuntimeError::StackUnderflow)));
    assert!(matches!(machine().condition_top(), Err(RuntimeError::StackUnderflow)));
    assert!(matches!(machine().condition_pop(), Err(RuntimeError::StackUnderflow)));
}

#[test]
fn machine_can_be_driven_step_by_step() {
    let mut vm = machine();
    let program = vec![Instruction::Call(Call::new(1, 0))];
    vm.run(&program, None).expect("the program runs");
    vm.push(Cell::Value(Evaluated::new(Some(BigInt::from(3))))).unwrap();
    vm.store(4, Cell::Value(Evaluated::new(Some(BigInt::from(8))))).unwrap();
    let loaded = vm.load(4).unwrap().value().unwrap();
    assert_eq!(zinc::primitive::Primitive::to_bigint(&loaded), Some(BigInt::from(8)));
    assert!(matches!(vm.load(3), Err(RuntimeError::UninitializedStorageAccess)));
    let popped = vm.pop().unwrap().value().unwrap();
    let sum = vm.get_operator().add(popped, loaded).unwrap();
    assert_eq!(zinc::primitive::Primitive::to_bigint(&sum), Some(BigInt::from(11)));
    let memory = vm.memory().unwrap();
    memory.set(0, Cell::Value(Evaluated::new(None))).unwrap();
    let unknown = vm.load_global(0).unwrap().value().unwrap();
    assert_eq!(zinc::primitive::Primitive::to_bigint(&unknown), None);
    assert!(matches!(Cell::<Evaluated>::Uninitialized.value(), Err(RuntimeError::UninitializedStorageAccess)));
    let top = vm.condition_top().unwrap();
    assert_eq!(zinc::primitive::Primitive::to_bigint(&top), Some(BigInt::from(1)));
}

#[test]
fn returning_from_the_program_ends_the_run() {
    // A return from the frame of the program itself leaves the program.
    let program = vec![
        Instruction::Call(Call::new(1, 0)),
        push(4),
        Instruction::Return(Return::new(0)),
        Instruction::Return(Return::new(0)),
    ];
    let outputs = machine().run(&program, None).expect("the program runs");
    assert_eq!(outputs, Vec::<Option<BigInt>>::new());
}

#[test]
fn synthesis_errors_are_carried_as_they_are() {
    let error = RuntimeError::from(franklin_crypto::bellman::SynthesisError::DivisionByZero);
    match error {
        RuntimeError::SynthesisError(inner) => {
            assert!(matches!(inner, franklin_crypto::bellman::SynthesisError::DivisionByZero));
        }
        _ => panic!("the error of the constraint system is kept"),
    }
}

#[test]
fn refused_operations_leave_the_machine_as_it_was() {
    let mut vm = machine();
    vm.run(&[Instruction::Call(Call::new(1, 0))], None).expect("the program runs");
    // A conditional on a cell without a value.
    vm.push(Cell::Uninitialized).unwrap();
    assert!(matches!(vm.branch_then(), Err(RuntimeError::UninitializedStorageAccess)));
    assert!(matches!(vm.pop(), Ok(Cell::Uninitialized)));
    assert!(matches!(vm.pop(), Err(RuntimeError::StackUnderflow)));
    // A call that lacks an argument opens no frame and takes no operand.
    vm.push(Cell::Value(Evaluated::new(Some(BigInt::from(3))))).unwrap();
    assert!(matches!(vm.call(9, 2), Err(RuntimeError::StackUnderflow)));
    assert!(matches!(vm.load(0), Err(RuntimeError::UninitializedStorageAccess)));
    // A return that lacks a result keeps the frame and the operand.
    assert!(matches!(vm.ret(2), Err(RuntimeError::StackUnderflow)));
    vm.store(0, Cell::Value(Evaluated::new(Some(BigInt::from(4))))).unwrap();
    assert_eq!(
        zinc::primitive::Primitive::to_bigint(&vm.load(0).unwrap().value().unwrap()),
        Some(BigInt::from(4))
    );
    // An end that meets a cell without a value takes no output.
    vm.push(Cell::Uninitialized).unwrap();
    vm.push(Cell::Value(Evaluated::new(Some(BigInt::from(5))))).unwrap();
    assert!(matches!(vm.exit(2), Err(RuntimeError::UninitializedStorageAccess)));
    assert!(matches!(vm.exit(4), Err(RuntimeError::UninitializedStorageAccess)));
    let top = vm.pop().unwrap().value().unwrap();
    assert_eq!(zinc::primitive::Primitive::to_bigint(&top), Some(BigInt::from(5)));
    assert!(matches!(vm.pop(), Ok(Cell::Uninitialized)));
    assert!(matches!(vm.pop(), Ok(Cell::Value(_))));
    assert!(matches!(vm.exit(1), Err(RuntimeError::StackUnderflow)));
    // The end of a conditional that is not there.
    assert!(matches!(vm.branch_end(), Err(RuntimeError::UnexpectedEndIf)));
    assert!(matches!(vm.loop_end(), Err(RuntimeError::UnexpectedLoopEnd)));
    let condition = vm.condition_top().unwrap();
    assert_eq!(zinc::primitive::Primitive::to_bigint(&condition), Some(BigInt::from(1)));
}

#[test]
fn conditional_without_values_asks_nothing() {
    let mut vm = machine();
    vm.run(&[Instruction::Call(Call::new(1, 0))], None).expect("the program runs");
    vm.push(Cell::Value(Evaluated::new(None))).unwrap();
    vm.branch_then().unwrap();
    vm.branch_else().unwrap();
    vm.branch_end().unwrap();
    assert!(matches!(vm.pop(), Err(RuntimeError::StackUnderflow)));
}
