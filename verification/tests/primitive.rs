use num_bigint::BigInt;
use zinc::instructions::Call;
use zinc::instructions::Exit;
use zinc::instructions::If;
use zinc::instructions::Instruction;
use zinc::instructions::InstructionInfo;
use zinc::instructions::Le;
use zinc::instructions::Load;
use zinc::instructions::LoadGlobal;
use zinc::instructions::LoadSequenceByIndex;
use zinc::instructions::LoopBegin;
use zinc::instructions::LoopEnd;
use zinc::instructions::Or;
use zinc::instructions::PushConst;
use zinc::instructions::Return;
use zinc::instructions::Store;
use zinc::instructions::StoreGlobal;
use zinc::primitive::evaluation::Evaluated;
use zinc::primitive::evaluation::Evaluator;
use zinc::primitive::BinaryOperator;
use zinc::primitive::Primitive;
use zinc::primitive::PrimitiveOperations;
use zinc::text::decimal_text;
use zinc::vm::EvaluationStack;
use zinc::vm::Cell;
use zinc::vm::Memory;
use zinc::vm::RuntimeError;

fn known(value: i64) -> Evaluated {
    Evaluated::new(Some(BigInt::from(value)))
}

fn unknown() -> Evaluated {
    Evaluated::new(None)
}

fn number(element: Result<Evaluated, RuntimeError>) -> Option<BigInt> {
    element.expect("the operation has a result").to_bigint()
}

fn is(value: i64) -> Option<BigInt> {
    Some(BigInt::from(value))
}

#[test]
fn evaluator_computes_with_numbers() {
    let mut ops = Evaluator::new();
    assert_eq!(number(ops.add(known(2), known(3))), is(5));
    assert_eq!(number(ops.sub(known(2), known(3))), is(-1));
    assert_eq!(number(ops.mul(known(-2), known(3))), is(-6));
    assert_eq!(number(ops.lt(known(2), known(3))), is(1));
    assert_eq!(number(ops.lt(known(3), known(3))), is(0));
    assert_eq!(number(ops.le(known(3), known(3))), is(1));
    assert_eq!(number(ops.le(known(4), known(3))), is(0));
    assert_eq!(number(ops.gt(known(4), known(3))), is(1));
    assert_eq!(number(ops.gt(known(3), known(3))), is(0));
    assert_eq!(number(ops.ge(known(3), known(3))), is(1));
    assert_eq!(number(ops.ge(known(2), known(3))), is(0));
    assert_eq!(number(ops.eq(known(3), known(3))), is(1));
    assert_eq!(number(ops.eq(known(-3), known(3))), is(0));
    assert_eq!(number(ops.ne(known(-3), known(3))), is(1));
    assert_eq!(number(ops.ne(known(3), known(3))), is(0));
    assert_eq!(number(ops.and(known(1), known(1))), is(1));
    assert_eq!(number(ops.and(known(1), known(0))), is(0));
    assert_eq!(number(ops.and(known(5), known(-5))), is(1));
    assert_eq!(number(ops.or(known(0), known(1))), is(1));
    assert_eq!(number(ops.or(known(0), known(0))), is(0));
    assert_eq!(number(ops.xor(known(1), known(1))), is(0));
    assert_eq!(number(ops.xor(known(1), known(0))), is(1));
    assert_eq!(number(ops.not(known(0))), is(1));
    assert_eq!(number(ops.not(known(7))), is(0));
    assert_eq!(number(ops.conditional_select(known(1), known(10), known(20))), is(10));
    assert_eq!(number(ops.conditional_select(known(0), known(10), known(20))), is(20));
    assert_eq!(number(ops.constant_bigint(&BigInt::from(-9))), is(-9));
    assert_eq!(number(ops.variable_bigint(&BigInt::from(9))), is(9));
    assert_eq!(number(ops.variable_none()), None);
    assert_eq!(number(ops.output(known(4))), is(4));
    assert_eq!(number(Ok(Evaluated::apply(BinaryOperator::Mul, &known(6), &known(7)))), is(42));
    assert_eq!(number(Ok(known(12).duplicate())), is(12));
}

#[test]
fn unknown_operands_give_unknown_results() {
    let mut ops = Evaluator::new();
    assert_eq!(number(ops.add(unknown(), known(3))), None);
    assert_eq!(number(ops.mul(known(0), unknown())), None);
    assert_eq!(number(ops.le(unknown(), unknown())), None);
    assert_eq!(number(ops.and(known(0), unknown())), None);
    assert_eq!(number(ops.not(unknown())), None);
    assert_eq!(number(ops.conditional_select(unknown(), known(1), known(1))), None);
    assert_eq!(number(ops.conditional_select(known(1), unknown(), known(1))), None);
    assert_eq!(number(ops.conditional_select(known(0), unknown(), known(1))), is(1));
    assert_eq!(number(ops.array_get(&[known(1)], unknown())), None);
    let (quotient, remainder) = ops.div_rem(unknown(), known(2)).unwrap();
    assert_eq!((quotient.to_bigint(), remainder.to_bigint()), (None, None));
    let (quotient, remainder) = ops.div_rem(known(2), unknown()).unwrap();
    assert_eq!((quotient.to_bigint(), remainder.to_bigint()), (None, None));
}

fn division(dividend: i64, divisor: i64) -> (Option<BigInt>, Option<BigInt>) {
    let (quotient, remainder) = Evaluator::new().div_rem(known(dividend), known(divisor)).unwrap();
    (quotient.to_bigint(), remainder.to_bigint())
}

#[test]
fn division_rounds_toward_zero() {
    assert_eq!(division(7, 2), (is(3), is(1)));
    assert_eq!(division(-7, 2), (is(-3), is(-1)));
    assert_eq!(division(7, -2), (is(-3), is(1)));
    assert_eq!(division(-7, -2), (is(3), is(-1)));
    assert_eq!(division(6, 3), (is(2), is(0)));
    assert_eq!(division(0, 5), (is(0), is(0)));
    assert_eq!(division(2, 5), (is(0), is(2)));
}

#[test]
fn division_by_zero_is_refused() {
    assert!(matches!(
        Evaluator::new().div_rem(known(1), known(0)),
        Err(RuntimeError::InvalidArguments)
    ));
    assert!(matches!(
        Evaluator::new().div_rem(unknown(), known(0)),
        Err(RuntimeError::InvalidArguments)
    ));
}

#[test]
fn array_elements_are_found_by_their_index() {
    let array = [known(10), known(11), known(12)];
    let mut ops = Evaluator::new();
    assert_eq!(number(ops.array_get(&array, known(0))), is(10));
    assert_eq!(number(ops.array_get(&array, known(2))), is(12));
    assert!(matches!(ops.array_get(&array, known(3)), Err(RuntimeError::IndexOutOfBounds)));
    assert!(matches!(ops.array_get(&array, known(-1)), Err(RuntimeError::IndexOutOfBounds)));
    let huge = Evaluated::new(Some("340282366920938463463374607431768211456".parse().unwrap()));
    assert!(matches!(ops.array_get(&array, huge), Err(RuntimeError::IndexOutOfBounds)));
}

#[test]
fn numbers_are_written_in_decimal() {
    assert_eq!(decimal_text(0), "0");
    assert_eq!(decimal_text(7), "7");
    assert_eq!(decimal_text(10), "10");
    assert_eq!(decimal_text(1234567890), "1234567890");
    assert_eq!(decimal_text(usize::MAX), usize::MAX.to_string());
}

#[test]
fn instructions_are_written_as_assembly() {
    assert_eq!(Or.to_assembly(), "or");
    assert_eq!(Le.to_assembly(), "le");
    assert_eq!(If.to_assembly(), "if");
    assert_eq!(LoopEnd.to_assembly(), "loop_end");
    assert_eq!(PushConst::new(BigInt::from(-42)).to_assembly(), "push -42");
    assert_eq!(Load::new(3).to_assembly(), "load 3");
    assert_eq!(Store::new(14).to_assembly(), "store 14");
    assert_eq!(LoadGlobal::new(0).to_assembly(), "load_global 0");
    assert_eq!(StoreGlobal::new(100).to_assembly(), "store_global 100");
    assert_eq!(LoadSequenceByIndex::new(1, 20, 3).to_assembly(), "load_array_by_index 1 20 3");
    assert_eq!(LoopBegin::new(9).to_assembly(), "loop_begin 9");
    assert_eq!(Call::new(12, 2).to_assembly(), "call 12 2");
    assert_eq!(Return::new(1).to_assembly(), "ret 1");
    assert_eq!(Exit::new(0).to_assembly(), "exit 0");
    assert_eq!(Instruction::Call(Call::new(12, 2)).to_assembly(), "call 12 2");
    assert_eq!(Or.wrap().to_assembly(), "or");
    assert_eq!(PushConst::new(BigInt::from(5)).wrap().to_assembly(), "push 5");
}

#[test]
fn instructions_declare_their_operands() {
    assert_eq!((Or.inputs_count(), Or.outputs_count()), (2, 1));
    assert_eq!((Le.inputs_count(), Le.outputs_count()), (2, 1));
    let load = LoadSequenceByIndex::new(1, 20, 3);
    assert_eq!((load.address, load.array_len, load.value_len), (1, 20, 3));
    assert_eq!((load.inputs_count(), load.outputs_count()), (1, 3));
    assert_eq!((Store::new(1).inputs_count(), Store::new(1).outputs_count()), (1, 0));
    assert_eq!((Load::new(1).inputs_count(), Load::new(1).outputs_count()), (0, 1));
    assert_eq!((Call::new(5, 4).inputs_count(), Call::new(5, 4).outputs_count()), (4, 0));
    assert_eq!((Exit::new(2).inputs_count(), Exit::new(2).outputs_count()), (2, 0));
    assert_eq!(Instruction::If(If).inputs_count(), 1);
    assert_eq!(Instruction::If(If).outputs_count(), 0);
}

fn value_of(cell: Cell<Evaluated>) -> Option<BigInt> {
    cell.value().expect("a value").to_bigint()
}

#[test]
fn memory_follows_the_arms_of_a_conditional() {
    let mut ops = Evaluator::new();
    let mut memory: Memory<Evaluated> = Memory::new();
    memory.set(1, Cell::Value(known(5))).unwrap();
    assert!(matches!(memory.get(0), Err(RuntimeError::UninitializedStorageAccess)));
    assert!(matches!(memory.get(2), Err(RuntimeError::UninitializedStorageAccess)));
    assert_eq!(value_of(memory.get(1).unwrap()), is(5));
    assert_eq!(memory.depth(), 0);
    assert!(matches!(memory.switch_branch(), Err(RuntimeError::UnexpectedElse)));
    assert!(matches!(memory.revert(), Err(RuntimeError::StackUnderflow)));
    assert!(matches!(memory.merge(known(1), &mut ops), Err(RuntimeError::StackUnderflow)));

    memory.fork();
    assert_eq!(memory.depth(), 1);
    assert!(memory.can_switch());
    memory.set(1, Cell::Value(known(6))).unwrap();
    memory.switch_branch().unwrap();
    assert!(!memory.can_switch());
    assert_eq!(value_of(memory.get(1).unwrap()), is(5));
    assert!(matches!(memory.switch_branch(), Err(RuntimeError::UnexpectedElse)));
    memory.set(1, Cell::Value(known(7))).unwrap();
    assert!(memory.arms_match());
    memory.merge(known(0), &mut ops).unwrap();
    assert_eq!(value_of(memory.get(1).unwrap()), is(7));
    assert_eq!(memory.depth(), 0);

    memory.fork();
    memory.set(1, Cell::Value(known(8))).unwrap();
    memory.revert().unwrap();
    assert_eq!(value_of(memory.get(1).unwrap()), is(5 + 2));

    memory.fork();
    memory.set(1, Cell::Value(known(9))).unwrap();
    memory.merge(known(1), &mut ops).unwrap();
    assert_eq!(value_of(memory.get(1).unwrap()), is(9));

    memory.fork();
    memory.set(4, Cell::Value(known(9))).unwrap();
    assert!(!memory.arms_match());
    assert!(matches!(
        memory.merge(known(1), &mut ops),
        Err(RuntimeError::BranchStacksDoNotMatch)
    ));
    assert!(matches!(
        memory.set(usize::MAX, Cell::Value(known(9))),
        Err(RuntimeError::StackOverflow)
    ));
}

#[test]
fn stack_keeps_the_arms_apart() {
    let mut ops = Evaluator::new();
    let mut stack: EvaluationStack<Evaluated> = EvaluationStack::new();
    assert!(matches!(stack.pop(), Err(RuntimeError::StackUnderflow)));
    stack.push(Cell::Value(known(1))).unwrap();
    stack.fork();
    assert_eq!(stack.depth(), 1);
    assert!(matches!(stack.pop(), Err(RuntimeError::StackUnderflow)));
    stack.push(Cell::Value(known(2))).unwrap();
    stack.push(Cell::Value(known(3))).unwrap();
    assert!(matches!(stack.merge(known(1), &mut ops), Err(RuntimeError::StackUnderflow)));
    stack.fork();
    stack.push(Cell::Value(known(20))).unwrap();
    assert!(!stack.arms_match());
    stack.push(Cell::Value(known(30))).unwrap();
    assert!(stack.arms_match());
    stack.merge(known(0), &mut ops).unwrap();
    assert_eq!(stack.depth(), 0);
    assert_eq!(value_of(stack.pop().unwrap()), is(30));
    assert_eq!(value_of(stack.pop().unwrap()), is(20));
    assert_eq!(value_of(stack.pop().unwrap()), is(1));
    assert!(matches!(stack.pop(), Err(RuntimeError::StackUnderflow)));

    stack.push(Cell::Value(known(1))).unwrap();
    stack.fork();
    stack.push(Cell::Value(known(2))).unwrap();
    stack.revert().unwrap();
    assert_eq!(value_of(stack.pop().unwrap()), is(1));
    assert!(matches!(stack.revert(), Err(RuntimeError::StackUnderflow)));

    stack.fork();
    stack.push(Cell::Value(known(2))).unwrap();
    stack.fork();
    stack.push(Cell::Uninitialized).unwrap();
    assert!(matches!(
        stack.merge(known(1), &mut ops),
        Err(RuntimeError::BranchStacksDoNotMatch)
    ));
}
