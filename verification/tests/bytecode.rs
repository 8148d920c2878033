use num_bigint::BigInt;
use zinc::instructions::code::DecodingError;
use zinc::instructions::code::InstructionCode;
use zinc::instructions::decode_all_instructions;
use zinc::instructions::encode_all_instructions;
use zinc::instructions::Add;
use zinc::instructions::Call;
use zinc::instructions::Else;
use zinc::instructions::EndIf;
use zinc::instructions::Exit;
use zinc::instructions::If;
use zinc::instructions::Instruction;
use zinc::instructions::InstructionInfo;
use zinc::instructions::Le;
use zinc::instructions::Load;
use zinc::instructions::LoadGlobal;
use zinc::instructions::LoadSequenceByIndex;
use zinc::instructions::LoopBegin;
use zinc::instructions::LoopEnd;
use zinc::instructions::Not;
use zinc::instructions::Or;
use zinc::instructions::PushConst;
use zinc::instructions::Return;
use zinc::instructions::Store;
use zinc::instructions::StoreGlobal;

fn program() -> Vec<Instruction> {
    vec![
        Instruction::Call(Call::new(2, 1)),
        Instruction::Exit(Exit::new(1)),
        Instruction::PushConst(PushConst::new(BigInt::from(0))),
        Instruction::PushConst(PushConst::new(BigInt::from(-1))),
        Instruction::PushConst(PushConst::new(BigInt::from(255))),
        Instruction::PushConst(PushConst::new(BigInt::from(256))),
        Instruction::PushConst(PushConst::new(
            "-123456789012345678901234567890123456789".parse::<BigInt>().unwrap(),
        )),
        Instruction::Load(Load::new(0)),
        Instruction::Store(Store::new(usize::MAX)),
        Instruction::LoadGlobal(LoadGlobal::new(7)),
        Instruction::StoreGlobal(StoreGlobal::new(8)),
        Instruction::LoadSequenceByIndex(LoadSequenceByIndex::new(1, 1000, 3)),
        Instruction::Add(Add),
        Instruction::Or(Or),
        Instruction::Le(Le),
        Instruction::Not(Not),
        Instruction::Eq(zinc::instructions::builtins::Eq),
        Instruction::LoopBegin(LoopBegin::new(12)),
        Instruction::LoopEnd(LoopEnd),
        Instruction::If(If),
        Instruction::Else(Else),
        Instruction::EndIf(EndIf),
        Instruction::Return(Return::new(2)),
        Instruction::Div(zinc::instructions::Div),
        Instruction::Rem(zinc::instructions::Rem),
    ]
}

fn lines(program: &[Instruction]) -> Vec<String> {
    program.iter().map(|instruction| instruction.to_assembly()).collect()
}

#[test]
fn programs_are_read_as_they_were_written() {
    let bytes = encode_all_instructions(&program());
    let decoded = decode_all_instructions(&bytes).expect("the bytes are a program");
    assert_eq!(lines(&decoded), lines(&program()));
    assert_eq!(encode_all_instructions(&decoded), bytes);
}

#[test]
fn instructions_are_written_as_their_code_and_arguments() {
    assert_eq!(Or.encode(), vec![10]);
    assert_eq!(Or::code(), InstructionCode::Or);
    assert_eq!(Instruction::Or(Or).code(), InstructionCode::Or);
    assert_eq!(Load::new(258).encode(), vec![1, 2, 1, 0, 0, 0, 0, 0, 0]);
    assert_eq!(
        LoadSequenceByIndex::new(1, 2, 3).encode(),
        vec![5, 1, 0, 0, 0, 0, 0, 0, 0, 2, 0, 0, 0, 0, 0, 0, 0, 3, 0, 0, 0, 0, 0, 0, 0]
    );
    assert_eq!(LoadSequenceByIndex::code(), InstructionCode::LoadSequenceByIndex);
    assert_eq!(
        PushConst::new(BigInt::from(-258)).encode(),
        vec![0, 1, 2, 0, 0, 0, 0, 0, 0, 0, 2, 1]
    );
    assert_eq!(
        PushConst::new(BigInt::from(0)).encode(),
        vec![0, 0, 1, 0, 0, 0, 0, 0, 0, 0, 0]
    );
    assert_eq!(encode_all_instructions(&[]), Vec::<u8>::new());
    assert_eq!(
        encode_all_instructions(&[Instruction::Or(Or), Instruction::Load(Load::new(1))]),
        vec![10, 1, 1, 0, 0, 0, 0, 0, 0, 0]
    );
}

#[test]
fn instructions_are_read_from_the_beginning_of_the_bytes() {
    let (or, size) = Or::decode(&[10, 99]).unwrap();
    assert_eq!((or, size), (Or, 1));
    let (load, size) = LoadSequenceByIndex::decode(&[
        5, 1, 0, 0, 0, 0, 0, 0, 0, 2, 0, 0, 0, 0, 0, 0, 0, 3, 1, 0, 0, 0, 0, 0, 0, 77,
    ])
    .unwrap();
    assert_eq!((load, size), (LoadSequenceByIndex::new(1, 2, 259), 25));
    let (push, size) = PushConst::decode(&[0, 1, 2, 0, 0, 0, 0, 0, 0, 0, 2, 1, 5]).unwrap();
    assert_eq!((push.value, size), (BigInt::from(-258), 12));
    let (push, size) = PushConst::decode(&[0, 0, 0, 0, 0, 0, 0, 0, 0, 0]).unwrap();
    assert_eq!((push.value, size), (BigInt::from(0), 10));
    let (push, size) = PushConst::decode(&[0, 0, 3, 0, 0, 0, 0, 0, 0, 0, 7, 0, 0]).unwrap();
    assert_eq!((push.value, size), (BigInt::from(7), 13));
    let (instruction, size) = Instruction::decode(&[1, 4, 0, 0, 0, 0, 0, 0, 0, 10]).unwrap();
    assert_eq!((instruction.to_assembly(), size), (String::from("load 4"), 9));
}

#[test]
fn bytes_that_are_no_instruction_are_refused() {
    assert_eq!(Or::decode(&[]).unwrap_err(), DecodingError::UnexpectedEOF);
    assert_eq!(Or::decode(&[11]).unwrap_err(), DecodingError::UnknownInstructionCode(11));
    assert_eq!(Load::decode(&[1, 2, 3]).unwrap_err(), DecodingError::UnexpectedEOF);
    assert_eq!(PushConst::decode(&[0, 0, 1]).unwrap_err(), DecodingError::UnexpectedEOF);
    assert_eq!(
        PushConst::decode(&[0, 0, 2, 0, 0, 0, 0, 0, 0, 0, 1]).unwrap_err(),
        DecodingError::UnexpectedEOF
    );
    assert_eq!(Instruction::decode(&[]).unwrap_err(), DecodingError::UnexpectedEOF);
    assert_eq!(
        Instruction::decode(&[200]).unwrap_err(),
        DecodingError::UnknownInstructionCode(200)
    );
    assert_eq!(
        decode_all_instructions(&[10, 10, 29]).unwrap_err(),
        DecodingError::UnknownInstructionCode(29)
    );
    assert_eq!(
        decode_all_instructions(&[10, 1, 0, 0]).unwrap_err(),
        DecodingError::UnexpectedEOF
    );
    assert!(decode_all_instructions(&[]).unwrap().is_empty());
}

#[test]
fn codes_and_bytes_stand_for_each_other() {
    for byte in 0..=255u8 {
        match InstructionCode::from_byte(byte) {
            Some(code) => assert_eq!(code.to_byte(), byte),
            None => assert!(byte > 28),
        }
    }
    assert_eq!(InstructionCode::Exit.to_byte(), 26);
    assert_eq!(InstructionCode::PushConst.to_byte(), 0);
}
