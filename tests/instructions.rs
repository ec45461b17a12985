use vm::{ALUOperation, AssembleError, Instruction, JumpCondition, JumpTarget, Registers};

#[test]
fn register_from_u8() {
    assert_eq!(Registers::from_u8_custom(0), Some(Registers::A));
    assert_eq!(Registers::from_u8_custom(5), Some(Registers::F));
    assert_eq!(Registers::from_u8_custom(7), Some(Registers::L));
    assert_eq!(Registers::from_u8_custom(8), None);
    assert_eq!(Registers::from_u8_custom(255), None);
    for v in 0..8u8 {
        assert_eq!(Registers::from_u8_custom(v).unwrap().index(), v as usize);
    }
}

#[test]
fn register_from_str() {
    assert_eq!(Registers::from_str_custom("A"), Some(Registers::A));
    assert_eq!(Registers::from_str_custom("H"), Some(Registers::H));
    assert_eq!(Registers::from_str_custom("L"), Some(Registers::L));
    assert_eq!(Registers::from_str_custom("G"), None);
    assert_eq!(Registers::from_str_custom("a"), None);
    assert_eq!(Registers::from_str_custom("AB"), None);
    assert_eq!(Registers::from_str_custom(""), None);
}

#[test]
fn alu_operation_from_u8_and_str() {
    assert_eq!(ALUOperation::from_u8_custom(0), Some(ALUOperation::Add));
    assert_eq!(ALUOperation::from_u8_custom(3), Some(ALUOperation::Div));
    assert_eq!(ALUOperation::from_u8_custom(4), None);
    assert_eq!(ALUOperation::from_str_custom("Sub"), Some(ALUOperation::Sub));
    assert_eq!(ALUOperation::from_str_custom("Mul"), Some(ALUOperation::Mul));
    assert_eq!(ALUOperation::from_str_custom("mul"), None);
}

#[test]
fn jump_condition_from_u8_and_str() {
    assert_eq!(JumpCondition::from_u8_custom(0), Some(JumpCondition::LT));
    assert_eq!(JumpCondition::from_u8_custom(5), Some(JumpCondition::LE));
    assert_eq!(JumpCondition::from_u8_custom(6), None);
    assert_eq!(JumpCondition::from_str_custom("NEQ"), Some(JumpCondition::NEQ));
    assert_eq!(JumpCondition::from_str_custom("GE"), Some(JumpCondition::GE));
    assert_eq!(JumpCondition::from_str_custom("NE"), None);
}

#[test]
fn sizes_depend_on_variant() {
    assert_eq!(Instruction::Nop.size(), 1);
    assert_eq!(Instruction::Push(9).size(), 2);
    assert_eq!(Instruction::PopRegister(Registers::A).size(), 1);
    assert_eq!(Instruction::PushRegister(Registers::A).size(), 1);
    assert_eq!(Instruction::AddStack.size(), 1);
    assert_eq!(Instruction::LoadImmediate(Registers::A, 1).size(), 2);
    assert_eq!(Instruction::LoadMemory(Registers::A, 1).size(), 3);
    assert_eq!(Instruction::Store(Registers::A, 1).size(), 3);
    assert_eq!(Instruction::ALU(ALUOperation::Add, Registers::A, Registers::B).size(), 2);
    assert_eq!(Instruction::Jump(JumpTarget::Address(0)).size(), 3);
    assert_eq!(Instruction::Jump(JumpTarget::Label(b"x".to_vec())).size(), 3);
    assert_eq!(Instruction::JumpConditional(JumpCondition::EQ, JumpTarget::Address(0)).size(), 3);
    assert_eq!(Instruction::Interrupt(15).size(), 1);
}

#[test]
fn encodings() {
    assert_eq!(Instruction::Nop.encode_u8().unwrap(), vec![0x00]);
    assert_eq!(Instruction::Push(0xAB).encode_u8().unwrap(), vec![0x10, 0xAB]);
    assert_eq!(Instruction::PopRegister(Registers::L).encode_u8().unwrap(), vec![0x27]);
    assert_eq!(Instruction::PushRegister(Registers::C).encode_u8().unwrap(), vec![0x32]);
    assert_eq!(Instruction::AddStack.encode_u8().unwrap(), vec![0x40]);
    assert_eq!(Instruction::LoadImmediate(Registers::B, 7).encode_u8().unwrap(), vec![0x51, 7]);
    assert_eq!(Instruction::LoadMemory(Registers::E, 0xBEEF).encode_u8().unwrap(), vec![0x64, 0xBE, 0xEF]);
    assert_eq!(Instruction::Store(Registers::H, 0x0102).encode_u8().unwrap(), vec![0x76, 0x01, 0x02]);
    assert_eq!(
        Instruction::ALU(ALUOperation::Div, Registers::D, Registers::F).encode_u8().unwrap(),
        vec![0x83, 0x35]
    );
    assert_eq!(Instruction::Jump(JumpTarget::Address(0x1234)).encode_u8().unwrap(), vec![0x90, 0x12, 0x34]);
    assert_eq!(
        Instruction::JumpConditional(JumpCondition::GE, JumpTarget::Address(0x00FF)).encode_u8().unwrap(),
        vec![0xA4, 0x00, 0xFF]
    );
    assert_eq!(Instruction::Interrupt(0xF).encode_u8().unwrap(), vec![0xFF]);
    assert_eq!(Instruction::Interrupt(0).encode_u8().unwrap(), vec![0xF0]);
}

#[test]
fn encoding_a_label_fails() {
    match Instruction::Jump(JumpTarget::Label(b"start".to_vec())).encode_u8() {
        Err(AssembleError::UnresolvedLabel { label }) => assert_eq!(label, b"start".to_vec()),
        other => panic!("unexpected {:?}", other),
    }
    match Instruction::JumpConditional(JumpCondition::LT, JumpTarget::Label(b"x".to_vec())).encode_u8() {
        Err(AssembleError::UnresolvedLabel { label }) => assert_eq!(label, b"x".to_vec()),
        other => panic!("unexpected {:?}", other),
    }
}

#[test]
fn parse_tokens_to_instruction() {
    let toks: Vec<Vec<u8>> = vec![b"LoadMemory".to_vec(), b"C".to_vec(), b"0x10".to_vec()];
    match Instruction::from_tokens(&toks, 4) {
        Ok(Instruction::LoadMemory(Registers::C, 0x10)) => {}
        other => panic!("unexpected {:?}", other),
    }
    let toks: Vec<Vec<u8>> = vec![b"Jump".to_vec(), b"there".to_vec()];
    match Instruction::from_tokens(&toks, 1) {
        Ok(Instruction::Jump(JumpTarget::Label(l))) => assert_eq!(l, b"there".to_vec()),
        other => panic!("unexpected {:?}", other),
    }
}
