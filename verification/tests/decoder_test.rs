use gcrecomp_core::decoder::{Instruction, InstructionType, Operand};

#[test]
fn test_decode_addi() {
    // addi r3, r4, 5
    let word = (14u32 << 26) | (3u32 << 21) | (4u32 << 16) | 5u32;
    let result = Instruction::decode(word, 0x8000_0000);
    assert!(result.is_ok());
    let d = result.unwrap();
    assert_eq!(d.instruction.instruction_type, InstructionType::Arithmetic);
    assert_eq!(
        d.instruction.operands.to_vec(),
        vec![Operand::Register(3), Operand::Register(4), Operand::Immediate(5)]
    );
    assert_eq!(d.instruction.opcode, 14);
}

#[test]
fn decode_branch_and_link() {
    // bl +0x10
    let d = Instruction::decode(0x4800_0011, 0x8000_0000).unwrap();
    assert_eq!(d.instruction.instruction_type, InstructionType::Branch);
    assert_eq!(d.instruction.opcode, 18);
}

#[test]
fn decode_unknown_word() {
    let word = 0x0400_0000u32;
    let d = Instruction::decode(word, 0).unwrap();
    assert_eq!(d.raw, word);
    assert_eq!(d.address, 0);
    assert_eq!(d.instruction.opcode, 1);
}

#[test]
fn backward_branch_offset_is_sign_extended() {
    // b .-4
    let d = Instruction::decode(0x4BFF_FFFC, 0x8000_0100).unwrap();
    assert_eq!(
        d.instruction.operands.to_vec(),
        vec![Operand::Immediate32(-1), Operand::Immediate(0), Operand::Immediate(0)]
    );
    // bl +0x10
    let d = Instruction::decode(0x4800_0011, 0x8000_0100).unwrap();
    assert_eq!(d.instruction.operands.get(0), Operand::Immediate32(4));
}
