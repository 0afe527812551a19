use gcrecomp_core::analysis::FunctionMetadata;
use gcrecomp_core::codegen::CodeGenerator;
use gcrecomp_core::decoder::{DecodedInstruction, Instruction, InstructionType, Operand, Operands};

fn create_test_instruction(opcode: u32, inst_type: InstructionType) -> DecodedInstruction {
    DecodedInstruction {
        instruction: Instruction {
            opcode,
            instruction_type: inst_type,
            operands: Operands::new(),
        },
        address: 0x80000000,
        raw: opcode << 26,
    }
}

fn inst(opcode: u32, t: InstructionType, ops: &[Operand], raw: u32, address: u32) -> DecodedInstruction {
    DecodedInstruction {
        instruction: Instruction {
            opcode,
            instruction_type: t,
            operands: Operands::from_slice(ops),
        },
        address,
        raw,
    }
}

fn metadata(name: &str, address: u32) -> FunctionMetadata {
    FunctionMetadata {
        address,
        name: name.to_string(),
        size: 0,
        calling_convention: "cdecl".to_string(),
        parameters: vec![],
        return_type: None,
        local_variables: vec![],
        basic_blocks: vec![],
    }
}

#[test]
fn test_codegen_initialization() {
    let codegen = CodeGenerator::new();
    assert!(
        codegen.optimize,
        "Should have optimizations enabled by default"
    );
}

#[test]
fn test_codegen_with_optimizations() {
    let codegen = CodeGenerator::new().with_optimizations(true);
    assert!(codegen.optimize, "Should respect optimization setting");
}

#[test]
fn test_codegen_without_optimizations() {
    let codegen = CodeGenerator::new().with_optimizations(false);
    assert!(
        !codegen.optimize,
        "Should disable optimizations when requested"
    );
}

#[test]
fn test_generate_function_empty() {
    let mut codegen = CodeGenerator::new();
    let metadata = metadata("test_function", 0x80000000);
    let instructions: Vec<DecodedInstruction> = vec![];
    let result = codegen.generate_function(&metadata, &instructions);
    assert!(
        result.is_ok(),
        "Should generate function even with no instructions"
    );
    let code = result.unwrap();
    assert!(
        code.contains("test_function"),
        "Should include function name"
    );
    assert!(code.contains("pub fn"), "Should be a public function");
    let _ = create_test_instruction(14, InstructionType::Arithmetic);
}

#[test]
fn test_sanitize_identifier() {
    let codegen = CodeGenerator::new();

    assert_eq!(
        codegen.sanitize_identifier("test_function"),
        "test_function"
    );
    assert_eq!(
        codegen.sanitize_identifier("test-function"),
        "test_function"
    );
    assert_eq!(
        codegen.sanitize_identifier("test.function"),
        "test_function"
    );
    assert_eq!(
        codegen.sanitize_identifier("test function"),
        "test_function"
    );
}

#[test]
fn sanitize_drops_other_punctuation_and_is_idempotent() {
    let codegen = CodeGenerator::new();
    let once = codegen.sanitize_identifier("a::b<c>-d e");
    assert_eq!(once, "abc_d_e");
    assert_eq!(codegen.sanitize_identifier(&once), once);
}

#[test]
fn empty_function_text() {
    let mut codegen = CodeGenerator::new();
    let code = codegen.generate_function(&metadata("", 0x80003100), &[]).unwrap();
    assert_eq!(
        code,
        "pub fn func_0x80003100(ctx: &mut CpuContext, memory: &mut MemoryManager) -> Result<Option<u32>> {\n    Ok(Some(ctx.get_register(3)))\n}\n"
    );
    let code = codegen.generate_function(&metadata("sub_80003100", 0x80003100), &[]).unwrap();
    assert!(code.starts_with("pub fn func_0x80003100("));
}

#[test]
fn add_store_return() {
    let mut codegen = CodeGenerator::new();
    let insts = vec![
        inst(14, InstructionType::Arithmetic, &[Operand::Register(3), Operand::Register(0), Operand::Immediate(5)], 0x3860_0005, 0x8000_3100),
        inst(36, InstructionType::Store, &[Operand::Register(3), Operand::Register(1), Operand::Immediate(8)], 0x9061_0008, 0x8000_3104),
        inst(19, InstructionType::Branch, &[Operand::Condition(20), Operand::Condition(0), Operand::Immediate(0)], 0x4E80_0020, 0x8000_3108),
    ];
    let code = codegen.generate_function(&metadata("test-function.v2", 0x8000_3100), &insts).unwrap();
    assert_eq!(
        code,
        "pub fn test_function_v2_80003100(ctx: &mut CpuContext, memory: &mut MemoryManager) -> Result<Option<u32>> {\n\
         \x20   ctx.set_register(3, ctx.get_register(0).wrapping_add(5u32));\n\
         \x20   let addr = ctx.get_register(1) as u32 + 8i32 as u32;\n\
         \x20   memory.write_u32(addr, ctx.get_register(3)).unwrap_or(());\n\
         \x20   return Ok(Some(ctx.get_register(3)));\n\
         \x20   Ok(Some(ctx.get_register(3)))\n\
         }\n"
    );
}

#[test]
fn dead_definitions_are_dropped() {
    let mut codegen = CodeGenerator::new();
    let insts = vec![
        inst(14, InstructionType::Arithmetic, &[Operand::Register(9), Operand::Register(0), Operand::Immediate(1)], 0x3920_0001, 0x8000_0000),
    ];
    let code = codegen.generate_function(&metadata("f", 0x8000_0000), &insts).unwrap();
    assert!(!code.contains("set_register(9"));
}

#[test]
fn call_and_compare() {
    let mut codegen = CodeGenerator::new();
    let insts = vec![
        inst(11, InstructionType::Compare, &[Operand::Condition(0), Operand::Register(3), Operand::Immediate(0)], 0x2C03_0000, 0x8000_0000),
        inst(18, InstructionType::Branch, &[Operand::Immediate32(4), Operand::Immediate(0), Operand::Immediate(1)], 0x4800_0011, 0x8000_0004),
    ];
    let code = codegen.generate_function(&metadata("f", 0x8000_0000), &insts).unwrap();
    let body = "    let ra_val = ctx.get_register(3) as i32;\n\
                \x20   let rb_val = 0i32 as i32;\n\
                \x20   let cr_field = if ra_val < rb_val {\n\
                \x20       0x8u8 // Less than\n\
                \x20   } else if ra_val > rb_val {\n\
                \x20       0x4u8 // Greater than\n\
                \x20   } else {\n\
                \x20       0x2u8 // Equal\n\
                \x20   };\n\
                \x20   ctx.set_cr_field(0, cr_field);\n\
                \x20   ctx.lr = 0x80000008u32;\n\
                \x20   if let Ok(Some(rv)) = call_function_by_address(0x80000014u32, ctx, memory) { ctx.set_register(3, rv); }\n";
    assert!(code.contains(body), "{}", code);
}

#[test]
fn untranslatable_instructions_become_comments() {
    let mut codegen = CodeGenerator::new();
    let insts = vec![
        inst(14, InstructionType::Arithmetic, &[], 0x3860_0005, 0x8000_0000),
        inst(1, InstructionType::Unknown, &[], 0x0400_0000, 0x8000_0004),
    ];
    let code = codegen.generate_function(&metadata("f", 0x8000_0000), &insts).unwrap();
    assert!(code.contains("    // untranslated 0x38600005 (opcode 0x0E)\n"));
    assert!(code.contains("    // untranslated 0x04000000 (type Unknown)\n"));
}

#[test]
fn floating_point_load_uses_raw_fields() {
    let mut codegen = CodeGenerator::new();
    // lfd f1, -8(r1)
    let raw = (50u32 << 26) | (1 << 21) | (1 << 16) | 0xFFF8;
    let insts = vec![inst(50, InstructionType::FloatingPoint, &[], raw, 0x8000_0000)];
    let code = codegen.generate_function(&metadata("f", 0x8000_0000), &insts).unwrap();
    assert!(code.contains(
        "    ctx.set_fpr(1, f64::from_bits(memory.read_u64(ctx.get_register(1).wrapping_add(-8i32 as u32)).unwrap_or(0)));\n"
    ));
}

#[test]
fn rotate_and_shift_text() {
    let mut codegen = CodeGenerator::new();
    let insts = vec![
        inst(21, InstructionType::Rotate, &[Operand::Register(4), Operand::Register(5), Operand::ShiftAmount(3), Operand::Mask(0x0000_FFF8)], 0x5485_1838, 0x8000_0000),
        inst(31, InstructionType::Shift, &[Operand::Register(6), Operand::Register(7), Operand::ShiftAmount(34)], 0, 0x8000_0004),
    ];
    let code = codegen.generate_function(&metadata("f", 0x8000_0000), &insts).unwrap();
    assert!(code.contains("    let rotated = ctx.get_register(4).rotate_left(3 as u32);\n    let masked = rotated & 0x0000FFF8u32;\n    ctx.set_register(5, masked);\n"));
    assert!(code.contains("    ctx.set_register(7, ctx.get_register(6) << 2u32);\n"));
}
