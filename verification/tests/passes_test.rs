use gcrecomp_core::analysis::{FunctionMetadata, InferredType, ParameterInfo, TypeInferenceEngine, TypeInfo};
use gcrecomp_core::ghidra::GhidraAnalysis;
use gcrecomp_core::decoder::{DecodedInstruction, Instruction, InstructionType, Operand, Operands};
use gcrecomp_core::error::RecompilerError;
use gcrecomp_core::ghidra::{
    decompiled_from_json, functions_from_json, parse_address, symbols_from_json, FunctionInfo, SymbolType,
};
use gcrecomp_core::ir::builder::IRBuilder;
use gcrecomp_core::ir::instruction::IRInstruction;
use gcrecomp_core::ir::optimizer::IROptimizer;
use gcrecomp_core::ir::to_rust::IRToRust;
use gcrecomp_core::json::{field_str, field_str_or, field_u64, JsonNumber, JsonValue};
use gcrecomp_core::linker::LinkerScript;
use gcrecomp_core::pattern_detection::{reconstruct_jump_table, PatternDetector, PatternError, PatternType};
use gcrecomp_core::register_alloc::RegisterAllocator;
use gcrecomp_core::simd::{
    detect_simd_opportunities, detect_simd_type, generate_simd_code, is_altivec_instruction, SimdInstructionType,
};
use gcrecomp_core::structs::StructDetector;
use gcrecomp_core::structure::StructureGenerator;
use gcrecomp_core::target::{validate_target, TargetArch, TargetSpec};

fn inst(opcode: u32, t: InstructionType, ops: &[Operand], raw: u32, address: u32) -> DecodedInstruction {
    DecodedInstruction {
        instruction: Instruction { opcode, instruction_type: t, operands: Operands::from_slice(ops) },
        raw,
        address,
    }
}

fn add(d: u8, a: u8, b: u8, address: u32) -> DecodedInstruction {
    inst(
        31,
        InstructionType::Arithmetic,
        &[Operand::Register(d), Operand::Register(a), Operand::Register(b)],
        0,
        address,
    )
}

fn func(address: u32, name: &str) -> FunctionInfo {
    FunctionInfo {
        address,
        name: name.to_string(),
        size: 4,
        calling_convention: String::new(),
        parameters: vec![],
        return_type: None,
        local_variables: vec![],
        basic_blocks: vec![],
    }
}

fn num(n: u64) -> JsonValue {
    JsonValue::Number(JsonNumber { as_i64: Some(n as i64), as_u64: Some(n) })
}

fn s(t: &str) -> JsonValue {
    JsonValue::Str(t.to_string())
}

fn obj(fields: Vec<(&str, JsonValue)>) -> JsonValue {
    JsonValue::Object(fields.into_iter().map(|(k, v)| (k.to_string(), v)).collect())
}

#[test]
fn ir_is_built_optimized_and_translated() {
    let code = vec![add(3, 4, 5, 0x100), add(3, 4, 5, 0x104), inst(0, InstructionType::System, &[], 0, 0x108)];
    let mut f = IRBuilder::build_ir(&code, "f", 0x100);
    assert_eq!(f.name, "f");
    assert_eq!(f.basic_blocks.len(), 1);
    assert_eq!(f.basic_blocks[0].instructions.len(), 2);
    IROptimizer::optimize(&mut f);
    assert_eq!(f.basic_blocks[0].instructions[0], IRInstruction::Add { dst: 3, src1: 4, src2: 5 });
    assert_eq!(f.basic_blocks[0].instructions[1], IRInstruction::Move { dst: 3, src: 3 });
    let text = IRToRust::translate(&f);
    assert_eq!(
        text,
        "fn f() {\n    let mut ctx = gcrecomp_runtime::CpuContext::new();\n    let mut memory = gcrecomp_runtime::MemoryManager::new();\n\n    ctx.set_register(3, ctx.get_register(4) + ctx.get_register(5));\n    ctx.set_register(3, ctx.get_register(3));\n}\n"
    );
    let empty = IRBuilder::build_ir(&[], "g", 0);
    assert!(empty.basic_blocks.is_empty());
}

#[test]
fn patterns_are_found_in_order() {
    let code = vec![
        inst(36, InstructionType::Store, &[Operand::Register(3), Operand::Address(0x8000_1234)], 0, 0x100),
        inst(19, InstructionType::Branch, &[], 0x4E80_0421, 0x104),
        inst(0, InstructionType::System, &[], 0, 0x108),
        inst(19, InstructionType::Branch, &[], 0x4E80_0420, 0x10c),
    ];
    let mut d = PatternDetector::new();
    assert!(d.get_patterns().is_empty());
    d.detect_patterns(&code);
    let kinds: Vec<PatternType> = d.get_patterns().iter().map(|p| p.pattern_type).collect();
    assert_eq!(
        kinds,
        vec![
            PatternType::SelfModifyingCode,
            PatternType::JumpTable,
            PatternType::IndirectCall,
            PatternType::ExceptionHandler,
        ]
    );
    let smc = &d.get_patterns()[0];
    assert_eq!(smc.confidence, 70);
    assert_eq!(smc.metadata, vec![("target_address".to_string(), "0x80001234".to_string())]);
    assert_eq!(d.get_patterns()[1].address, 0x108);
    assert_eq!(d.get_patterns()[2].address, 0x104);
    assert_eq!(d.has_pattern_at(0x100).unwrap().pattern_type, PatternType::SelfModifyingCode);
    assert!(d.has_pattern_at(0x999).is_none());
    assert_eq!(d.get_patterns_of_type(PatternType::JumpTable).len(), 1);
    assert!(d.get_patterns_of_type(PatternType::InterruptHandler).is_empty());
    let jt = d.get_patterns()[1].clone();
    assert_eq!(reconstruct_jump_table(&code, &jt), Ok(vec![]));
    assert_eq!(reconstruct_jump_table(&code[..1], &jt), Err(PatternError::InstructionNotFound));
}

#[test]
fn modules_follow_the_linker_script() {
    let script = "NAMESPACES {\n    \"gx\" : {\n        pattern: \"GX*\",\n        module: \"graphics/gx\"\n    }\n}\n";
    let linker = LinkerScript::from_str(script).unwrap();
    let g = StructureGenerator::new(Some(linker), "out".to_string());
    let modules = g.organize_functions(&[func(0x10, "GXInit"), func(0x20, "sub_20")], &[]);
    let paths: Vec<&str> = modules.iter().map(|(p, _)| p.as_str()).collect();
    assert_eq!(paths, vec!["graphics/gx", "unknown", "graphics"]);
    let gx = &modules[0].1;
    assert_eq!(gx.functions.len(), 1);
    assert_eq!(gx.functions[0].file_name, "GXInit_00000010.rs");
    assert_eq!(gx.functions[0].namespace_path, vec!["graphics".to_string(), "gx".to_string()]);
    assert_eq!(modules[1].1.functions[0].file_name, "func_0x00000020.rs");
    assert_eq!(modules[2].1.submodules, vec!["gx".to_string()]);
    assert_eq!(
        g.generate_mod_rs(gx),
        "//! Auto-generated module\n//! Generated by GCRecomp\n\n\n// Function exports\npub use super::GXInit_00000010::GXInit;\n"
    );
    assert_eq!(
        g.generate_mod_rs(&modules[2].1),
        "//! Auto-generated module\n//! Generated by GCRecomp\n\npub mod gx;\n"
    );
    assert_eq!(g.get_function_path(&gx.functions[0]), "out/graphics/gx/GXInit_00000010.rs");
}

#[test]
fn vector_instructions_are_classified() {
    // Primary opcode 4, extended opcode 0x100 (add) and 0x060 (permute).
    let vadd = inst(4, InstructionType::Unknown, &[], (4 << 26) | (0x100 << 1), 0x100);
    let vperm = inst(4, InstructionType::Unknown, &[], (4 << 26) | (0x060 << 1), 0x104);
    let other = inst(4, InstructionType::Unknown, &[], (4 << 26) | (0x3FF << 1), 0x108);
    assert!(is_altivec_instruction(&vadd));
    assert!(!is_altivec_instruction(&other));
    assert_eq!(detect_simd_type(&vperm), SimdInstructionType::VecPermute);
    assert_eq!(detect_simd_type(&other), SimdInstructionType::VecAdd);
    let found = detect_simd_opportunities(&[vadd, other, vperm]);
    assert_eq!(found.len(), 2);
    assert_eq!((found[0].instruction_index, found[1].instruction_index), (0, 2));
    assert_eq!(found[1].instruction_address, 0x104);
    let any = add(1, 2, 3, 0);
    assert!(generate_simd_code(&any, SimdInstructionType::VecAdd).starts_with("// SIMD vector add\n"));
    assert_eq!(generate_simd_code(&any, SimdInstructionType::VecXor), "");
}

#[test]
fn targets_need_an_os_for_simd_on_x86() {
    assert_eq!(validate_target(&TargetSpec::default()), Ok(()));
    let bare = TargetSpec { arch: TargetArch::X86_64, os: None, enable_simd: true, hardware_features: vec![] };
    assert_eq!(validate_target(&bare), Err("SIMD requires OS specification".to_string()));
    let arm = TargetSpec { arch: TargetArch::Arm64, os: None, enable_simd: true, hardware_features: vec![] };
    assert_eq!(validate_target(&arm), Ok(()));
}

#[test]
fn registers_get_names_and_spill() {
    let mut a = RegisterAllocator::new();
    assert_eq!(a.allocate_register(3), "r3");
    assert_eq!(a.allocate_register(3), "r3");
    assert_eq!(a.allocate_register(31), "r31");
    assert_eq!(a.spill_register(7), "spilled_r7");
}

#[test]
fn structs_group_accesses_by_block() {
    let mut d = StructDetector::new();
    let found = d.detect_structs(&[(0x8000_0104, 4, "load"), (0x8000_0200, 2, "store"), (0x8000_0108, 8, "load")]);
    assert_eq!(found.len(), 2);
    assert_eq!(found[0].name, "Struct_0x80000100");
    assert_eq!(found[0].base_address, Some(0x8000_0100));
    let fields: Vec<(usize, usize)> = found[0].fields.iter().map(|f| (f.offset, f.size)).collect();
    assert_eq!(fields, vec![(4, 4), (8, 8)]);
    assert_eq!(found[0].size, 16);
    assert_eq!(found[1].name, "Struct_0x80000200");
    assert_eq!(found[1].size, 2);
    let kept: Vec<&str> = d.structs().iter().map(|(n, _)| n.as_str()).collect();
    assert_eq!(kept, vec!["Struct_0x80000100", "Struct_0x80000200"]);
    assert_eq!(d.structs()[0].1.size, 16);
    // Detecting the same block again replaces what was kept under its name.
    let again = d.detect_structs(&[(0x8000_0100, 1, "load")]);
    assert_eq!(again[0].size, 1);
    assert_eq!(d.structs().len(), 2);
    assert_eq!(d.structs()[0].1.size, 1);
}

#[test]
fn detected_layouts_are_recorded_by_name() {
    let mut d = StructDetector::new();
    let r = d.detect_structs(&[(0x8000_0010, 4, "read"), (0x8000_0018, 2, "write")]);
    assert_eq!(r.len(), 1);
    assert_eq!(r[0].name, "Struct_0x80000010");
    assert_eq!(r[0].base_address, Some(0x8000_0010));
    let fields: Vec<(usize, usize)> = r[0].fields.iter().map(|f| (f.offset, f.size)).collect();
    assert_eq!(fields, vec![(0, 4), (8, 2)]);
    assert_eq!(r[0].size, 10);
    assert_eq!(d.structs().len(), 1);
    assert_eq!(d.structs()[0].0, "Struct_0x80000010");
}

#[test]
fn json_fields_with_defaults() {
    let v = obj(vec![("name", s("main")), ("size", num(12)), ("name", s("shadowed"))]);
    assert_eq!(field_str(&v, "name"), Some("main".to_string()));
    assert_eq!(field_u64(&v, "size"), Some(12));
    assert_eq!(field_str(&v, "size"), None);
    assert_eq!(field_str_or(&v, "missing", "dflt"), "dflt");
    assert_eq!(field_str_or(&JsonValue::Null, "name", "x"), "x");
}

#[test]
fn analysis_json_is_read() {
    assert_eq!(parse_address("0x80003100"), Some(0x8000_3100));
    assert_eq!(parse_address("zz"), None);
    let f = obj(vec![
        ("address", s("0x80003100")),
        ("name", s("main")),
        ("size", num(64)),
        ("parameters", JsonValue::Array(vec![obj(vec![("name", s("a"))])])),
        ("return_type", s("int")),
    ]);
    let fs = functions_from_json(&[f]).unwrap();
    assert_eq!(fs[0].address, 0x8000_3100);
    assert_eq!(fs[0].name, "main");
    assert_eq!(fs[0].size, 64);
    assert_eq!(fs[0].calling_convention, "default");
    assert_eq!(fs[0].parameters[0].param_type, "u32");
    assert_eq!(fs[0].return_type, Some("int".to_string()));
    let bad = obj(vec![("name", s("x"))]);
    assert_eq!(
        functions_from_json(&[bad]).err(),
        Some(RecompilerError::GhidraError("Missing address in function".to_string()))
    );
    let sym = obj(vec![("address", s("10")), ("type", s("Data")), ("namespace", s("ns"))]);
    let syms = symbols_from_json(&[sym]).unwrap();
    assert_eq!(syms[0].address, 0x10);
    assert_eq!(syms[0].name, "unknown");
    assert_eq!(syms[0].symbol_type, SymbolType::Data);
    assert_eq!(syms[0].namespace, Some("ns".to_string()));
    let dec = decompiled_from_json(&[("0x20".to_string(), obj(vec![("c_code", s("int f();"))]))]).unwrap();
    assert_eq!(dec[&0x20].c_code, "int f();");
    assert_eq!(dec[&0x20].high_function, "");
    assert_eq!(
        decompiled_from_json(&[("nope".to_string(), JsonValue::Null)]).err(),
        Some(RecompilerError::GhidraError("Failed to parse address: nope".to_string()))
    );
}

#[test]
fn register_types_follow_parameters_then_instructions() {
    let metadata = FunctionMetadata {
        address: 0x100,
        name: "f".to_string(),
        size: 8,
        calling_convention: "default".to_string(),
        parameters: vec![ParameterInfo {
            name: "p".to_string(),
            type_info: TypeInfo::Pointer { pointee: Box::new(TypeInfo::Integer { signed: false, size: 8 }) },
            register: Some(3),
            stack_offset: 0,
        }],
        return_type: None,
        local_variables: vec![],
        basic_blocks: vec![],
    };
    let load = inst(32, InstructionType::Load, &[Operand::Register(4), Operand::Register(3)], 0, 0x100);
    let fadd = inst(63, InstructionType::FloatingPoint, &[Operand::FpRegister(1)], 0, 0x104);
    let types = TypeInferenceEngine::infer_types(&[load, fadd], &metadata);
    assert_eq!(
        types[&3],
        InferredType::Pointer { pointee: Box::new(InferredType::Integer { signed: false, size: 8 }) }
    );
    assert_eq!(types[&4], InferredType::Integer { signed: false, size: 32 });
    assert_eq!(types[&1], InferredType::Float { size: 64 });
    assert_eq!(types.len(), 3);
}

#[test]
fn functions_are_found_by_address() {
    let a = GhidraAnalysis {
        functions: vec![func(0x100, "a"), func(0x104, "b")],
        symbols: vec![],
        decompiled_code: std::collections::HashMap::new(),
        instructions: std::collections::HashMap::new(),
    };
    assert_eq!(a.get_function_at_address(0x102).unwrap().name, "a");
    assert_eq!(a.get_function_at_address(0x104).unwrap().name, "b");
    assert!(a.get_function_at_address(0x108).is_none());
}

#[test]
fn namespaces_come_from_the_first_matching_rule() {
    let script = "NAMESPACES {\n    \"gx\" : {\n        pattern: \"GX*\",\n        module: \"graphics/gx\"\n        namespace: [\"gfx\", \"gx\"]\n    }\n}\n";
    let linker = LinkerScript::from_str(script).unwrap();
    assert_eq!(linker.get_module_for_symbol("GXBegin"), Some("graphics/gx".to_string()));
    assert_eq!(linker.get_module_for_symbol("OSInit"), None);
    let ns = linker.get_namespace_for_symbol("GXBegin");
    assert_eq!(ns, Some(vec!["gfx".to_string(), "gx".to_string()]));
    assert_eq!(linker.get_namespace_for_symbol("OSInit"), None);
}
