use gcrecomp_core::variant::{BuildConfig, BuildVariant};
use gcrecomp_core::codegen::memory::MemoryCodegen;
use gcrecomp_core::context::{CallingConvention, CpuContext};
use gcrecomp_core::control_flow::{BlockIds, ControlFlowGraph, Edge, EdgeType};
use gcrecomp_core::debug::{DebugInfo, ExecutionTracer};
use gcrecomp_core::decoder::{DecodedInstruction, Instruction, InstructionType, Operand, Operands};
use gcrecomp_core::error::RecompilerError;
use gcrecomp_core::game_quirks::{detect_game_id, GameQuirk, GameQuirkDatabase, QuirkPattern, QuirkType, Workaround};
use gcrecomp_core::interrupt::InterruptSystem;
use gcrecomp_core::pointer::PointerAnalysis;
use gcrecomp_core::timer::{ticks_from_nanos, OsTimer, TIMEBASE_FREQ};
use gcrecomp_core::validator::CodeValidator;

fn inst(opcode: u32, t: InstructionType, ops: &[Operand], address: u32) -> DecodedInstruction {
    DecodedInstruction {
        instruction: Instruction { opcode, instruction_type: t, operands: Operands::from_slice(ops) },
        raw: 0,
        address,
    }
}

#[test]
fn interrupts_need_master_and_source_enable() {
    let mut s = InterruptSystem::new();
    assert!(!s.enabled());
    assert_eq!(s.set_handler(5, 0x8000_1000), None);
    assert_eq!(s.set_handler(5, 0x8000_2000), Some(0x8000_1000));
    assert_eq!(s.raise(5), None, "master enable is off");
    s.set_master_enable(true);
    assert_eq!(s.raise(5), None, "source 5 is masked");
    s.enable_interrupt(5);
    assert_eq!(s.raise(5), Some(0x8000_2000));
    assert_eq!(s.get_pending_masked(), 1 << 5);
    s.acknowledge(5);
    assert_eq!(s.get_pending_masked(), 0);
    s.raise(7);
    assert_eq!(s.get_pending_masked(), 0, "source 7 is pending but masked");
    s.disable_interrupt(5);
    assert_eq!(s.raise(5), None);
    assert_eq!(s.raise(40), None);
    s.disable_all();
    assert!(!s.enabled());
}

#[test]
fn registers_and_the_calling_convention() {
    let mut c = CpuContext::new();
    c.set_register(3, 7);
    c.set_register(40, 9);
    assert_eq!(c.get_register(3), 7);
    assert_eq!(c.get_register(40), 0);
    c.set_cr_field(1, 0x1F);
    assert_eq!(c.get_cr_field(1), 0xF);
    assert_eq!(c.get_cr_field(0), 0);
    assert_eq!(c.get_cr_field(9), 0);
    c.set_register(1, 0x100);
    CallingConvention::setup_stack_frame(&mut c, 0x20);
    assert_eq!(c.get_register(1), 0xE0);
    CallingConvention::teardown_stack_frame(&mut c, 0x20);
    assert_eq!(c.get_register(1), 0x100);
    c.set_register(4, 11);
    assert_eq!(CallingConvention::get_argument(&c, 1), 11);
    assert_eq!(CallingConvention::get_argument(&c, 8), 0);
    CallingConvention::set_return_value(&mut c, 99);
    assert_eq!(CallingConvention::get_return_value(&c), 99);
    c.set_register(1, 0x10);
    CallingConvention::setup_stack_frame(&mut c, 0x20);
    assert_eq!(c.get_register(1), 0xFFFF_FFF0, "the stack pointer wraps");
}

#[test]
fn timebase_conversions() {
    assert_eq!(TIMEBASE_FREQ, 40_500_000);
    assert_eq!(ticks_from_nanos(1_000_000_000), 40_500_000);
    // Past about 455 s the 64-bit product of nanoseconds and frequency would
    // overflow; the counter keeps counting.
    assert_eq!(ticks_from_nanos(500_000_000_000), 20_250_000_000);
    assert_eq!(ticks_from_nanos(u64::MAX), ((u64::MAX as u128 * 40_500_000) / 1_000_000_000) as u64);
    assert_eq!(OsTimer::ticks_to_millis(40_500_000), 1000);
    assert_eq!(OsTimer::millis_to_ticks(2), 81_000);
    assert_eq!(OsTimer::diff_tick(10, 4), 6);
    assert_eq!(OsTimer::diff_tick(2, 0xFFFF_FFFE), 4);
    let t = OsTimer::new();
    let a = t.get_time();
    assert!(t.get_time() >= a);
}

#[test]
fn source_mappings_and_traces() {
    let mut d = DebugInfo::new();
    assert!(d.get_rust_location(0x100).is_none());
    d.add_mapping(0x100, "a.rs".to_string(), 3, 1);
    d.add_mapping(0x100, "b.rs".to_string(), 5, 2);
    let l = d.get_rust_location(0x100).unwrap();
    assert_eq!((l.rust_file.as_str(), l.rust_line, l.rust_column), ("b.rs", 5, 2));
    let mut t = ExecutionTracer::new();
    t.trace_instruction(0x100, "addi r3, r3, 1");
    t.trace_instruction(0x104, "blr");
    assert_eq!(t.trace_log.len(), 2);
    assert_eq!(t.trace_log[1].instruction, "blr");
    assert!(t.trace_log[0].register_state.is_empty());
}

#[test]
fn pointers_and_aliases() {
    let code = vec![
        inst(32, InstructionType::Load, &[Operand::Register(3), Operand::Register(4), Operand::Immediate(8)], 0x100),
        inst(14, InstructionType::Arithmetic, &[Operand::Register(5), Operand::Register(4), Operand::Immediate(4)], 0x104),
        inst(31, InstructionType::Arithmetic, &[Operand::Register(6), Operand::Register(4), Operand::Register(7)], 0x108),
    ];
    let a = PointerAnalysis::analyze(&code);
    let mut p4: Vec<u32> = a.get_points_to(4).unwrap().into_iter().collect();
    p4.sort();
    assert_eq!(p4, vec![0x108]);
    let p5: Vec<u32> = a.get_points_to(5).unwrap().into_iter().collect();
    assert_eq!(p5, vec![0x10C]);
    assert!(a.may_alias(4, 6));
    assert!(!a.may_alias(4, 5));
    assert!(a.get_points_to(9).is_none());
    assert!(!a.may_alias(4, 9));
}

#[test]
fn validators_report_what_is_wrong() {
    assert_eq!(CodeValidator::validate_function("fn f() { g(a[0]) }"), Ok(()));
    assert_eq!(
        CodeValidator::validate_function("let x = 1;"),
        Err(RecompilerError::ValidationError(
            "Generated code must contain at least one function definition".to_string()
        ))
    );
    let ok = vec![inst(14, InstructionType::Arithmetic, &[Operand::Register(3), Operand::Register(31)], 0x10)];
    assert_eq!(CodeValidator::validate_register_usage(&ok), Ok(()));
    let bad = vec![inst(14, InstructionType::Arithmetic, &[Operand::Register(32)], 0x10)];
    assert_eq!(
        CodeValidator::validate_register_usage(&bad),
        Err(RecompilerError::ValidationError(
            "Invalid register 32 at address 0x00000010 (must be 0-31)".to_string()
        ))
    );
    let cr = vec![inst(19, InstructionType::ConditionRegister, &[Operand::Condition(8)], 0xAB)];
    assert_eq!(
        CodeValidator::validate_register_usage(&cr),
        Err(RecompilerError::ValidationError(
            "Invalid condition register field 8 at address 0x000000AB (must be 0-7)".to_string()
        ))
    );
    assert_eq!(CodeValidator::validate_memory_accesses(&bad), Ok(()));
    let graph = ControlFlowGraph {
        nodes: vec![],
        edges: vec![Edge { from: 0, to: 3, edge_type: EdgeType::Unconditional }],
        entry_block: 0,
    };
    assert_eq!(
        CodeValidator::validate_cfg(&graph),
        Err(RecompilerError::ValidationError("CFG entry block index 0 is out of bounds (0 nodes)".to_string()))
    );
    let _ = BlockIds::new();
}

#[test]
fn quirks_match_by_address_and_instructions() {
    let mut db = GameQuirkDatabase::new();
    assert!(db.find_quirks("GALE01").is_empty());
    db.add_quirk(
        "GALE01".to_string(),
        GameQuirk {
            game_id: "GALE01".to_string(),
            game_name: "Test".to_string(),
            quirks: vec![
                QuirkPattern {
                    pattern_type: QuirkType::JumpTable,
                    description: "range".to_string(),
                    address_pattern: Some("80001000-80001FFF".to_string()),
                    instruction_pattern: None,
                    workaround: Workaround::SkipOptimization,
                },
                QuirkPattern {
                    pattern_type: QuirkType::JumpTable,
                    description: "run".to_string(),
                    address_pattern: Some("0x80400000:*".to_string()),
                    instruction_pattern: Some(vec!["mtctr".to_string(), "bctrl".to_string()]),
                    workaround: Workaround::CodeGenStrategy("preserve_jump_table".to_string()),
                },
            ],
        },
    );
    assert_eq!(db.find_quirks("GALE01").len(), 2);
    assert_eq!(db.check_address("GALE01", 0x8000_1800).unwrap().description, "range");
    assert_eq!(db.check_address("GALE01", 0x8050_0000).unwrap().description, "run");
    assert!(db.check_address("GALE01", 0x8000_0000).is_none());
    assert!(db.check_address("OTHER", 0x8000_1800).is_none());
    let run = vec!["li".to_string(), "mtctr".to_string(), "bctrl".to_string()];
    assert_eq!(db.check_instructions("GALE01", &run).unwrap().description, "run");
    let apart = vec!["mtctr".to_string(), "li".to_string(), "bctrl".to_string()];
    assert!(db.check_instructions("GALE01", &apart).is_none());
    assert_eq!(detect_game_id(b"GALE01"), None);
}

#[test]
fn memory_codegen_leaves_accesses_alone() {
    let code = vec![inst(32, InstructionType::Load, &[Operand::Register(3)], 0x10)];
    assert_eq!(MemoryCodegen::generate_load(&code[0]), "");
    assert_eq!(MemoryCodegen::generate_store(&code[0]), "");
    let same = MemoryCodegen::optimize_memory_access(&code);
    assert_eq!(same.len(), 1);
    assert_eq!(same[0].address, 0x10);
}

#[test]
fn string_arguments_are_read_up_to_the_terminator() {
    let mut mem = gcrecomp_core::memory::MemoryManager::new();
    mem.write_bytes(0x8000_0100, b"hello\0world").unwrap();
    let mut c = CpuContext::new();
    c.set_register(4, 0x8000_0100);
    assert_eq!(CallingConvention::get_string_argument(&c, &mem, 1), "hello");
    // An unmapped address reads as an empty string; so does argument 9.
    c.set_register(3, 0x100);
    assert_eq!(CallingConvention::get_string_argument(&c, &mem, 0), "");
    assert_eq!(CallingConvention::get_string_argument(&c, &mem, 9), "");
    // The string stops at the end of RAM.
    mem.write_bytes(0x817F_FFFE, b"ab").unwrap();
    c.set_register(5, 0x817F_FFFE);
    assert_eq!(CallingConvention::get_string_argument(&c, &mem, 2), "ab");
}

#[test]
fn build_variants_choose_optimization() {
    let d = BuildConfig::new(BuildVariant::Debug);
    assert_eq!((d.opt_level, d.pgo), (0, false));
    assert_eq!(BuildConfig::new(BuildVariant::Release).opt_level, 3);
    assert_eq!(BuildConfig::new(BuildVariant::Stripped).opt_level, 3);
    assert_eq!(BuildConfig::new(BuildVariant::SizeOptimized).opt_level, 2);
    assert_eq!(BuildConfig::new(BuildVariant::SizeOptimized).variant, BuildVariant::SizeOptimized);
}
