use gcrecomp_core::control_flow::{BlockIds, BlockSet, ControlFlowAnalyzer, EdgePairs};
use gcrecomp_core::data_flow::DataFlowAnalyzer;
use gcrecomp_core::decoder::{DecodedInstruction, Instruction, InstructionType, Operand, Operands};
use gcrecomp_core::inter_procedural::{CallEdge, CallGraph, FunctionNode, InterProceduralAnalyzer};
use gcrecomp_core::loop_analysis::{LoopAnalyzer, LoopInfo};
use gcrecomp_core::optimizer::inlining::{analyze_inlining_candidates, inline_function, InliningHeuristics};
use gcrecomp_core::optimizer::loop_opt::{fuse_loops, move_invariant_code, optimize_loops, unroll_loop};
use gcrecomp_core::optimizer::{OptimizationLevel, Optimizer};
use std::collections::HashMap;

fn inst(t: InstructionType, ops: &[Operand], address: u32) -> DecodedInstruction {
    DecodedInstruction {
        instruction: Instruction {
            opcode: 0,
            instruction_type: t,
            operands: Operands::from_slice(ops),
        },
        raw: address,
        address,
    }
}

fn addi(rd: u8, ra: u8, imm: i16, address: u32) -> DecodedInstruction {
    inst(
        InstructionType::Arithmetic,
        &[Operand::Register(rd), Operand::Register(ra), Operand::Immediate(imm)],
        address,
    )
}

fn branch_to(target: u32, address: u32) -> DecodedInstruction {
    inst(InstructionType::Branch, &[Operand::Address(target)], address)
}

fn ret(address: u32) -> DecodedInstruction {
    inst(InstructionType::Branch, &[], address)
}

fn addresses(v: &[DecodedInstruction]) -> Vec<u32> {
    v.iter().map(|i| i.address).collect()
}

/// A loop of one block at 0x100 that branches back to itself, then a return.
fn looping_code() -> Vec<DecodedInstruction> {
    vec![addi(3, 4, 1, 0x100), branch_to(0x100, 0x104), ret(0x108)]
}

fn empty_loop_info(blocks: usize) -> LoopInfo {
    LoopInfo {
        header: 0,
        body: BlockSet::cleared(blocks),
        back_edges: EdgePairs::new(),
        exits: BlockIds::new(),
        induction_variables: vec![],
        invariants: vec![],
    }
}

#[test]
fn cfg_splits_after_branches_and_at_targets() {
    let cfg = ControlFlowAnalyzer::build_cfg(&looping_code(), 0x100);
    assert_eq!(cfg.nodes.len(), 2);
    assert_eq!(cfg.entry_block, 0);
    let b0 = &cfg.nodes[0];
    assert_eq!((b0.id, b0.start_address, b0.end_address), (0, 0x100, 0x104));
    assert_eq!(b0.instructions.len(), 2);
    assert_eq!(b0.successors.to_vec(), vec![0]);
    assert_eq!(b0.predecessors.to_vec(), vec![0]);
    let b1 = &cfg.nodes[1];
    assert_eq!((b1.start_address, b1.end_address), (0x108, 0x108));
    assert!(b1.successors.to_vec().is_empty());
    assert_eq!(cfg.edges.len(), 1);
    assert_eq!((cfg.edges[0].from, cfg.edges[0].to), (0, 0));
}

#[test]
fn straight_code_is_one_block() {
    let code = vec![addi(3, 3, 1, 0x200), addi(4, 3, 2, 0x204), ret(0x208)];
    let cfg = ControlFlowAnalyzer::build_cfg(&code, 0x200);
    assert_eq!(cfg.nodes.len(), 1);
    assert_eq!(cfg.nodes[0].instructions.len(), 3);
    assert!(cfg.edges.is_empty());
}

#[test]
fn self_loop_is_detected() {
    let cfg = ControlFlowAnalyzer::build_cfg(&looping_code(), 0x100);
    let loops = ControlFlowAnalyzer::detect_loops(&cfg);
    assert_eq!(loops.len(), 1);
    assert_eq!(loops[0].header, 0);
    assert_eq!(loops[0].back_edges.to_vec(), vec![(0, 0)]);
    assert!(loops[0].body.get(0));
    assert!(!loops[0].body.get(1));
    let infos = LoopAnalyzer::analyze_loops(&cfg);
    assert_eq!(infos.len(), 1);
    assert_eq!(infos[0].header, 0);
    assert!(LoopAnalyzer::find_induction_variables(&infos[0], &cfg).is_empty());
}

#[test]
fn calls_are_found_in_blocks() {
    // A linking branch (raw word with its low bit set) with a direct target.
    let mut call = inst(InstructionType::Branch, &[Operand::Address(0x8000_1000)], 0x300);
    call.raw = 0x4800_0001;
    let code = vec![call];
    let cfg = ControlFlowAnalyzer::build_cfg(&code, 0x300);
    let calls = ControlFlowAnalyzer::analyze_function_calls(&cfg);
    assert_eq!(calls.len(), 1);
    assert_eq!(calls[0].callee_address, 0x8000_1000);
    assert_eq!(calls[0].instruction_address, 0x300);
    assert_eq!(calls[0].caller_block, 0);
}

#[test]
fn liveness_is_the_least_fixpoint() {
    // The loop block reads r4 and writes r3; the return reads nothing. An
    // exit set is the one computed when the block's entry set last changed:
    // for the loop that was before r4 became live at its entry.
    let cfg = ControlFlowAnalyzer::build_cfg(&looping_code(), 0x100);
    let live = DataFlowAnalyzer::live_variable_analysis(&cfg);
    let entry0 = &live.live_at_entry[&0];
    let exit0 = &live.live_at_exit[&0];
    for r in 0..32usize {
        assert_eq!(entry0.get(r), r == 4, "register {} at entry of the loop", r);
        assert!(!exit0.get(r), "register {} at exit of the loop", r);
        assert!(!live.live_at_entry[&1].get(r));
        assert!(!live.live_at_exit[&1].get(r));
    }
    assert_eq!(live.live_at_entry.len(), 2);
}

#[test]
fn def_use_chains_by_register() {
    let code = vec![addi(3, 4, 1, 0), addi(5, 3, 2, 4), addi(3, 5, 0, 8)];
    let chains = DataFlowAnalyzer::build_def_use_chains(&code);
    let c3 = &chains[&3];
    assert_eq!(c3.register, 3);
    assert_eq!(c3.definitions.len(), 2);
    assert_eq!(c3.definitions.get(0).instruction_index, 0);
    assert_eq!(c3.definitions.get(1).instruction_index, 2);
    assert_eq!(c3.definitions.get(1).address, 8);
    assert_eq!(c3.uses.len(), 1);
    assert_eq!(c3.uses.get(0).instruction_index, 1);
    let c4 = &chains[&4];
    assert_eq!(c4.definitions.len(), 0);
    assert_eq!(c4.uses.len(), 1);
    assert!(!chains.contains_key(&6));
    assert_eq!(chains.len(), 3);
}

#[test]
fn optimizer_levels_switch_passes() {
    let none = Optimizer::new(OptimizationLevel::Disabled);
    assert!(!none.constant_folding && !none.dead_code_elimination);
    assert!(!none.loop_optimizations && !none.function_inlining);
    let basic = Optimizer::new(OptimizationLevel::Basic);
    assert!(basic.constant_folding && basic.dead_code_elimination);
    assert!(!basic.loop_optimizations && !basic.function_inlining);
    let all = Optimizer::new(OptimizationLevel::Aggressive);
    assert!(all.loop_optimizations && all.function_inlining);
    assert_eq!(Optimizer::default().level, OptimizationLevel::Basic);
}

#[test]
fn overwritten_definition_is_removed() {
    // r3 is written twice with no read in between: the first write is dead.
    let code = vec![addi(3, 0, 1, 0x10), addi(3, 0, 2, 0x14), ret(0x18)];
    let out = Optimizer::new(OptimizationLevel::Basic).optimize(&code);
    assert_eq!(addresses(&out), vec![0x14, 0x18]);
    let untouched = Optimizer::new(OptimizationLevel::Disabled).optimize(&code);
    assert_eq!(addresses(&untouched), vec![0x10, 0x14, 0x18]);
}

#[test]
fn read_definition_is_kept() {
    let code = vec![addi(3, 0, 1, 0x10), addi(4, 3, 2, 0x14), addi(3, 0, 2, 0x18)];
    let out = Optimizer::new(OptimizationLevel::Aggressive).optimize(&code);
    assert_eq!(addresses(&out), vec![0x10, 0x14, 0x18]);
}

#[test]
fn reachable_functions_follow_calls() {
    let mut g: HashMap<u32, Vec<u32>> = HashMap::new();
    g.insert(1, vec![2, 3]);
    g.insert(3, vec![1]);
    g.insert(4, vec![5]);
    let r = Optimizer::reachable_functions(&[1], &g);
    let mut v: Vec<u32> = r.into_iter().collect();
    v.sort();
    assert_eq!(v, vec![1, 2, 3]);
    assert!(Optimizer::reachable_functions(&[], &g).is_empty());
}

#[test]
fn unrolling_repeats_and_moves_the_body() {
    let body = vec![addi(3, 3, 1, 0x100), branch_to(0x100, 0x104)];
    let out = unroll_loop(&empty_loop_info(1), &body, 3);
    assert_eq!(addresses(&out), vec![0x100, 0x104, 0x108, 0x10c, 0x110, 0x114]);
    assert!(unroll_loop(&empty_loop_info(1), &body, 0).is_empty());
}

#[test]
fn invariant_code_moves_out() {
    let mut info = empty_loop_info(1);
    info.invariants = vec![4, 5];
    // r5 = r4 + 1 only names invariant registers: it moves. r3 = r3 + 1
    // writes a register that is not invariant: it stays.
    let body = vec![addi(5, 4, 1, 0x100), addi(3, 3, 1, 0x104)];
    let (moved, kept) = move_invariant_code(&info, &body);
    assert_eq!(addresses(&moved), vec![0x100]);
    assert_eq!(addresses(&kept), vec![0x104]);
}

#[test]
fn fusion_refuses_a_dependence() {
    let a = empty_loop_info(1);
    let b = empty_loop_info(1);
    let first = vec![addi(3, 4, 1, 0x100)];
    let reads_r3 = vec![addi(5, 3, 1, 0x200)];
    assert!(fuse_loops(&a, &b, &first, &reads_r3).is_none());
    let independent = vec![addi(6, 7, 1, 0x200)];
    let fused = fuse_loops(&a, &b, &first, &independent).unwrap();
    assert_eq!(addresses(&fused), vec![0x100, 0x200]);
}

#[test]
fn loop_optimization_keeps_the_instructions() {
    let code = looping_code();
    assert_eq!(addresses(&optimize_loops(&code)), vec![0x100, 0x104, 0x108]);
}

#[test]
fn inlining_replaces_the_call() {
    let caller = vec![addi(3, 0, 1, 0x100), branch_to(0x200, 0x104), ret(0x108)];
    let callee = vec![addi(4, 3, 1, 0x200), addi(5, 4, 1, 0x204)];
    let out = inline_function(&caller, &callee, 0x104);
    assert_eq!(addresses(&out), vec![0x100, 0x108, 0x10c, 0x108]);
    assert_eq!(out[1].instruction.operands.to_vec(), callee[0].instruction.operands.to_vec());
    let unchanged = inline_function(&caller, &callee, 0x500);
    assert_eq!(addresses(&unchanged), vec![0x100, 0x104, 0x108]);
}

#[test]
fn inlining_candidates_need_frequent_small_callees() {
    let node = |address: u32| FunctionNode {
        address,
        name: String::new(),
        is_entry_point: false,
        callers: vec![],
        callees: vec![],
    };
    let mut edges = Vec::new();
    for _ in 0..10 {
        edges.push(CallEdge { caller: 0, callee: 1, call_sites: vec![] });
    }
    let graph = CallGraph { nodes: vec![node(0), node(1), node(2)], edges };
    let mut sizes: HashMap<u32, usize> = HashMap::new();
    sizes.insert(1, 20);
    sizes.insert(2, 20);
    assert_eq!(analyze_inlining_candidates(&graph, &sizes), vec![1]);
    sizes.insert(1, 51);
    assert!(analyze_inlining_candidates(&graph, &sizes).is_empty());
    let h = InliningHeuristics::default();
    assert_eq!((h.max_size, h.max_call_frequency, h.max_recursion_depth), (50, 10, 2));
}

#[test]
fn call_graph_marks_the_first_function_as_entry() {
    let f = |address: u32| gcrecomp_core::ghidra::FunctionInfo {
        address,
        name: format!("f{}", address),
        size: 4,
        calling_convention: String::new(),
        parameters: vec![],
        return_type: None,
        local_variables: vec![],
        basic_blocks: vec![],
    };
    let g = InterProceduralAnalyzer::build_call_graph(&[f(0x10), f(0x20)]);
    assert_eq!(g.nodes.len(), 2);
    assert!(g.nodes[0].is_entry_point && !g.nodes[1].is_entry_point);
    assert!(g.edges.is_empty());
    assert_eq!(InterProceduralAnalyzer::find_unreachable_functions(&g), vec![1]);
}
