use gcrecomp_core::decoder::Instruction;
use gcrecomp_core::enrich::{analyze_function, enrich_functions, sign_extend_li, CoverageReport, BLR};
use gcrecomp_core::ghidra::FunctionInfo;

fn func(addr: u32, size: u32) -> FunctionInfo {
    FunctionInfo {
        address: addr,
        name: format!("sub_{:08x}", addr),
        size,
        calling_convention: "default".into(),
        parameters: vec![],
        return_type: None,
        local_variables: vec![],
        basic_blocks: vec![],
    }
}

fn coverage(translated: usize, count: usize) -> f32 {
    if count == 0 {
        0.0
    } else {
        translated as f32 / count as f32
    }
}

#[test]
fn detects_leaf_return_and_coverage() {
    let words = [0x3800_0001u32, 0x4800_0011u32 /* bl +0x10 */, BLR];
    let is: Vec<_> = words
        .iter()
        .enumerate()
        .map(|(i, &w)| Instruction::decode(w, 0x100 + (i as u32) * 4).unwrap())
        .collect();
    let f = analyze_function(&func(0x100, 12), &is);
    assert!(!f.is_leaf, "has a bl -> not a leaf");
    assert!(f.returns, "ends in blr");
    assert_eq!(f.call_targets, vec![0x100 + 4 + 0x10], "bl target resolved");
    assert_eq!(f.instruction_count, 3);
    let c = coverage(f.translated, f.instruction_count);
    assert!(c > 0.0 && c <= 1.0);
}

#[test]
fn leaf_function_has_no_calls() {
    let is = vec![Instruction::decode(BLR, 0x200).unwrap()];
    let f = analyze_function(&func(0x200, 4), &is);
    assert!(f.is_leaf);
    assert!(f.call_targets.is_empty());
}

#[test]
fn sign_extension_of_branch_displacements() {
    assert_eq!(sign_extend_li(0x4800_0010), 0x10);
    // b -4
    assert_eq!(sign_extend_li(0x4BFF_FFFC), -4);
}

#[test]
fn backward_branch_is_a_loop_and_calls_are_deduplicated() {
    // bl +8 twice (same target from different addresses differs), b -4
    let words = [0x4800_0009u32, 0x4BFF_FFFCu32];
    let is: Vec<_> = words
        .iter()
        .enumerate()
        .map(|(i, &w)| Instruction::decode(w, 0x300 + (i as u32) * 4).unwrap())
        .collect();
    let f = analyze_function(&func(0x300, 8), &is);
    assert!(f.has_loop);
    assert!(!f.returns);
    assert_eq!(f.call_targets, vec![0x308]);
}

#[test]
fn instructions_outside_the_function_are_ignored_and_size_zero_counts_four() {
    let is = vec![
        Instruction::decode(BLR, 0x100).unwrap(),
        Instruction::decode(BLR, 0x104).unwrap(),
    ];
    let f = analyze_function(&func(0x100, 0), &is);
    assert_eq!(f.instruction_count, 1);
    let all = enrich_functions(&[func(0x100, 8), func(0x104, 4)], &is);
    assert_eq!(all.len(), 2);
    assert_eq!(all[0].instruction_count, 2);
    assert_eq!(all[1].instruction_count, 1);
}

#[test]
fn coverage_report_sums_facts() {
    let is = vec![
        Instruction::decode(0x3800_0001, 0x100).unwrap(),
        Instruction::decode(0x4BFF_FFFC, 0x104).unwrap(),
        Instruction::decode(BLR, 0x200).unwrap(),
    ];
    let facts = enrich_functions(&[func(0x100, 8), func(0x200, 4)], &is);
    let r = CoverageReport::from_facts(&facts);
    assert_eq!(r.functions, 2);
    assert_eq!(r.leaf_functions, 2);
    assert_eq!(r.functions_with_loops, 1);
    assert_eq!(r.total_instructions, 3);
    assert_eq!(r.translated_instructions, facts[0].translated + facts[1].translated);
}
