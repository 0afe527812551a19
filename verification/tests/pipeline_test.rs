use gcrecomp_core::dol::DolFile;
use gcrecomp_core::error::RecompilerError;
use gcrecomp_core::ghidra::{FunctionInfo, GhidraAnalysis};
use gcrecomp_core::pipeline::{PipelineContext, PipelineError, RecompilationPipeline};
use gcrecomp_core::validator::CodeValidator;
use std::collections::HashMap;

const WORDS: [u32; 3] = [0x3860_0001 /* li r3, 1 */, 0x3863_0002 /* addi r3, r3, 2 */, 0x4E80_0020 /* blr */];

/// A DOL with one text section at 0x80003100 holding `WORDS`.
fn dol_bytes() -> Vec<u8> {
    let mut d = vec![0u8; 0x100];
    d[0x00..0x04].copy_from_slice(&0x100u32.to_be_bytes());
    d[0x48..0x4C].copy_from_slice(&0x8000_3100u32.to_be_bytes());
    d[0x90..0x94].copy_from_slice(&12u32.to_be_bytes());
    d[0xE0..0xE4].copy_from_slice(&0x8000_3100u32.to_be_bytes());
    for w in WORDS {
        d.extend_from_slice(&w.to_be_bytes());
    }
    d
}

fn analysis() -> GhidraAnalysis {
    GhidraAnalysis {
        functions: vec![FunctionInfo {
            address: 0x8000_3100,
            name: "main".to_string(),
            size: 12,
            calling_convention: "default".to_string(),
            parameters: vec![],
            return_type: None,
            local_variables: vec![],
            basic_blocks: vec![],
        }],
        symbols: vec![],
        decompiled_code: HashMap::new(),
        instructions: HashMap::new(),
    }
}

#[test]
fn dol_sections_are_read() {
    let dol = DolFile::parse(&dol_bytes(), "game.dol").unwrap();
    assert_eq!(dol.entry_point, 0x8000_3100);
    assert_eq!(dol.text_sections.len(), 1);
    assert_eq!(dol.text_sections[0].address, 0x8000_3100);
    assert_eq!(dol.text_sections[0].data.len(), 12);
    assert!(dol.text_sections[0].executable);
}

#[test]
fn whole_recompilation_makes_a_module_with_a_dispatcher() {
    let dol = DolFile::parse(&dol_bytes(), "game.dol").unwrap();
    let instructions = RecompilationPipeline::decode_all_instructions(&dol);
    assert_eq!(instructions.len(), 3);
    assert_eq!(instructions[2].address, 0x8000_3108);
    let code = RecompilationPipeline::recompile(&dol, &analysis()).unwrap();
    assert!(code.starts_with("//! Recompiled GameCube game functions\n//! Generated by GCRecomp\n\n"));
    assert!(code.contains("pub fn main_80003100("));
    assert!(code.contains("        0x80003100u32 => main_80003100(ctx, memory),\n"));
    assert!(code.ends_with("            Ok(None)\n        }\n    }\n}\n\n"));
    assert_eq!(CodeValidator::validate_rust_code(&code), Ok(()));
}

#[test]
fn stages_run_in_order() {
    let mut ctx = PipelineContext::new();
    assert!(matches!(RecompilationPipeline::stage_decode(&mut ctx), Err(PipelineError::NoDolFile)));
    assert!(matches!(RecompilationPipeline::stage_analyze(&mut ctx, analysis()), Err(PipelineError::NoDolFile)));
    assert!(matches!(RecompilationPipeline::stage_build_cfg(&mut ctx), Err(PipelineError::NoInstructions)));
    assert!(matches!(RecompilationPipeline::stage_generate_code(&mut ctx), Err(PipelineError::NoGhidraAnalysis)));
    assert!(matches!(RecompilationPipeline::stage_validate(&ctx), Err(PipelineError::NoCode)));
    assert!(matches!(
        RecompilationPipeline::stage_load_dol(&mut ctx, &[0u8; 4], "x"),
        Err(PipelineError::Dol(_))
    ));
    assert!(ctx.dol_file.is_none());

    RecompilationPipeline::stage_load_dol(&mut ctx, &dol_bytes(), "game.dol").unwrap();
    RecompilationPipeline::stage_analyze(&mut ctx, analysis()).unwrap();
    RecompilationPipeline::stage_decode(&mut ctx).unwrap();
    assert_eq!(ctx.stats.total_instructions, 3);
    RecompilationPipeline::stage_build_cfg(&mut ctx).unwrap();
    assert_eq!(ctx.cfg.as_ref().unwrap().nodes.len(), 1);
    RecompilationPipeline::stage_analyze_data_flow(&mut ctx).unwrap();
    RecompilationPipeline::stage_infer_types(&mut ctx).unwrap();
    RecompilationPipeline::stage_generate_code(&mut ctx).unwrap();
    assert_eq!(ctx.stats.total_functions, 1);
    assert_eq!(ctx.stats.successful_functions + ctx.stats.failed_functions, 1);
    let code = ctx.rust_code.as_ref().unwrap();
    assert!(code.ends_with("        0x80003100u32 => main_80003100(ctx, memory),\n        _ => Ok(None),\n    }\n}\n"));
    RecompilationPipeline::stage_validate(&ctx).unwrap();
}

#[test]
fn validation_reports_unbalanced_code() {
    let mut ctx = PipelineContext::new();
    ctx.rust_code = Some("fn f() {".to_string());
    match RecompilationPipeline::stage_validate(&ctx) {
        Err(PipelineError::Invalid(RecompilerError::ValidationError(m))) => {
            assert!(m.contains("braces"), "{}", m)
        }
        other => panic!("unexpected {:?}", other),
    }
    assert!(CodeValidator::validate_rust_code("let x = 1;").is_err());
}
