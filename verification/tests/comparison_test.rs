use gcrecomp_core::context::CpuContext;

struct ComparisonResult {
    passed: bool,
    differences: Vec<String>,
}

fn mock_cpu_context() -> CpuContext {
    let mut ctx = CpuContext::new();
    ctx.pc = 0x80000000;
    ctx.lr = 0;
    ctx.ctr = 0;
    ctx.cr = 0;
    ctx
}

fn compare_register_state(original: &CpuContext, recompiled: &CpuContext) -> ComparisonResult {
    let mut differences = Vec::new();
    for i in 0..32u8 {
        let orig_val = original.get_register(i);
        let recomp_val = recompiled.get_register(i);
        if orig_val != recomp_val {
            differences.push(format!(
                "Register r{}: original=0x{:08X}, recompiled=0x{:08X}",
                i, orig_val, recomp_val
            ));
        }
    }
    if original.pc != recompiled.pc {
        differences.push(format!("PC: original=0x{:08X}, recompiled=0x{:08X}", original.pc, recompiled.pc));
    }
    if original.lr != recompiled.lr {
        differences.push(format!("LR: original=0x{:08X}, recompiled=0x{:08X}", original.lr, recompiled.lr));
    }
    if original.ctr != recompiled.ctr {
        differences.push(format!("CTR: original=0x{:08X}, recompiled=0x{:08X}", original.ctr, recompiled.ctr));
    }
    if original.cr != recompiled.cr {
        differences.push(format!("CR: original=0x{:08X}, recompiled=0x{:08X}", original.cr, recompiled.cr));
    }
    ComparisonResult { passed: differences.is_empty(), differences }
}

#[test]
fn test_register_comparison() {
    let mut orig = mock_cpu_context();
    let mut recomp = mock_cpu_context();
    orig.set_register(3, 0x12345678);
    recomp.set_register(3, 0x12345678);
    let result = compare_register_state(&orig, &recomp);
    assert!(result.passed);
}

#[test]
fn test_register_comparison_difference() {
    let mut orig = mock_cpu_context();
    let mut recomp = mock_cpu_context();
    orig.set_register(3, 0x12345678);
    recomp.set_register(3, 0x87654321);
    let result = compare_register_state(&orig, &recomp);
    assert!(!result.passed);
    assert!(!result.differences.is_empty());
}
