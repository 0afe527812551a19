use gcrecomp_core::context::CpuContext;
use gcrecomp_core::memory::MemoryManager;

/// Test harness for recompiled functions.
struct FunctionTestHarness {
    ctx: CpuContext,
    memory: MemoryManager,
}

fn mock_cpu_context() -> CpuContext {
    let mut ctx = CpuContext::new();
    ctx.pc = 0x80000000;
    ctx.lr = 0;
    ctx.ctr = 0;
    ctx.cr = 0;
    ctx
}

impl FunctionTestHarness {
    fn new() -> Self {
        Self {
            ctx: mock_cpu_context(),
            memory: MemoryManager::new(),
        }
    }

    fn assert_register(&self, reg: u8, expected: u32, message: &str) {
        let actual = self.ctx.get_register(reg);
        assert_eq!(expected, actual, "{}: Register r{}", message, reg);
    }
}

#[test]
fn test_harness_creation() {
    let harness = FunctionTestHarness::new();
    assert_eq!(harness.ctx.pc, 0x80000000);
}

#[test]
fn test_register_assertion() {
    let mut harness = FunctionTestHarness::new();
    harness.ctx.set_register(3, 0x12345678);
    harness.assert_register(3, 0x12345678, "test");
    let _ = harness.memory.read_u32(0x8000_0000).unwrap();
}
