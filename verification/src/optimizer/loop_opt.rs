//! Loop transformations: unrolling, moving invariant instructions out of a
//! loop, and fusing two loops.
use vstd::prelude::*;
use crate::control_flow::ControlFlowAnalyzer;
use crate::decoder::{DecodedInstruction, InstructionView, Operand, views};
use crate::loop_analysis::{LoopAnalyzer, LoopInfo};

verus! {

/// An instruction moved by `offset` bytes, wrapping.
pub open spec fn moved(v: InstructionView, offset: u32) -> InstructionView {
    InstructionView {
        raw: v.raw,
        address: ((v.address + offset) % 0x1_0000_0000) as u32,
        opcode: v.opcode,
        instruction_type: v.instruction_type,
        operands: v.operands,
    }
}

/// The instructions moved by `offset` bytes.
pub open spec fn moved_all(vs: Seq<InstructionView>, offset: u32) -> Seq<InstructionView> {
    vs.map_values(|v: InstructionView| moved(v, offset))
}

/// `f` copies of the loop body, copy `i` moved by `i` times the body's size
/// in bytes (truncated to 32 bits).
pub open spec fn unrolled(vs: Seq<InstructionView>, f: nat) -> Seq<InstructionView>
    decreases f,
{
    if f == 0 {
        seq![]
    } else {
        unrolled(vs, (f - 1) as nat) + moved_all(vs, ((f - 1) * vs.len() * 4) as u32)
    }
}

/// Whether an instruction may move out of the loop: none of its register
/// operands is an induction variable, and none that is not invariant
/// equals its first operand.
pub open spec fn is_loop_invariant(v: InstructionView, ivs: Seq<u8>, invs: Seq<u8>) -> bool {
    !exists|j: int|
        0 <= j < v.operands.len() && #[trigger] v.operands[j] is Register && (ivs.contains(
            v.operands[j]->Register_0,
        ) || (!invs.contains(v.operands[j]->Register_0) && v.operands[0] == v.operands[j]))
}

/// The induction-variable registers of a loop.
pub open spec fn induction_registers(l: &LoopInfo) -> Seq<u8> {
    l.induction_variables@.map_values(|iv: crate::loop_analysis::InductionVariable| iv.register)
}

/// The instructions of `vs[..n]` that may, or may not (`keep == false`),
/// move out of the loop, in order.
pub open spec fn split_prefix(
    vs: Seq<InstructionView>,
    ivs: Seq<u8>,
    invs: Seq<u8>,
    keep: bool,
    n: int,
) -> Seq<InstructionView>
    decreases n,
{
    if n <= 0 || n > vs.len() {
        seq![]
    } else if is_loop_invariant(vs[n - 1], ivs, invs) == keep {
        split_prefix(vs, ivs, invs, keep, n - 1).push(vs[n - 1])
    } else {
        split_prefix(vs, ivs, invs, keep, n - 1)
    }
}

/// Whether an instruction of `vs` writes `r` through its first operand.
pub open spec fn first_writes(vs: Seq<InstructionView>, r: u8) -> bool {
    exists|i: int|
        0 <= i < vs.len() && vs[i].operands.len() > 0 && #[trigger] vs[i].operands[0]
            == Operand::Register(r)
}

/// Whether an instruction of `vs` has `r` among its operands.
pub open spec fn mentions(vs: Seq<InstructionView>, r: u8) -> bool {
    exists|i: int, j: int|
        0 <= i < vs.len() && 0 <= j < vs[i].operands.len() && #[trigger] vs[i].operands[j]
            == Operand::Register(r)
}

/// Appends copies of `src` to `dst`.
fn append_copies(dst: &mut Vec<DecodedInstruction>, src: &[DecodedInstruction])
    ensures
        views(final(dst)@) == views(old(dst)@) + views(src@),
{
    let ghost d0 = views(dst@);
    let mut i: usize = 0;
    while i < src.len()
        invariant
            i <= src@.len(),
            views(dst@) == d0 + views(src@.take(i as int)),
        decreases src@.len() - i,
    {
        let d = src[i].duplicate();
        let ghost before = dst@;
        dst.push(d);
        assert(views(dst@) =~= views(before).push(d@));
        assert(views(src@.take(i + 1)) =~= views(src@.take(i as int)).push(src@[i as int]@));
        i = i + 1;
    }
    assert(src@.take(i as int) =~= src@);
}

/// Repeats the loop body `unroll_factor` times, moving copy `i` by `i`
/// times the body's size in bytes.
pub fn unroll_loop(
    loop_info: &LoopInfo,
    instructions: &[DecodedInstruction],
    unroll_factor: usize,
) -> (r: Vec<DecodedInstruction>)
    requires
        unroll_factor * instructions@.len() * 4 <= usize::MAX,
    ensures
        views(r@) == unrolled(views(instructions@), unroll_factor as nat),
{
    let ghost vs = views(instructions@);
    let n = instructions.len();
    let mut unrolled_insts: Vec<DecodedInstruction> = Vec::new();
    let mut i: usize = 0;
    while i < unroll_factor
        invariant
            n == instructions@.len(),
            vs == views(instructions@),
            unroll_factor * n * 4 <= usize::MAX,
            i <= unroll_factor,
            views(unrolled_insts@) == unrolled(vs, i as nat),
        decreases unroll_factor - i,
    {
        assert(i * n <= unroll_factor * n) by (nonlinear_arith)
            requires
                i < unroll_factor,
        ;
        let offset: u32 = (i * n * 4) as u32;
        let ghost base = views(unrolled_insts@);
        let mut j: usize = 0;
        while j < n
            invariant
                n == instructions@.len(),
                vs == views(instructions@),
                j <= n,
                views(unrolled_insts@) == base + moved_all(vs.take(j as int), offset),
            decreases n - j,
        {
            let inst = &instructions[j];
            let mut new_inst = inst.duplicate();
            new_inst.address = inst.address.wrapping_add(offset);
            let ghost before = unrolled_insts@;
            unrolled_insts.push(new_inst);
            assert(views(unrolled_insts@) =~= views(before).push(new_inst@));
            assert(vs[j as int] == inst@);
            assert(moved_all(vs.take(j + 1), offset) =~= moved_all(vs.take(j as int), offset).push(
                moved(vs[j as int], offset),
            ));
            j = j + 1;
        }
        assert(vs.take(n as int) =~= vs);
        assert(views(unrolled_insts@) =~= unrolled(vs, (i + 1) as nat));
        i = i + 1;
    }
    unrolled_insts
}

/// Whether `v` holds `x`.
fn contains_u8(v: &Vec<u8>, x: u8) -> (b: bool)
    ensures
        b == v@.contains(x),
{
    let mut i: usize = 0;
    while i < v.len()
        invariant
            i <= v@.len(),
            forall|k: int| 0 <= k < i ==> v@[k] != x,
        decreases v@.len() - i,
    {
        if v[i] == x {
            return true;
        }
        i = i + 1;
    }
    false
}

/// Whether register `reg` is one of the loop's induction variables.
fn is_induction_register(loop_info: &LoopInfo, reg: u8) -> (b: bool)
    ensures
        b == induction_registers(loop_info).contains(reg),
{
    let ghost ivs = induction_registers(loop_info);
    let mut i: usize = 0;
    while i < loop_info.induction_variables.len()
        invariant
            ivs == induction_registers(loop_info),
            i <= loop_info.induction_variables@.len(),
            forall|k: int| 0 <= k < i ==> ivs[k] != reg,
        decreases loop_info.induction_variables@.len() - i,
    {
        if loop_info.induction_variables[i].register == reg {
            assert(ivs[i as int] == reg);
            return true;
        }
        i = i + 1;
    }
    false
}

/// Whether an instruction may move out of the loop.
fn instruction_is_invariant(loop_info: &LoopInfo, inst: &DecodedInstruction) -> (b: bool)
    ensures
        b == is_loop_invariant(inst@, induction_registers(loop_info), loop_info.invariants@),
{
    let ghost ops = inst@.operands;
    let ghost ivs = induction_registers(loop_info);
    let ghost invs = loop_info.invariants@;
    let n = inst.instruction.operands.len();
    let mut is_invariant = true;
    let mut j: usize = 0;
    while j < n
        invariant
            n == ops.len(),
            ops == inst@.operands,
            ivs == induction_registers(loop_info),
            invs == loop_info.invariants@,
            j <= n,
            is_invariant == !exists|t: int|
                0 <= t < j && #[trigger] ops[t] is Register && (ivs.contains(ops[t]->Register_0) || (
                !invs.contains(ops[t]->Register_0) && ops[0] == ops[t])),
        decreases n - j,
    {
        let operand = inst.instruction.operands.get(j);
        match operand {
            Operand::Register(reg) => {
                if is_induction_register(loop_info, reg) {
                    assert(ops[j as int] is Register && ivs.contains(ops[j as int]->Register_0));
                    return false;
                }
                if !contains_u8(&loop_info.invariants, reg) {
                    match inst.instruction.operands.first() {
                        Some(first) => {
                            if first == operand {
                                is_invariant = false;
                            }
                        },
                        None => {},
                    }
                }
            },
            _ => {},
        }
        j = j + 1;
    }
    is_invariant
}

/// Splits the loop body into the instructions that may move before the
/// loop and those that stay, each in order.
pub fn move_invariant_code(loop_info: &LoopInfo, instructions: &[DecodedInstruction]) -> (r: (
    Vec<DecodedInstruction>,
    Vec<DecodedInstruction>,
))
    ensures
        ({
            let vs = views(instructions@);
            let ivs = induction_registers(loop_info);
            let invs = loop_info.invariants@;
            &&& views(r.0@) == split_prefix(vs, ivs, invs, true, vs.len() as int)
            &&& views(r.1@) == split_prefix(vs, ivs, invs, false, vs.len() as int)
        }),
{
    let ghost vs = views(instructions@);
    let ghost ivs = induction_registers(loop_info);
    let ghost invs = loop_info.invariants@;
    let mut hoisted: Vec<DecodedInstruction> = Vec::new();
    let mut loop_body: Vec<DecodedInstruction> = Vec::new();
    let mut i: usize = 0;
    while i < instructions.len()
        invariant
            i <= instructions@.len(),
            vs == views(instructions@),
            ivs == induction_registers(loop_info),
            invs == loop_info.invariants@,
            views(hoisted@) == split_prefix(vs, ivs, invs, true, i as int),
            views(loop_body@) == split_prefix(vs, ivs, invs, false, i as int),
        decreases instructions@.len() - i,
    {
        let inst = &instructions[i];
        assert(vs[i as int] == inst@);
        let d = inst.duplicate();
        if instruction_is_invariant(loop_info, inst) {
            let ghost before = hoisted@;
            hoisted.push(d);
            assert(views(hoisted@) =~= views(before).push(d@));
        } else {
            let ghost before = loop_body@;
            loop_body.push(d);
            assert(views(loop_body@) =~= views(before).push(d@));
        }
        i = i + 1;
    }
    (hoisted, loop_body)
}

/// Whether some instruction writes `r` through its first operand.
fn writes_first(instructions: &[DecodedInstruction], r: u8) -> (b: bool)
    ensures
        b == first_writes(views(instructions@), r),
{
    let ghost vs = views(instructions@);
    let mut i: usize = 0;
    while i < instructions.len()
        invariant
            i <= instructions@.len(),
            vs == views(instructions@),
            forall|k: int|
                0 <= k < i ==> !(vs[k].operands.len() > 0 && #[trigger] vs[k].operands[0]
                    == Operand::Register(r)),
        decreases instructions@.len() - i,
    {
        let inst = &instructions[i];
        assert(vs[i as int] == inst@);
        match inst.instruction.operands.first() {
            Some(Operand::Register(reg)) => {
                if reg == r {
                    assert(vs[i as int].operands[0] == Operand::Register(r));
                    return true;
                }
            },
            _ => {},
        }
        i = i + 1;
    }
    false
}

/// Joins two loops into one, the first's instructions then the second's,
/// unless a register the first writes through a first operand appears
/// among the operands of the second.
pub fn fuse_loops(
    loop1: &LoopInfo,
    loop2: &LoopInfo,
    instructions1: &[DecodedInstruction],
    instructions2: &[DecodedInstruction],
) -> (r: Option<Vec<DecodedInstruction>>)
    ensures
        (exists|reg: u8|
            first_writes(views(instructions1@), reg) && mentions(views(instructions2@), reg))
            ==> r is None,
        !(exists|reg: u8|
            first_writes(views(instructions1@), reg) && mentions(views(instructions2@), reg))
            ==> (r matches Some(v) && views(v@) == views(instructions1@) + views(instructions2@)),
{
    let ghost vs1 = views(instructions1@);
    let ghost vs2 = views(instructions2@);
    let mut i: usize = 0;
    while i < instructions2.len()
        invariant
            i <= instructions2@.len(),
            vs1 == views(instructions1@),
            vs2 == views(instructions2@),
            forall|reg: u8|
                first_writes(vs1, reg) ==> !exists|a: int, b: int|
                    0 <= a < i && 0 <= b < vs2[a].operands.len() && #[trigger] vs2[a].operands[b]
                        == Operand::Register(reg),
        decreases instructions2@.len() - i,
    {
        let inst = &instructions2[i];
        assert(vs2[i as int] == inst@);
        let n = inst.instruction.operands.len();
        let mut j: usize = 0;
        while j < n
            invariant
                i < instructions2@.len(),
                vs1 == views(instructions1@),
                vs2 == views(instructions2@),
                vs2[i as int] == inst@,
                n == inst@.operands.len(),
                j <= n,
                forall|reg: u8|
                    first_writes(vs1, reg) ==> !exists|a: int, b: int|
                        0 <= a < i && 0 <= b < vs2[a].operands.len() && #[trigger] vs2[a].operands[b]
                            == Operand::Register(reg),
                forall|reg: u8|
                    first_writes(vs1, reg) ==> !exists|b: int|
                        0 <= b < j && #[trigger] inst@.operands[b] == Operand::Register(reg),
            decreases n - j,
        {
            match inst.instruction.operands.get(j) {
                Operand::Register(reg) => {
                    if writes_first(instructions1, reg) {
                        assert(mentions(vs2, reg)) by {
                            assert(vs2[i as int].operands[j as int] == Operand::Register(reg));
                        }
                        return None;
                    }
                },
                _ => {},
            }
            j = j + 1;
        }
        assert forall|reg: u8| first_writes(vs1, reg) implies !exists|a: int, b: int|
            0 <= a < i + 1 && 0 <= b < vs2[a].operands.len() && #[trigger] vs2[a].operands[b]
                == Operand::Register(reg) by {
            if exists|a: int, b: int|
                0 <= a < i + 1 && 0 <= b < vs2[a].operands.len() && #[trigger] vs2[a].operands[b]
                    == Operand::Register(reg) {
                let (a, b) = choose|a: int, b: int|
                    0 <= a < i + 1 && 0 <= b < vs2[a].operands.len() && #[trigger] vs2[a].operands[b]
                        == Operand::Register(reg);
                if a == i {
                    assert(inst@.operands[b] == Operand::Register(reg));
                }
            }
        }
        i = i + 1;
    }
    let mut fused: Vec<DecodedInstruction> = Vec::new();
    append_copies(&mut fused, instructions1);
    append_copies(&mut fused, instructions2);
    assert(views(fused@) =~= vs1 + vs2);
    Some(fused)
}

/// Loop optimizations: for each loop, the instructions of its blocks are
/// unrolled (short bodies) and split into invariant and varying parts; the
/// instructions come back unchanged.
pub fn optimize_loops(instructions: &[DecodedInstruction]) -> (r: Vec<DecodedInstruction>)
    ensures
        views(r@) == views(instructions@),
{
    let mut optimized: Vec<DecodedInstruction> = Vec::new();
    append_copies(&mut optimized, instructions);
    assert(views(optimized@) =~= views(instructions@));
    if instructions.len() == 0 || instructions.len() >= 0x4000_0000 {
        return optimized;
    }
    let cfg = ControlFlowAnalyzer::build_cfg(instructions, 0);
    if cfg.nodes.len() > usize::MAX / 8 {
        return optimized;
    }
    let loops = LoopAnalyzer::analyze_loops(&cfg);
    let mut processed: Vec<u32> = Vec::new();
    let mut k: usize = 0;
    while k < loops.len()
        invariant
            k <= loops@.len(),
        decreases loops@.len() - k,
    {
        let loop_info = &loops[k];
        let mut seen = false;
        let mut p: usize = 0;
        while p < processed.len()
            invariant
                p <= processed@.len(),
            decreases processed@.len() - p,
        {
            if processed[p] == loop_info.header {
                seen = true;
            }
            p = p + 1;
        }
        if !seen {
            let mut loop_instructions: Vec<DecodedInstruction> = Vec::new();
            let mut b: usize = 0;
            while b < cfg.nodes.len()
                invariant
                    b <= cfg.nodes@.len(),
                decreases cfg.nodes@.len() - b,
            {
                if b < loop_info.body.len() && loop_info.body.get(b) {
                    append_copies(&mut loop_instructions, cfg.nodes[b].instructions.as_slice());
                }
                b = b + 1;
            }
            let len = loop_instructions.len();
            if len > 0 {
                if len < 20 {
                    let mut factor = 20 / len;
                    if factor > 4 {
                        factor = 4;
                    }
                    if factor < 2 {
                        factor = 2;
                    }
                    assert(factor * len * 4 <= 320) by (nonlinear_arith)
                        requires
                            factor <= 4,
                            len < 20,
                    ;
                    let _unrolled = unroll_loop(loop_info, loop_instructions.as_slice(), factor);
                    let (hoisted, loop_body) = move_invariant_code(loop_info, loop_instructions.as_slice());
                    let mut new_loop = hoisted;
                    append_copies(&mut new_loop, loop_body.as_slice());
                } else {
                    let (_hoisted, _loop_body) = move_invariant_code(loop_info, loop_instructions.as_slice());
                }
                processed.push(loop_info.header);
            }
        }
        k = k + 1;
    }
    optimized
}

} // verus!
