//! Instruction-level optimizations: constant tracking, dead-code
//! elimination, loop transformations and inlining, chosen by an
//! optimization level; and reachability of functions from entry points.
use vstd::prelude::*;
use std::collections::HashMap;
use std::collections::HashSet;
use crate::decoder::{DecodedInstruction, InstructionType, InstructionView, Operand, views};

pub mod inlining;
pub mod loop_opt;

verus! {

broadcast use vstd::std_specs::hash::group_hash_axioms;

/// How much to optimize.
#[derive(Debug, Clone, Copy, PartialEq, Eq, Structural)]
pub enum OptimizationLevel {
    Disabled,
    Basic,
    Aggressive,
}

/// An optimizer with the passes its level switches on.
pub struct Optimizer {
    pub level: OptimizationLevel,
    pub constant_folding: bool,
    pub dead_code_elimination: bool,
    pub loop_optimizations: bool,
    pub function_inlining: bool,
}

/// Instructions whose operands all count as read: branches, system
/// instructions, stores and compares.
pub open spec fn reads_all_operands(t: InstructionType) -> bool {
    t == InstructionType::Branch || t == InstructionType::System || t == InstructionType::Store || t
        == InstructionType::Compare
}

/// The registers among `ops[from..]`.
pub open spec fn registers_from(ops: Seq<Operand>, from: int) -> Set<u8> {
    Set::new(|r: u8| exists|j: int| from <= j < ops.len() && j >= 0 && ops[j] == Operand::Register(r))
}

/// The 32 general-purpose registers.
pub open spec fn all_registers() -> Set<u8> {
    Set::new(|r: u8| r < 32)
}

/// Registers needed before instruction `v` given those needed after it: an
/// instruction that writes an unneeded register changes nothing; one that
/// writes a needed register needs its other register operands instead.
pub open spec fn needed_before(v: InstructionView, after: Set<u8>) -> Set<u8> {
    if reads_all_operands(v.instruction_type) {
        after.union(registers_from(v.operands, 0))
    } else if v.operands.len() > 0 && v.operands[0] is Register {
        let rd = v.operands[0]->Register_0;
        if !after.contains(rd) {
            after
        } else {
            after.remove(rd).union(registers_from(v.operands, 1))
        }
    } else {
        after.union(registers_from(v.operands, 1))
    }
}

/// Registers needed before instruction `i`, all 32 being needed at the end.
pub open spec fn needed_from(vs: Seq<InstructionView>, i: int) -> Set<u8>
    decreases vs.len() - i,
{
    if i >= vs.len() || i < 0 {
        all_registers()
    } else {
        needed_before(vs[i], needed_from(vs, i + 1))
    }
}

/// Whether instruction `i` is kept: it reads all its operands, or does not
/// write a register through its first operand, or writes one needed after
/// it.
pub open spec fn kept(vs: Seq<InstructionView>, i: int) -> bool {
    let v = vs[i];
    reads_all_operands(v.instruction_type) || !(v.operands.len() > 0 && v.operands[0] is Register)
        || needed_from(vs, i + 1).contains(v.operands[0]->Register_0)
}

/// The kept instructions among the first `n`, in order.
pub open spec fn kept_prefix(vs: Seq<InstructionView>, n: int) -> Seq<InstructionView>
    decreases n,
{
    if n <= 0 || n > vs.len() {
        seq![]
    } else if kept(vs, n - 1) {
        kept_prefix(vs, n - 1).push(vs[n - 1])
    } else {
        kept_prefix(vs, n - 1)
    }
}

/// The callees recorded for `a`.
pub open spec fn callees_of(g: Map<u32, Vec<u32>>, a: u32) -> Seq<u32> {
    if g.contains_key(a) {
        g[a]@
    } else {
        seq![]
    }
}

/// A set holds every callee of each of its members.
pub open spec fn call_closed(g: Map<u32, Vec<u32>>, s: Set<u32>) -> bool {
    forall|a: u32, j: int|
        #![trigger s.contains(a), callees_of(g, a)[j]]
        s.contains(a) && 0 <= j < callees_of(g, a).len() ==> s.contains(callees_of(g, a)[j])
}

/// A set holds the entry points and is closed under calls.
pub open spec fn reach_closed(entries: Seq<u32>, g: Map<u32, Vec<u32>>, s: Set<u32>) -> bool {
    &&& forall|i: int| 0 <= i < entries.len() ==> s.contains(#[trigger] entries[i])
    &&& call_closed(g, s)
}

/// Adds the registers among `ops[from..]` to `used`.
fn add_registers(used: &mut HashSet<u8>, inst: &DecodedInstruction, from: usize)
    ensures
        final(used)@ == old(used)@.union(registers_from(inst@.operands, from as int)),
{
    let ghost ops = inst@.operands;
    let n = inst.instruction.operands.len();
    let ghost u0 = used@;
    let mut j: usize = from;
    while j < n
        invariant
            n == ops.len(),
            from <= j || n <= j,
            ops == inst@.operands,
            used@ == u0.union(
                Set::new(
                    |r: u8| exists|t: int| from <= t < j && t < ops.len() && ops[t] == Operand::Register(r),
                ),
            ),
        decreases n - j,
    {
        match inst.instruction.operands.get(j) {
            Operand::Register(r) => {
                used.insert(r);
            },
            _ => {},
        }
        assert(used@ =~= u0.union(
            Set::new(
                |r: u8| exists|t: int| from <= t < j + 1 && t < ops.len() && ops[t] == Operand::Register(r),
            ),
        )) by {
            assert forall|r: u8| used@.contains(r) == (u0.contains(r) || exists|t: int|
                from <= t < j + 1 && t < ops.len() && ops[t] == Operand::Register(r)) by {
                if exists|t: int| from <= t < j + 1 && t < ops.len() && ops[t] == Operand::Register(r) {
                    let t = choose|t: int|
                        from <= t < j + 1 && t < ops.len() && ops[t] == Operand::Register(r);
                    if t < j {
                        assert(exists|t2: int|
                            from <= t2 < j && t2 < ops.len() && ops[t2] == Operand::Register(r));
                    }
                }
            }
        }
        j = j + 1;
    }
    assert(used@ =~= u0.union(registers_from(ops, from as int)));
}

impl Optimizer {
    /// An optimizer for `level`: nothing for `Disabled`; constant folding and
    /// dead-code elimination for `Basic`; also loop optimizations and
    /// inlining for `Aggressive`.
    pub fn new(level: OptimizationLevel) -> (o: Optimizer)
        ensures
            o.level == level,
            o.constant_folding == (level != OptimizationLevel::Disabled),
            o.dead_code_elimination == (level != OptimizationLevel::Disabled),
            o.loop_optimizations == (level == OptimizationLevel::Aggressive),
            o.function_inlining == (level == OptimizationLevel::Aggressive),
    {
        match level {
            OptimizationLevel::Disabled => Optimizer {
                level,
                constant_folding: false,
                dead_code_elimination: false,
                loop_optimizations: false,
                function_inlining: false,
            },
            OptimizationLevel::Basic => Optimizer {
                level,
                constant_folding: true,
                dead_code_elimination: true,
                loop_optimizations: false,
                function_inlining: false,
            },
            OptimizationLevel::Aggressive => Optimizer {
                level,
                constant_folding: true,
                dead_code_elimination: true,
                loop_optimizations: true,
                function_inlining: true,
            },
        }
    }

    /// A copy of the instructions.
    fn copy_all(instructions: &[DecodedInstruction]) -> (r: Vec<DecodedInstruction>)
        ensures
            views(r@) == views(instructions@),
    {
        let mut r: Vec<DecodedInstruction> = Vec::new();
        let mut i: usize = 0;
        while i < instructions.len()
            invariant
                i <= instructions@.len(),
                views(r@) == views(instructions@.take(i as int)),
            decreases instructions@.len() - i,
        {
            let d = instructions[i].duplicate();
            let ghost before = r@;
            r.push(d);
            assert(views(r@) =~= views(before).push(d@));
            assert(views(instructions@.take(i + 1)) =~= views(instructions@.take(i as int)).push(
                instructions@[i as int]@,
            ));
            i = i + 1;
        }
        assert(instructions@.take(i as int) =~= instructions@);
        r
    }

    /// Tracks the constants that `addi`/`li` and `addis`/`lis` load into
    /// registers, forgetting a register when something else writes it and
    /// all of them at a branch. The instructions come back unchanged.
    fn fold_constants(&self, instructions: &[DecodedInstruction]) -> (r: Vec<DecodedInstruction>)
        ensures
            views(r@) == views(instructions@),
    {
        let mut result: Vec<DecodedInstruction> = Vec::new();
        let mut constants: HashMap<u8, u32> = HashMap::new();
        let mut i: usize = 0;
        while i < instructions.len()
            invariant
                i <= instructions@.len(),
                views(result@) == views(instructions@.take(i as int)),
            decreases instructions@.len() - i,
        {
            let inst = &instructions[i];
            let ops = &inst.instruction.operands;
            let opcode = inst.instruction.opcode;
            if opcode == 14 && ops.len() >= 3 {
                match (ops.get(0), ops.get(1), ops.get(2)) {
                    (Operand::Register(rd), Operand::Register(ra), Operand::Immediate(imm)) => {
                        let value: u32 = imm as i32 as u32;
                        if ra == 0 {
                            constants.insert(rd, value);
                        } else {
                            match constants.get(&ra) {
                                Some(base) => {
                                    let v = base.wrapping_add(value);
                                    constants.insert(rd, v);
                                },
                                None => {
                                    constants.remove(&rd);
                                },
                            }
                        }
                    },
                    _ => {},
                }
            } else if opcode == 15 && ops.len() >= 3 {
                match (ops.get(0), ops.get(1), ops.get(2)) {
                    (Operand::Register(rd), Operand::Register(ra), Operand::Immediate(imm)) => {
                        if ra == 0 {
                            constants.insert(rd, (imm as u32) << 16u32);
                        } else {
                            constants.remove(&rd);
                        }
                    },
                    _ => {},
                }
            } else {
                match ops.first() {
                    Some(Operand::Register(rd)) => {
                        match inst.instruction.instruction_type {
                            InstructionType::Arithmetic | InstructionType::Load
                            | InstructionType::Move | InstructionType::Shift
                            | InstructionType::Rotate => {
                                constants.remove(&rd);
                            },
                            _ => {},
                        }
                    },
                    _ => {},
                }
            }
            match inst.instruction.instruction_type {
                InstructionType::Branch => {
                    constants.clear();
                },
                _ => {},
            }
            let d = inst.duplicate();
            let ghost before = result@;
            result.push(d);
            assert(views(result@) =~= views(before).push(d@));
            assert(views(instructions@.take(i + 1)) =~= views(instructions@.take(i as int)).push(
                instructions@[i as int]@,
            ));
            i = i + 1;
        }
        assert(instructions@.take(i as int) =~= instructions@);
        result
    }

    /// Backward dead-code elimination: walking from the last instruction,
    /// with all 32 registers needed at the end, an instruction that writes
    /// an unneeded register through its first operand is dropped; branches,
    /// system instructions, stores and compares are always kept.
    fn eliminate_dead_code(&self, instructions: &[DecodedInstruction]) -> (r: Vec<
        DecodedInstruction,
    >)
        ensures
            views(r@) == kept_prefix(views(instructions@), instructions@.len() as int),
    {
        let ghost vs = views(instructions@);
        let n = instructions.len();
        let mut used_after: HashSet<u8> = HashSet::new();
        let mut r: u8 = 0;
        while r < 32
            invariant
                r <= 32,
                used_after@ == Set::new(|x: u8| x < r),
            decreases 32 - r,
        {
            used_after.insert(r);
            assert(used_after@ =~= Set::new(|x: u8| x < r + 1));
            r = r + 1;
        }
        assert(used_after@ =~= all_registers());
        let mut keep: Vec<bool> = Vec::new();
        let mut k: usize = 0;
        while k < n
            invariant
                k <= n,
                keep@.len() == k,
                forall|j: int| 0 <= j < k ==> keep@[j],
            decreases n - k,
        {
            keep.push(true);
            k = k + 1;
        }
        let mut i: usize = n;
        while i > 0
            invariant
                i <= n,
                n == vs.len(),
                vs == views(instructions@),
                keep@.len() == n,
                used_after@ == needed_from(vs, i as int),
                forall|j: int| 0 <= j < i ==> keep@[j],
                forall|j: int| i <= j < n ==> keep@[j] == kept(vs, j),
            decreases i,
        {
            let idx = i - 1;
            let inst = &instructions[idx];
            assert(inst@ == vs[idx as int]);
            let ghost after = used_after@;
            match inst.instruction.instruction_type {
                InstructionType::Branch | InstructionType::System | InstructionType::Store
                | InstructionType::Compare => {
                    add_registers(&mut used_after, inst, 0);
                },
                _ => {
                    match inst.instruction.operands.first() {
                        Some(Operand::Register(rd)) => {
                            if !used_after.contains(&rd) {
                                keep.set(idx, false);
                            } else {
                                used_after.remove(&rd);
                                add_registers(&mut used_after, inst, 1);
                            }
                        },
                        _ => {
                            add_registers(&mut used_after, inst, 1);
                        },
                    }
                },
            }
            assert(used_after@ =~= needed_before(vs[idx as int], after));
            i = idx;
        }
        let mut result: Vec<DecodedInstruction> = Vec::new();
        let mut j: usize = 0;
        while j < n
            invariant
                j <= n,
                n == vs.len(),
                vs == views(instructions@),
                keep@.len() == n,
                forall|t: int| 0 <= t < n ==> keep@[t] == kept(vs, t),
                views(result@) == kept_prefix(vs, j as int),
            decreases n - j,
        {
            if keep[j] {
                let d = instructions[j].duplicate();
                result.push(d);
                assert(views(result@) =~= views(result@.drop_last()).push(d@));
            }
            j = j + 1;
        }
        result
    }

    /// Runs the passes of the level in order: constant tracking, dead-code
    /// elimination, then loop optimizations.
    pub fn optimize(&self, instructions: &[DecodedInstruction]) -> (r: Vec<DecodedInstruction>)
        ensures
            views(r@) == (if self.dead_code_elimination {
                kept_prefix(views(instructions@), instructions@.len() as int)
            } else {
                views(instructions@)
            }),
    {
        let mut optimized = Self::copy_all(instructions);
        if self.constant_folding {
            optimized = self.fold_constants(optimized.as_slice());
        }
        if self.dead_code_elimination {
            let ghost before = optimized@;
            optimized = self.eliminate_dead_code(optimized.as_slice());
            proof {
                lemma_kept_prefix_views(before, instructions@);
            }
        }
        if self.loop_optimizations {
            optimized = loop_opt::optimize_loops(optimized.as_slice());
        }
        optimized
    }

    /// The functions reachable from the entry points through the call
    /// graph: the least set holding the entry points and every callee of
    /// each member.
    pub fn reachable_functions(entry_points: &[u32], call_graph: &HashMap<u32, Vec<u32>>) -> (r:
        HashSet<u32>)
        ensures
            reach_closed(entry_points@, call_graph@, r@),
            forall|s: Set<u32>| #[trigger] reach_closed(entry_points@, call_graph@, s) ==> r@.subset_of(s),
    {
        let ghost g = call_graph@;
        let mut reachable: HashSet<u32> = HashSet::new();
        let mut worklist: Vec<u32> = Vec::new();
        let mut i: usize = 0;
        while i < entry_points.len()
            invariant
                i <= entry_points@.len(),
                worklist@ == entry_points@.take(i as int),
            decreases entry_points@.len() - i,
        {
            worklist.push(entry_points[i]);
            assert(worklist@ =~= entry_points@.take(i + 1));
            i = i + 1;
        }
        assert(worklist@ =~= entry_points@);
        proof {
            vstd::std_specs::hash::axiom_hashmap_view_finite_dom(*call_graph);
        }
        while worklist.len() > 0
            invariant
                g == call_graph@,
                g.dom().finite(),
                forall|t: int| 0 <= t < entry_points@.len() ==> reachable@.contains(
                    #[trigger] entry_points@[t],
                ) || worklist@.contains(entry_points@[t]),
                forall|a: u32, j: int|
                    #![trigger reachable@.contains(a), callees_of(g, a)[j]]
                    reachable@.contains(a) && 0 <= j < callees_of(g, a).len() ==> reachable@.contains(
                        callees_of(g, a)[j],
                    ) || worklist@.contains(callees_of(g, a)[j]),
                forall|s: Set<u32>|
                    #[trigger] reach_closed(entry_points@, g, s) ==> reachable@.subset_of(s)
                        && forall|t: int| 0 <= t < worklist@.len() ==> s.contains(worklist@[t]),
            decreases g.dom().difference(reachable@).len(), worklist@.len(),
        {
            let ghost w0 = worklist@;
            let addr = worklist.pop().unwrap();
            let ghost w = worklist@;
            let ghost before = reachable@;
            assert(w0 == w.push(addr));
            let fresh = reachable.insert(addr);
            if !fresh {
                assert(reachable@ =~= before);
            }
            if fresh {
                match call_graph.get(&addr) {
                    Some(callees) => {
                        let mut j: usize = 0;
                        while j < callees.len()
                            invariant
                                g == call_graph@,
                                g.contains_key(addr),
                                g[addr] == *callees,
                                reachable@ == before.insert(addr),
                                j <= callees@.len(),
                                worklist@.len() >= w.len(),
                                worklist@.subrange(0, w.len() as int) == w,
                                forall|t: int|
                                    w.len() <= t < worklist@.len() ==> exists|c: int|
                                        0 <= c < j && callees@[c] == #[trigger] worklist@[t],
                                forall|c: int|
                                    0 <= c < j ==> reachable@.contains(#[trigger] callees@[c])
                                        || worklist@.contains(callees@[c]),
                            decreases callees@.len() - j,
                        {
                            let callee = callees[j];
                            let ghost wl = worklist@;
                            if !reachable.contains(&callee) {
                                worklist.push(callee);
                                assert(worklist@[worklist@.len() - 1] == callee);
                                assert(worklist@.subrange(0, w.len() as int) =~= wl.subrange(
                                    0,
                                    w.len() as int,
                                ));
                                assert forall|c: int| 0 <= c < j implies reachable@.contains(
                                    #[trigger] callees@[c],
                                ) || worklist@.contains(callees@[c]) by {
                                    if !reachable@.contains(callees@[c]) {
                                        let t = choose|t: int| 0 <= t < wl.len() && wl[t] == callees@[c];
                                        assert(worklist@[t] == wl[t]);
                                    }
                                }
                                assert forall|t: int|
                                    w.len() <= t < worklist@.len() implies exists|c: int|
                                    0 <= c < j + 1 && callees@[c] == #[trigger] worklist@[t] by {
                                    if t < wl.len() {
                                        assert(worklist@[t] == wl[t]);
                                    } else {
                                        assert(callees@[j as int] == worklist@[t]);
                                    }
                                }
                            }
                            j = j + 1;
                        }
                        proof {
                            let dif0 = g.dom().difference(before);
                            assert(dif0.contains(addr));
                            assert(g.dom().difference(reachable@) =~= dif0.remove(addr));
                            assert(callees_of(g, addr) == callees@);
                        }
                    },
                    None => {
                        assert(g.dom().difference(reachable@) =~= g.dom().difference(before));
                        assert(callees_of(g, addr) =~= Seq::<u32>::empty());
                    },
                }
            }
            proof {
                // What the worklist held before the pop is still there or now reached.
                assert forall|x: u32| #[trigger] w0.contains(x) implies reachable@.contains(x)
                    || worklist@.contains(x) by {
                    let t = choose|t: int| 0 <= t < w0.len() && w0[t] == x;
                    if t < w.len() {
                        assert(worklist@.subrange(0, w.len() as int)[t] == w[t]);
                        assert(worklist@[t] == x);
                    }
                }
                assert forall|t: int| 0 <= t < entry_points@.len() implies reachable@.contains(
                    #[trigger] entry_points@[t],
                ) || worklist@.contains(entry_points@[t]) by {
                    if !before.contains(entry_points@[t]) {
                        assert(w0.contains(entry_points@[t]));
                    }
                }
                assert forall|a: u32, j: int|
                    #![trigger reachable@.contains(a), callees_of(g, a)[j]]
                    reachable@.contains(a) && 0 <= j < callees_of(g, a).len() implies reachable@.contains(
                    callees_of(g, a)[j]) || worklist@.contains(callees_of(g, a)[j]) by {
                    if before.contains(a) {
                        if !before.contains(callees_of(g, a)[j]) {
                            assert(w0.contains(callees_of(g, a)[j]));
                        }
                    } else {
                        assert(a == addr);
                    }
                }
                assert forall|s: Set<u32>|
                    #[trigger] reach_closed(entry_points@, g, s) implies reachable@.subset_of(s)
                        && forall|t: int| 0 <= t < worklist@.len() ==> s.contains(worklist@[t]) by {
                    assert(s.contains(w0[w0.len() - 1]));
                    assert forall|t: int| 0 <= t < worklist@.len() implies s.contains(worklist@[t]) by {
                        if t < w.len() {
                            assert(worklist@.subrange(0, w.len() as int)[t] == w[t]);
                            assert(w0[t] == w[t]);
                        } else {
                            let c = choose|c: int|
                                0 <= c < callees_of(g, addr).len() && callees_of(g, addr)[c] == worklist@[t];
                            assert(s.contains(addr) && 0 <= c < callees_of(g, addr).len());
                        }
                    }
                }
            }
        }
        proof {
            assert forall|a: u32, j: int|
                #![trigger reachable@.contains(a), callees_of(g, a)[j]]
                reachable@.contains(a) && 0 <= j < callees_of(g, a).len() implies reachable@.contains(
                callees_of(g, a)[j]) by {
                assert(!worklist@.contains(callees_of(g, a)[j]));
            }
            assert forall|t: int| 0 <= t < entry_points@.len() implies reachable@.contains(
                #[trigger] entry_points@[t],
            ) by {
                assert(!worklist@.contains(entry_points@[t]));
            }
        }
        reachable
    }
}

/// Dropping dead code depends on the instructions only through their views.
proof fn lemma_kept_prefix_views(a: Seq<DecodedInstruction>, b: Seq<DecodedInstruction>)
    requires
        views(a) == views(b),
    ensures
        kept_prefix(views(a), a.len() as int) == kept_prefix(views(b), b.len() as int),
{
    assert(a.len() == views(a).len());
    assert(b.len() == views(b).len());
}

impl Default for Optimizer {
    fn default() -> (o: Optimizer)
        ensures
            o.level == OptimizationLevel::Basic,
            o.constant_folding && o.dead_code_elimination,
            !o.loop_optimizations && !o.function_inlining,
    {
        Optimizer::new(OptimizationLevel::Basic)
    }
}

} // verus!
