//! Data-flow analysis over general-purpose registers: def-use chains of an
//! instruction sequence, and live registers at the entry and exit of each
//! block of a control-flow graph.
use vstd::prelude::*;
use smallvec::SmallVec;
use std::collections::HashMap;
use crate::analysis::{
    dead_code_free,
    eliminate_dead_code,
    get_definition_register,
    get_use_registers,
    spec_def_register,
    spec_use_registers,
    use_registers_prefix,
};
use crate::control_flow::{BasicBlock, BlockSet, BlockView, ControlFlowGraph};
use crate::decoder::{DecodedInstruction, InstructionType, InstructionView, Operand, views};

verus! {

broadcast use vstd::std_specs::hash::group_hash_axioms;

/// Number of general-purpose registers tracked.
pub const REGISTER_COUNT: usize = 32;

/// The register an instruction writes.
pub open spec fn def_of(v: InstructionView) -> Option<u8> {
    spec_def_register(v.instruction_type, v.operands)
}

/// The registers an instruction reads.
pub open spec fn uses_of(v: InstructionView) -> Seq<u8> {
    spec_use_registers(v.instruction_type, v.operands)
}

/// Whether some instruction of `insts` writes register `k`.
pub open spec fn killed_in(insts: Seq<InstructionView>, k: int) -> bool {
    exists|i: int| 0 <= i < insts.len() && #[trigger] writes(insts[i], k)
}

/// Whether an instruction writes register `k`.
pub open spec fn writes(v: InstructionView, k: int) -> bool {
    def_of(v) matches Some(r) && r as int == k
}

/// Whether some instruction of `insts` reads register `k`.
pub open spec fn used_in(insts: Seq<InstructionView>, k: int) -> bool {
    exists|i: int, j: int|
        0 <= i < insts.len() && 0 <= j < uses_of(insts[i]).len() && #[trigger] uses_of(insts[i])[j]
            as int == k
}

/// Registers live at the entry of a block whose exit has `exit` live: those
/// live at the exit that no instruction of the block writes, and all those
/// the block reads.
pub open spec fn transfer(exit: Seq<bool>, insts: Seq<InstructionView>) -> Seq<bool> {
    Seq::new(32, |k: int| (exit[k] && !killed_in(insts, k)) || used_in(insts, k))
}

/// Registers live at the exit of a block: those live at the entry of one
/// of its successors that has a set.
pub open spec fn exit_of(m: Map<u32, Seq<bool>>, succs: Seq<u32>) -> Seq<bool> {
    Seq::new(
        32,
        |k: int| exists|j: int| 0 <= j < succs.len() && m.contains_key(succs[j]) && m[succs[j]][k],
    )
}

/// Registers live at the entry of block `b` given the entry sets `m`.
pub open spec fn entry_of(m: Map<u32, Seq<bool>>, b: BlockView) -> Seq<bool> {
    transfer(exit_of(m, b.successors), b.instructions)
}

/// The bits of each set of a map.
pub open spec fn bits_map(m: Map<u32, BlockSet>) -> Map<u32, Seq<bool>> {
    m.map_values(|b: BlockSet| b@)
}

/// `a` holds no register that `b` lacks.
pub open spec fn subset(a: Seq<bool>, b: Seq<bool>) -> bool {
    forall|k: int| 0 <= k < 32 ==> (a[k] ==> b[k])
}

/// Same keys, and each set of `m1` within that of `m2`.
pub open spec fn map_le(m1: Map<u32, Seq<bool>>, m2: Map<u32, Seq<bool>>) -> bool {
    &&& m1.dom() == m2.dom()
    &&& forall|id: u32| m1.contains_key(id) ==> subset(#[trigger] m1[id], m2[id])
}

/// The identifiers of the blocks.
pub open spec fn block_ids(nodes: Seq<BlockView>) -> Set<u32> {
    Set::new(|id: u32| exists|q: int| 0 <= q < nodes.len() && nodes[q].id == id)
}

/// A set for each block and nothing else, each of 32 registers.
pub open spec fn well_shaped(m: Map<u32, Seq<bool>>, nodes: Seq<BlockView>) -> bool {
    &&& m.dom() == block_ids(nodes)
    &&& forall|id: u32| m.contains_key(id) ==> (#[trigger] m[id]).len() == 32
}

/// Each block's set is what its successors' sets give.
pub open spec fn is_fixpoint(m: Map<u32, Seq<bool>>, nodes: Seq<BlockView>) -> bool {
    forall|q: int| 0 <= q < nodes.len() ==> m[nodes[q].id] == entry_of(m, #[trigger] nodes[q])
}

/// No two blocks share an identifier.
pub open spec fn distinct_ids(nodes: Seq<BlockView>) -> bool {
    forall|p: int, q: int| 0 <= p < nodes.len() && 0 <= q < nodes.len() && p != q ==> nodes[p].id
        != nodes[q].id
}

/// Every register the instructions write or read is one of the 32 tracked.
pub open spec fn registers_in_range(insts: Seq<InstructionView>) -> bool {
    forall|i: int|
        0 <= i < insts.len() ==> (def_of(#[trigger] insts[i]) matches Some(r) ==> r < 32) && forall|
            j: int,
        | 0 <= j < uses_of(insts[i]).len() ==> uses_of(insts[i])[j] < 32
}

/// Number of set bits.
pub open spec fn ones(s: Seq<bool>) -> nat
    decreases s.len(),
{
    if s.len() == 0 {
        0
    } else {
        ones(s.drop_last()) + if s.last() {
            1nat
        } else {
            0nat
        }
    }
}

/// Set bits over the first `n` blocks.
pub open spec fn total(m: Map<u32, Seq<bool>>, nodes: Seq<BlockView>, n: int) -> nat
    decreases n,
{
    if n <= 0 {
        0
    } else {
        total(m, nodes, n - 1) + ones(m[nodes[n - 1].id])
    }
}

/// Whether every register operand of `ops` is one of the 32 tracked.
pub open spec fn operand_registers_in_range(ops: Seq<Operand>) -> bool {
    forall|j: int| 0 <= j < ops.len() && (#[trigger] ops[j]) is Register ==> ops[j]->Register_0 < 32
}

/// The registers read by the first `n` operands are register operands.
proof fn lemma_use_prefix_in_range(ops: Seq<Operand>, def: Option<u8>, n: int)
    requires
        operand_registers_in_range(ops),
    ensures
        forall|k: int|
            0 <= k < use_registers_prefix(ops, def, n).len() ==> #[trigger] use_registers_prefix(ops, def, n)[k]
                < 32,
    decreases n,
{
    if n > 0 && n <= ops.len() {
        lemma_use_prefix_in_range(ops, def, n - 1);
        let prev = use_registers_prefix(ops, def, n - 1);
        let cur = use_registers_prefix(ops, def, n);
        assert(ops[n - 1] is Register ==> ops[n - 1]->Register_0 < 32);
        assert forall|k: int| 0 <= k < cur.len() implies #[trigger] cur[k] < 32 by {
            if k < prev.len() {
                assert(prev[k] < 32);
            }
        }
    }
}

/// An instruction whose register operands are all among the 32 tracked
/// writes and reads only tracked registers.
pub proof fn lemma_instruction_in_range(v: InstructionView)
    requires
        operand_registers_in_range(v.operands),
    ensures
        registers_in_range(seq![v]),
{
    lemma_use_prefix_in_range(
        v.operands,
        spec_def_register(v.instruction_type, v.operands),
        v.operands.len() as int,
    );
    if v.operands.len() > 0 {
        assert(v.operands[0] is Register ==> v.operands[0]->Register_0 < 32);
    }
    assert(seq![v][0] == v);
}

proof fn lemma_ones_bound(s: Seq<bool>)
    ensures
        ones(s) <= s.len(),
    decreases s.len(),
{
    if s.len() > 0 {
        lemma_ones_bound(s.drop_last());
    }
}

proof fn lemma_ones_grow(a: Seq<bool>, b: Seq<bool>)
    requires
        a.len() == b.len(),
        forall|k: int| 0 <= k < a.len() ==> (a[k] ==> b[k]),
    ensures
        ones(a) <= ones(b),
        a != b ==> ones(a) < ones(b),
    decreases a.len(),
{
    if a.len() == 0 {
        assert(a =~= b);
    } else {
        lemma_ones_grow(a.drop_last(), b.drop_last());
        assert(a[a.len() - 1] ==> b[b.len() - 1]);
        if a != b && a.drop_last() == b.drop_last() {
            assert(a.last() != b.last()) by {
                if a.last() == b.last() {
                    assert(a =~= b.drop_last().push(b.last()));
                    assert(b =~= b.drop_last().push(b.last()));
                }
            }
        }
    }
}

proof fn lemma_total_bound(m: Map<u32, Seq<bool>>, nodes: Seq<BlockView>, n: int)
    requires
        0 <= n <= nodes.len(),
        well_shaped(m, nodes),
    ensures
        total(m, nodes, n) <= 32 * n,
    decreases n,
{
    if n > 0 {
        lemma_total_bound(m, nodes, n - 1);
        assert(block_ids(nodes).contains(nodes[n - 1].id));
        lemma_ones_bound(m[nodes[n - 1].id]);
    }
}

/// Changing the set of one block changes the total by the change in its
/// bits.
proof fn lemma_total_update(
    m: Map<u32, Seq<bool>>,
    nodes: Seq<BlockView>,
    n: int,
    p: int,
    e: Seq<bool>,
)
    requires
        0 <= p < n <= nodes.len(),
        distinct_ids(nodes),
    ensures
        total(m.insert(nodes[p].id, e), nodes, n) + ones(m[nodes[p].id]) == total(m, nodes, n)
            + ones(e),
    decreases n,
{
    let m2 = m.insert(nodes[p].id, e);
    if n - 1 == p {
        lemma_total_same(m, m2, nodes, n - 1, nodes[p].id);
    } else {
        lemma_total_update(m, nodes, n - 1, p, e);
        assert(nodes[n - 1].id != nodes[p].id);
    }
}

/// Blocks before `n` other than the one with identifier `id` keep their
/// totals.
proof fn lemma_total_same(
    m: Map<u32, Seq<bool>>,
    m2: Map<u32, Seq<bool>>,
    nodes: Seq<BlockView>,
    n: int,
    id: u32,
)
    requires
        0 <= n <= nodes.len(),
        forall|q: int| 0 <= q < n ==> nodes[q].id != id,
        forall|k: u32| k != id ==> m2[k] == m[k],
    ensures
        total(m2, nodes, n) == total(m, nodes, n),
    decreases n,
{
    if n > 0 {
        lemma_total_same(m, m2, nodes, n - 1, id);
    }
}

/// Growing the total of a map that only grows.
proof fn lemma_total_grow(m1: Map<u32, Seq<bool>>, m2: Map<u32, Seq<bool>>, nodes: Seq<BlockView>, n: int)
    requires
        0 <= n <= nodes.len(),
        well_shaped(m1, nodes),
        well_shaped(m2, nodes),
        map_le(m1, m2),
    ensures
        total(m1, nodes, n) <= total(m2, nodes, n),
    decreases n,
{
    if n > 0 {
        lemma_total_grow(m1, m2, nodes, n - 1);
        let id = nodes[n - 1].id;
        assert(block_ids(nodes).contains(id));
        assert(subset(m1[id], m2[id]));
        lemma_ones_grow(m1[id], m2[id]);
    }
}

/// Entry sets computed from larger maps are larger.
proof fn lemma_entry_mono(m1: Map<u32, Seq<bool>>, m2: Map<u32, Seq<bool>>, b: BlockView)
    requires
        map_le(m1, m2),
    ensures
        subset(exit_of(m1, b.successors), exit_of(m2, b.successors)),
        subset(entry_of(m1, b), entry_of(m2, b)),
{
    assert forall|k: int| 0 <= k < 32 && exit_of(m1, b.successors)[k] implies exit_of(
        m2,
        b.successors,
    )[k] by {
        let j = choose|j: int|
            0 <= j < b.successors.len() && m1.contains_key(b.successors[j])
                && m1[b.successors[j]][k];
        assert(subset(m1[b.successors[j]], m2[b.successors[j]]));
    }
}

/// All sets of a map hold 32 registers.
pub open spec fn all_sized(m: Map<u32, Seq<bool>>) -> bool {
    forall|id: u32| m.contains_key(id) ==> (#[trigger] m[id]).len() == 32
}

/// Registers live at a block's exit: the union of the entry sets of its
/// successors that have one.
fn exit_live_of(live_at_entry: &HashMap<u32, BlockSet>, block: &BasicBlock) -> (x: BlockSet)
    requires
        all_sized(bits_map(live_at_entry@)),
    ensures
        x@ == exit_of(bits_map(live_at_entry@), block@.successors),
{
    let ghost m = bits_map(live_at_entry@);
    let ghost succs = block@.successors;
    let mut x = BlockSet::cleared(REGISTER_COUNT);
    let n = block.successors.len();
    let mut j: usize = 0;
    while j < n
        invariant
            n == succs.len(),
            succs == block@.successors,
            m == bits_map(live_at_entry@),
            all_sized(m),
            j <= n,
            x@ == Seq::new(
                32,
                |k: int| exists|t: int| 0 <= t < j && m.contains_key(succs[t]) && m[succs[t]][k],
            ),
        decreases n - j,
    {
        let succ = block.successors.get(j);
        match live_at_entry.get(&succ) {
            Some(e) => {
                assert(m.contains_key(succ) && m[succ] == e@);
                let ghost before = x@;
                x.or_with(e);
                assert forall|k: int| 0 <= k < 32 implies x@[k] == (exists|t: int|
                    0 <= t < j + 1 && m.contains_key(succs[t]) && m[succs[t]][k]) by {
                    if e@[k] {
                        assert(0 <= j < j + 1 && m.contains_key(succs[j as int]) && m[succs[j as int]][k]);
                    }
                    if exists|t: int| 0 <= t < j + 1 && m.contains_key(succs[t]) && m[succs[t]][k] {
                        let t = choose|t: int|
                            0 <= t < j + 1 && m.contains_key(succs[t]) && m[succs[t]][k];
                        if t < j {
                            assert(before[k]);
                        }
                    }
                }
                assert(x@ =~= Seq::new(
                    32,
                    |k: int| exists|t: int| 0 <= t < j + 1 && m.contains_key(succs[t]) && m[succs[t]][k],
                ));
            },
            None => {
                assert(!m.contains_key(succ));
                assert forall|k: int| 0 <= k < 32 implies x@[k] == (exists|t: int|
                    0 <= t < j + 1 && m.contains_key(succs[t]) && m[succs[t]][k]) by {
                    if exists|t: int| 0 <= t < j + 1 && m.contains_key(succs[t]) && m[succs[t]][k] {
                        let t = choose|t: int|
                            0 <= t < j + 1 && m.contains_key(succs[t]) && m[succs[t]][k];
                        assert(t != j);
                    }
                }
                assert(x@ =~= Seq::new(
                    32,
                    |k: int| exists|t: int| 0 <= t < j + 1 && m.contains_key(succs[t]) && m[succs[t]][k],
                ));
            },
        }
        j = j + 1;
    }
    assert(x@ =~= exit_of(m, succs));
    x
}

/// Registers live at a block's entry given those live at its exit: the
/// registers its instructions write are cleared, then those they read are
/// set.
fn entry_live_of(exit_live: &BlockSet, block: &BasicBlock) -> (e: BlockSet)
    requires
        exit_live@.len() == 32,
        registers_in_range(block@.instructions),
    ensures
        e@ == transfer(exit_live@, block@.instructions),
{
    let ghost insts = block@.instructions;
    let ghost x = exit_live@;
    let mut e = exit_live.duplicate();
    let n = block.instructions.len();
    let mut i: usize = 0;
    while i < n
        invariant
            n == insts.len(),
            insts == block@.instructions,
            registers_in_range(insts),
            x.len() == 32,
            i <= n,
            e@ == Seq::new(32, |k: int| x[k] && !killed_in(insts.take(i as int), k)),
        decreases n - i,
    {
        let inst = &block.instructions[i];
        assert(inst@ == insts[i as int]);
        let ghost before = e@;
        let d = get_definition_register(inst);
        assert(d == def_of(insts[i as int]));
        match d {
            Some(r) => {
                assert(r < 32);
                e.set(r as usize, false);
            },
            None => {},
        }
        assert forall|k: int| 0 <= k < 32 implies e@[k] == (x[k] && !killed_in(
            insts.take(i + 1),
            k,
        )) by {
            assert(insts.take(i + 1)[i as int] == insts[i as int]);
            if writes(insts[i as int], k) {
                assert(0 <= i < i + 1 && writes(insts.take(i + 1)[i as int], k));
            }
            if killed_in(insts.take(i as int), k) {
                let w = choose|w: int| 0 <= w < i && #[trigger] writes(insts.take(i as int)[w], k);
                assert(insts.take(i + 1)[w] == insts.take(i as int)[w]);
            }
            if killed_in(insts.take(i + 1), k) {
                let w = choose|w: int| 0 <= w < i + 1 && #[trigger] writes(insts.take(i + 1)[w], k);
                if w < i {
                    assert(insts.take(i + 1)[w] == insts.take(i as int)[w]);
                }
            }
        }
        assert(e@ =~= Seq::new(32, |k: int| x[k] && !killed_in(insts.take(i + 1), k)));
        i = i + 1;
    }
    assert(insts.take(n as int) =~= insts);
    let ghost after_kills = e@;
    let mut i: usize = 0;
    while i < n
        invariant
            n == insts.len(),
            insts == block@.instructions,
            registers_in_range(insts),
            x.len() == 32,
            i <= n,
            e@ == Seq::new(
                32,
                |k: int| (x[k] && !killed_in(insts, k)) || used_in(insts.take(i as int), k),
            ),
        decreases n - i,
    {
        let inst = &block.instructions[i];
        assert(inst@ == insts[i as int]);
        let uses = get_use_registers(inst);
        let ghost u = uses@;
        assert(u == uses_of(insts[i as int]));
        let mut j: usize = 0;
        while j < uses.len()
            invariant
                u == uses@,
                u == uses_of(insts[i as int]),
                i < n,
                n == insts.len(),
                registers_in_range(insts),
                j <= u.len(),
                e@ == Seq::new(
                    32,
                    |k: int| (x[k] && !killed_in(insts, k)) || used_in(insts.take(i as int), k) || (
                    exists|t: int| 0 <= t < j && u[t] as int == k),
                ),
            decreases u.len() - j,
        {
            let r = uses[j];
            assert(r < 32);
            let ghost before = e@;
            e.set(r as usize, true);
            assert forall|k: int| 0 <= k < 32 implies e@[k] == ((x[k] && !killed_in(insts, k))
                || used_in(insts.take(i as int), k) || (exists|t: int|
                0 <= t < j + 1 && u[t] as int == k)) by {
                if k == r as int {
                    assert(0 <= j < j + 1 && u[j as int] as int == k);
                } else {
                    if exists|t: int| 0 <= t < j + 1 && u[t] as int == k {
                        let t = choose|t: int| 0 <= t < j + 1 && u[t] as int == k;
                        assert(t != j);
                    }
                }
            }
            assert(e@ =~= Seq::new(
                32,
                |k: int| (x[k] && !killed_in(insts, k)) || used_in(insts.take(i as int), k) || (
                exists|t: int| 0 <= t < j + 1 && u[t] as int == k),
            ));
            j = j + 1;
        }
        assert forall|k: int| 0 <= k < 32 implies used_in(insts.take(i + 1), k) == (used_in(
            insts.take(i as int),
            k,
        ) || (exists|t: int| 0 <= t < u.len() && u[t] as int == k)) by {
            let t1 = insts.take(i + 1);
            let t0 = insts.take(i as int);
            assert(t1[i as int] == insts[i as int]);
            if used_in(t0, k) {
                let (a, b) = choose|a: int, b: int|
                    0 <= a < t0.len() && 0 <= b < uses_of(t0[a]).len() && #[trigger] uses_of(
                        t0[a],
                    )[b] as int == k;
                assert(t1[a] == t0[a]);
                assert(0 <= a < t1.len() && 0 <= b < uses_of(t1[a]).len() && uses_of(t1[a])[b] as int
                    == k);
            }
            if exists|t: int| 0 <= t < u.len() && u[t] as int == k {
                let t = choose|t: int| 0 <= t < u.len() && u[t] as int == k;
                assert(0 <= i < t1.len() && 0 <= t < uses_of(t1[i as int]).len() && uses_of(
                    t1[i as int],
                )[t] as int == k);
            }
            if used_in(t1, k) {
                let (a, b) = choose|a: int, b: int|
                    0 <= a < t1.len() && 0 <= b < uses_of(t1[a]).len() && #[trigger] uses_of(
                        t1[a],
                    )[b] as int == k;
                if a < i {
                    assert(t1[a] == t0[a]);
                    assert(0 <= a < t0.len() && 0 <= b < uses_of(t0[a]).len() && uses_of(t0[a])[b]
                        as int == k);
                } else {
                    assert(u[b] as int == k);
                }
            }
        }
        assert forall|k: int| 0 <= k < 32 implies e@[k] == ((x[k] && !killed_in(insts, k))
            || used_in(insts.take(i + 1), k)) by {
            assert(j == u.len());
            assert(e@[k] == ((x[k] && !killed_in(insts, k)) || used_in(insts.take(i as int), k) || (
            exists|t: int| 0 <= t < j && u[t] as int == k)));
            assert(used_in(insts.take(i + 1), k) == (used_in(insts.take(i as int), k) || (exists|
                t: int,
            | 0 <= t < u.len() && u[t] as int == k)));
        }
        assert(e@ =~= Seq::new(
            32,
            |k: int| (x[k] && !killed_in(insts, k)) || used_in(insts.take(i + 1), k),
        ));
        i = i + 1;
    }
    assert(insts.take(n as int) =~= insts);
    assert(e@ =~= transfer(x, insts));
    e
}

/// Storing a set in a map stores its bits.
proof fn lemma_bits_insert(m: Map<u32, BlockSet>, k: u32, v: BlockSet)
    ensures
        bits_map(m.insert(k, v)) == bits_map(m).insert(k, v@),
{
    assert(bits_map(m.insert(k, v)) =~= bits_map(m).insert(k, v@));
}

/// No register.
pub open spec fn no_registers() -> Seq<bool> {
    Seq::new(32, |k: int| false)
}

/// Every register of each block's entry set is one its successors' sets
/// give it.
pub open spec fn ascending(e: Map<u32, Seq<bool>>, nodes: Seq<BlockView>) -> bool {
    forall|q: int| 0 <= q < nodes.len() ==> subset(e[nodes[q].id], entry_of(e, #[trigger] nodes[q]))
}

/// `e` lies below every fixpoint.
pub open spec fn below_fixpoints(e: Map<u32, Seq<bool>>, nodes: Seq<BlockView>) -> bool {
    forall|m: Map<u32, Seq<bool>>|
        well_shaped(m, nodes) && #[trigger] is_fixpoint(m, nodes) ==> map_le(e, m)
}

/// A block's entry set is what its instructions make of its exit set.
pub open spec fn consistent(
    e: Map<u32, Seq<bool>>,
    x: Map<u32, Seq<bool>>,
    b: BlockView,
) -> bool {
    e[b.id] == transfer(x[b.id], b.instructions)
}

/// Each block's exit set lies within what its successors' entry sets give.
pub open spec fn exits_below(e: Map<u32, Seq<bool>>, x: Map<u32, Seq<bool>>, nodes: Seq<BlockView>) -> bool {
    forall|q: int|
        0 <= q < nodes.len() ==> subset(x[nodes[q].id], exit_of(e, (#[trigger] nodes[q]).successors))
}

/// The registers each block's instructions write and read are among the
/// 32 tracked.
pub open spec fn graph_registers_in_range(nodes: Seq<BlockView>) -> bool {
    forall|q: int| 0 <= q < nodes.len() ==> registers_in_range((#[trigger] nodes[q]).instructions)
}

proof fn lemma_map_le_trans(a: Map<u32, Seq<bool>>, b: Map<u32, Seq<bool>>, c: Map<u32, Seq<bool>>)
    requires
        map_le(a, b),
        map_le(b, c),
    ensures
        map_le(a, c),
{
    assert forall|id: u32| a.contains_key(id) implies subset(#[trigger] a[id], c[id]) by {
        assert(subset(a[id], b[id]));
        assert(subset(b[id], c[id]));
    }
}

/// Registers live at the entry and the exit of each block, by block
/// identifier.
pub struct LiveVariableAnalysis {
    pub live_at_entry: HashMap<u32, BlockSet>,
    pub live_at_exit: HashMap<u32, BlockSet>,
}

/// Def-use chains and liveness of registers.
pub struct DataFlowAnalyzer;

impl DataFlowAnalyzer {
    /// Live registers of each block, found by iterating until no entry set
    /// changes: a block's exit set is the union of its successors' entry
    /// sets, and its entry set is the exit set without the registers the
    /// block writes, with those it reads. The entry sets are the least such
    /// solution; each exit set is the one computed when its block's entry
    /// set last changed.
    pub fn live_variable_analysis(cfg: &ControlFlowGraph) -> (r: LiveVariableAnalysis)
        requires
            distinct_ids(cfg@.nodes),
            graph_registers_in_range(cfg@.nodes),
        ensures
            ({
                let e = bits_map(r.live_at_entry@);
                let x = bits_map(r.live_at_exit@);
                let nodes = cfg@.nodes;
                &&& well_shaped(e, nodes)
                &&& well_shaped(x, nodes)
                &&& is_fixpoint(e, nodes)
                &&& below_fixpoints(e, nodes)
                &&& forall|q: int| 0 <= q < nodes.len() ==> consistent(e, x, #[trigger] nodes[q])
                &&& exits_below(e, x, nodes)
            }),
    {
        let ghost nodes = cfg@.nodes;
        let n = cfg.nodes.len();
        let mut live_at_entry: HashMap<u32, BlockSet> = HashMap::new();
        let mut live_at_exit: HashMap<u32, BlockSet> = HashMap::new();
        let mut i: usize = 0;
        while i < n
            invariant
                n == nodes.len(),
                nodes == cfg@.nodes,
                i <= n,
                bits_map(live_at_entry@).dom() == Set::new(
                    |id: u32| exists|q: int| 0 <= q < i && nodes[q].id == id,
                ),
                bits_map(live_at_exit@).dom() == bits_map(live_at_entry@).dom(),
                forall|id: u32| #[trigger]
                    bits_map(live_at_entry@).contains_key(id) ==> bits_map(live_at_entry@)[id]
                        == no_registers() && bits_map(live_at_exit@)[id] == no_registers(),
            decreases n - i,
        {
            let block = &cfg.nodes[i];
            assert(block@ == nodes[i as int]);
            let a = BlockSet::cleared(REGISTER_COUNT);
            let b = BlockSet::cleared(REGISTER_COUNT);
            let ghost e0 = live_at_entry@;
            let ghost x0 = live_at_exit@;
            proof {
                lemma_bits_insert(e0, block.id, a);
                lemma_bits_insert(x0, block.id, b);
                assert(a@ =~= no_registers());
                assert(b@ =~= no_registers());
            }
            live_at_entry.insert(block.id, a);
            live_at_exit.insert(block.id, b);
            assert(bits_map(live_at_entry@).dom() =~= Set::new(
                |id: u32| exists|q: int| 0 <= q < i + 1 && nodes[q].id == id,
            )) by {
                assert forall|id: u32|
                    bits_map(live_at_entry@).dom().contains(id) == (exists|q: int|
                        0 <= q < i + 1 && nodes[q].id == id) by {
                    if id == block.id {
                        assert(0 <= i < i + 1 && nodes[i as int].id == id);
                    }
                    if exists|q: int| 0 <= q < i + 1 && nodes[q].id == id {
                        let q = choose|q: int| 0 <= q < i + 1 && nodes[q].id == id;
                        if q < i {
                            assert(exists|q2: int| 0 <= q2 < i && nodes[q2].id == id);
                        }
                    }
                }
            }
            assert(bits_map(live_at_exit@).dom() =~= bits_map(live_at_entry@).dom());
            i = i + 1;
        }
        proof {
            let e = bits_map(live_at_entry@);
            let x = bits_map(live_at_exit@);
            assert(e.dom() =~= block_ids(nodes));
            assert(x.dom() =~= block_ids(nodes));
            assert forall|q: int| 0 <= q < nodes.len() implies e[#[trigger] nodes[q].id]
                == no_registers() && x[nodes[q].id] == no_registers() by {
                assert(e.contains_key(nodes[q].id));
            }
            assert forall|id: u32| e.contains_key(id) implies (#[trigger] e[id]).len() == 32 && x[id].len()
                == 32 by {
                assert(e[id] == no_registers());
            }
            assert forall|id: u32| x.contains_key(id) implies (#[trigger] x[id]).len() == 32 by {
                assert(e.contains_key(id));
                assert(x[id] == no_registers());
            }
            assert forall|m: Map<u32, Seq<bool>>|
                well_shaped(m, nodes) && #[trigger] is_fixpoint(m, nodes) implies map_le(e, m) by {
                assert forall|id: u32| e.contains_key(id) implies subset(#[trigger] e[id], m[id]) by {
                    assert(e[id] == no_registers());
                }
            }
        }
        let mut changed = true;
        let ghost mut first = true;
        while changed
            invariant
                n == nodes.len(),
                nodes == cfg@.nodes,
                distinct_ids(nodes),
                graph_registers_in_range(nodes),
                well_shaped(bits_map(live_at_entry@), nodes),
                well_shaped(bits_map(live_at_exit@), nodes),
                ascending(bits_map(live_at_entry@), nodes),
                below_fixpoints(bits_map(live_at_entry@), nodes),
                exits_below(bits_map(live_at_entry@), bits_map(live_at_exit@), nodes),
                forall|q: int|
                    0 <= q < nodes.len() ==> consistent(
                        bits_map(live_at_entry@),
                        bits_map(live_at_exit@),
                        #[trigger] nodes[q],
                    ) || (first && bits_map(live_at_entry@)[nodes[q].id] == no_registers()
                        && bits_map(live_at_exit@)[nodes[q].id] == no_registers()),
                !changed ==> !first && is_fixpoint(bits_map(live_at_entry@), nodes),
            decreases 32 * n - total(bits_map(live_at_entry@), nodes, n as int) + if changed {
                1int
            } else {
                0int
            },
        {
            proof {
                lemma_total_bound(bits_map(live_at_entry@), nodes, n as int);
            }
            changed = false;
            let ghost start = bits_map(live_at_entry@);
            let mut p: usize = 0;
            while p < n
                invariant
                    n == nodes.len(),
                    nodes == cfg@.nodes,
                    p <= n,
                    distinct_ids(nodes),
                    graph_registers_in_range(nodes),
                    well_shaped(start, nodes),
                    well_shaped(bits_map(live_at_entry@), nodes),
                    well_shaped(bits_map(live_at_exit@), nodes),
                    ascending(bits_map(live_at_entry@), nodes),
                    below_fixpoints(bits_map(live_at_entry@), nodes),
                    exits_below(bits_map(live_at_entry@), bits_map(live_at_exit@), nodes),
                    map_le(start, bits_map(live_at_entry@)),
                    forall|q: int|
                        0 <= q < nodes.len() ==> consistent(
                            bits_map(live_at_entry@),
                            bits_map(live_at_exit@),
                            #[trigger] nodes[q],
                        ) || (first && q >= p && bits_map(live_at_entry@)[nodes[q].id]
                            == no_registers() && bits_map(live_at_exit@)[nodes[q].id]
                            == no_registers()),
                    !changed ==> bits_map(live_at_entry@) == start && forall|q: int|
                        0 <= q < p ==> bits_map(live_at_entry@)[nodes[q].id] == entry_of(
                            bits_map(live_at_entry@),
                            #[trigger] nodes[q],
                        ),
                    changed ==> total(start, nodes, n as int) < total(
                        bits_map(live_at_entry@),
                        nodes,
                        n as int,
                    ),
                decreases n - p,
            {
                let ghost e0 = bits_map(live_at_entry@);
                let ghost x0 = bits_map(live_at_exit@);
                let block = &cfg.nodes[p];
                let ghost bv = nodes[p as int];
                assert(block@ == bv);
                assert(block_ids(nodes).contains(bv.id));
                assert(registers_in_range(bv.instructions));
                let exit_live = exit_live_of(&live_at_entry, block);
                let entry_live = entry_live_of(&exit_live, block);
                let old_entry = match live_at_entry.get(&block.id) {
                    Some(e) => e.duplicate(),
                    None => BlockSet::cleared(REGISTER_COUNT),
                };
                assert(old_entry@ == e0[bv.id]);
                if !old_entry.same_bits(&entry_live) {
                    changed = true;
                    proof {
                        lemma_bits_insert(live_at_entry@, block.id, entry_live);
                        lemma_bits_insert(live_at_exit@, block.id, exit_live);
                    }
                    live_at_entry.insert(block.id, entry_live);
                    live_at_exit.insert(block.id, exit_live);
                    let ghost e1 = bits_map(live_at_entry@);
                    let ghost x1 = bits_map(live_at_exit@);
                    proof {
                        let id = bv.id;
                        let fresh = entry_of(e0, bv);
                        assert(e1 =~= e0.insert(id, fresh));
                        assert(x1 =~= x0.insert(id, exit_of(e0, bv.successors)));
                        assert(e1.dom() =~= e0.dom());
                        assert(x1.dom() =~= x0.dom());
                        assert(subset(e0[id], fresh));
                        assert(map_le(e0, e1)) by {
                            assert forall|k: u32| e0.contains_key(k) implies subset(
                                #[trigger] e0[k],
                                e1[k],
                            ) by {
                                if k == id {
                                } else {
                                }
                            }
                        }
                        assert forall|q: int| 0 <= q < nodes.len() implies subset(
                            e1[nodes[q].id],
                            entry_of(e1, #[trigger] nodes[q]),
                        ) by {
                            lemma_entry_mono(e0, e1, nodes[q]);
                            if q != p {
                                assert(nodes[q].id != id);
                                assert(subset(e0[nodes[q].id], entry_of(e0, nodes[q])));
                            }
                        }
                        assert forall|m: Map<u32, Seq<bool>>|
                            well_shaped(m, nodes) && #[trigger] is_fixpoint(m, nodes) implies map_le(
                            e1,
                            m,
                        ) by {
                            assert(map_le(e0, m));
                            lemma_entry_mono(e0, m, bv);
                            assert(m[id] == entry_of(m, nodes[p as int]));
                            assert forall|k: u32| e1.contains_key(k) implies subset(
                                #[trigger] e1[k],
                                m[k],
                            ) by {
                                if k != id {
                                    assert(subset(e0[k], m[k]));
                                }
                            }
                        }
                        assert forall|q: int| 0 <= q < nodes.len() implies subset(
                            x1[nodes[q].id],
                            exit_of(e1, (#[trigger] nodes[q]).successors),
                        ) by {
                            lemma_entry_mono(e0, e1, nodes[q]);
                            if q != p {
                                assert(nodes[q].id != id);
                                assert(subset(x0[nodes[q].id], exit_of(e0, nodes[q].successors)));
                            }
                        }
                        assert forall|q: int| 0 <= q < nodes.len() implies consistent(
                            e1,
                            x1,
                            #[trigger] nodes[q],
                        ) || (first && q >= p + 1 && e1[nodes[q].id] == no_registers()
                            && x1[nodes[q].id] == no_registers()) by {
                            if q != p {
                                assert(nodes[q].id != id);
                                assert(consistent(e0, x0, nodes[q]) || (first && q >= p
                                    && e0[nodes[q].id] == no_registers() && x0[nodes[q].id]
                                    == no_registers()));
                            }
                        }
                        lemma_ones_grow(e0[id], fresh);
                        lemma_total_update(e0, nodes, n as int, p as int, fresh);
                        lemma_total_grow(start, e0, nodes, n as int);
                        lemma_map_le_trans(start, e0, e1);
                    }
                } else {
                    proof {
                        let id = bv.id;
                        assert(e0[id] == entry_of(e0, bv));
                        if !consistent(e0, x0, bv) {
                            assert(e0[id] == no_registers() && x0[id] == no_registers());
                            assert forall|k: int| 0 <= k < 32 implies !used_in(bv.instructions, k) by {
                                assert(!entry_of(e0, bv)[k]);
                            }
                            assert(transfer(x0[id], bv.instructions) =~= no_registers());
                        }
                    }
                }
                p = p + 1;
            }
            proof {
                first = false;
                lemma_total_bound(bits_map(live_at_entry@), nodes, n as int);
            }
        }
        LiveVariableAnalysis { live_at_entry, live_at_exit }
    }
}

/// Where a register is written: the instruction's index and its offset in
/// the sequence (four bytes per instruction).
#[derive(Debug, Clone, Copy, PartialEq, Eq, Structural, Hash)]
pub struct Definition {
    pub instruction_index: usize,
    pub address: u32,
}

/// Where a register is read.
#[derive(Debug, Clone, Copy, PartialEq, Eq, Structural, Hash)]
pub struct Use {
    pub instruction_index: usize,
    pub address: u32,
}

/// The definitions of a register, kept in a small inline vector.
#[verifier::external_body]
pub struct Definitions {
    inner: SmallVec<[Definition; 4]>,
}

/// The definitions held, in order.
pub uninterp spec fn definition_seq(v: &Definitions) -> Seq<Definition>;

impl Definitions {
    pub open spec fn view(&self) -> Seq<Definition> {
        definition_seq(self)
    }

    /// An empty list (`SmallVec::new`).
    #[verifier::external_body]
    pub fn new() -> (r: Definitions)
        ensures
            definition_seq(&r) == Seq::<Definition>::empty(),
    {
        Definitions { inner: SmallVec::new() }
    }

    /// Number of definitions (`SmallVec::len`).
    #[verifier::external_body]
    pub fn len(&self) -> (n: usize)
        ensures
            n == definition_seq(self).len(),
    {
        self.inner.len()
    }

    /// The definition at position `i` (`SmallVec` indexing).
    #[verifier::external_body]
    pub fn get(&self, i: usize) -> (d: Definition)
        requires
            i < definition_seq(self).len(),
        ensures
            d == definition_seq(self)[i as int],
    {
        self.inner[i]
    }

    /// Appends a definition (`SmallVec::push`).
    #[verifier::external_body]
    pub fn push(&mut self, d: Definition)
        ensures
            definition_seq(final(self)) == definition_seq(old(self)).push(d),
    {
        self.inner.push(d)
    }
}

/// The uses of a register, kept in a small inline vector.
#[verifier::external_body]
pub struct Uses {
    inner: SmallVec<[Use; 8]>,
}

/// The uses held, in order.
pub uninterp spec fn use_seq(v: &Uses) -> Seq<Use>;

impl Uses {
    pub open spec fn view(&self) -> Seq<Use> {
        use_seq(self)
    }

    /// An empty list (`SmallVec::new`).
    #[verifier::external_body]
    pub fn new() -> (r: Uses)
        ensures
            use_seq(&r) == Seq::<Use>::empty(),
    {
        Uses { inner: SmallVec::new() }
    }

    /// Number of uses (`SmallVec::len`).
    #[verifier::external_body]
    pub fn len(&self) -> (n: usize)
        ensures
            n == use_seq(self).len(),
    {
        self.inner.len()
    }

    /// The use at position `i` (`SmallVec` indexing).
    #[verifier::external_body]
    pub fn get(&self, i: usize) -> (u: Use)
        requires
            i < use_seq(self).len(),
        ensures
            u == use_seq(self)[i as int],
    {
        self.inner[i]
    }

    /// Appends a use (`SmallVec::push`).
    #[verifier::external_body]
    pub fn push(&mut self, u: Use)
        ensures
            use_seq(final(self)) == use_seq(old(self)).push(u),
    {
        self.inner.push(u)
    }
}

/// The definitions and uses of one register.
pub struct DefUseChain {
    pub register: u8,
    pub definitions: Definitions,
    pub uses: Uses,
}

/// Offset of the `i`-th instruction: four bytes each, wrapping.
pub open spec fn offset_of(i: int) -> u32 {
    ((4 * i) % 0x1_0000_0000) as u32
}

/// The definitions of register `reg` in `vs`, in order.
pub open spec fn definitions_of(vs: Seq<InstructionView>, reg: u8) -> Seq<Definition>
    decreases vs.len(),
{
    if vs.len() == 0 {
        seq![]
    } else {
        let rest = definitions_of(vs.drop_last(), reg);
        let i = vs.len() - 1;
        if def_of(vs.last()) == Some(reg) {
            rest.push(Definition { instruction_index: i as usize, address: offset_of(i) })
        } else {
            rest
        }
    }
}

/// One use at instruction `i` for each time `reg` occurs in `regs`.
pub open spec fn uses_at(regs: Seq<u8>, reg: u8, i: int) -> Seq<Use>
    decreases regs.len(),
{
    if regs.len() == 0 {
        seq![]
    } else {
        let rest = uses_at(regs.drop_last(), reg, i);
        if regs.last() == reg {
            rest.push(Use { instruction_index: i as usize, address: offset_of(i) })
        } else {
            rest
        }
    }
}

/// The uses of register `reg` in `vs`, in order.
pub open spec fn uses_in(vs: Seq<InstructionView>, reg: u8) -> Seq<Use>
    decreases vs.len(),
{
    if vs.len() == 0 {
        seq![]
    } else {
        uses_in(vs.drop_last(), reg) + uses_at(uses_of(vs.last()), reg, vs.len() - 1)
    }
}

/// Whether register `reg` has a chain: it is one of the 32 and is written or
/// read.
pub open spec fn has_chain(vs: Seq<InstructionView>, reg: u8) -> bool {
    reg < 32 && (definitions_of(vs, reg).len() > 0 || uses_in(vs, reg).len() > 0)
}

impl DataFlowAnalyzer {
    /// The definitions and uses of one register, scanning the instructions
    /// in order.
    fn chain_of(instructions: &[DecodedInstruction], reg: u8) -> (r: (Definitions, Uses))
        ensures
            r.0@ == definitions_of(views(instructions@), reg),
            r.1@ == uses_in(views(instructions@), reg),
    {
        let ghost vs = views(instructions@);
        let mut defs = Definitions::new();
        let mut uses = Uses::new();
        let mut address: u32 = 0;
        let mut idx: usize = 0;
        while idx < instructions.len()
            invariant
                idx <= instructions@.len(),
                vs == views(instructions@),
                address == offset_of(idx as int),
                defs@ == definitions_of(vs.take(idx as int), reg),
                uses@ == uses_in(vs.take(idx as int), reg),
            decreases instructions@.len() - idx,
        {
            let inst = &instructions[idx];
            assert(inst@ == vs[idx as int]);
            proof {
                let t = vs.take(idx + 1);
                assert(t.drop_last() =~= vs.take(idx as int));
                assert(t.last() == vs[idx as int]);
            }
            match get_definition_register(inst) {
                Some(d) => {
                    if d == reg {
                        defs.push(Definition { instruction_index: idx, address });
                    }
                },
                None => {},
            }
            let regs = get_use_registers(inst);
            let ghost before = uses@;
            let mut j: usize = 0;
            while j < regs.len()
                invariant
                    j <= regs@.len(),
                    address == offset_of(idx as int),
                    uses@ == before + uses_at(regs@.take(j as int), reg, idx as int),
                decreases regs@.len() - j,
            {
                proof {
                    let t = regs@.take(j + 1);
                    assert(t.drop_last() =~= regs@.take(j as int));
                    assert(t.last() == regs@[j as int]);
                }
                if regs[j] == reg {
                    uses.push(Use { instruction_index: idx, address });
                }
                j = j + 1;
            }
            assert(regs@.take(j as int) =~= regs@);
            proof {
                vstd::arithmetic::div_mod::lemma_add_mod_noop(4 * idx, 4, 0x1_0000_0000);
                assert(4int % 0x1_0000_0000 == 4);
            }
            address = address.wrapping_add(4);
            idx = idx + 1;
        }
        assert(vs.take(idx as int) =~= vs);
        (defs, uses)
    }

    /// Def-use chains of the 32 general-purpose registers: for each one
    /// that is written or read, where it is written and where it is read,
    /// by instruction index and offset.
    pub fn build_def_use_chains(instructions: &[DecodedInstruction]) -> (chains: HashMap<
        u8,
        DefUseChain,
    >)
        ensures
            forall|reg: u8|
                #![trigger chains@.contains_key(reg)]
                chains@.contains_key(reg) == has_chain(views(instructions@), reg),
            forall|reg: u8|
                #![trigger chains@[reg]]
                chains@.contains_key(reg) ==> chains@[reg].register == reg
                    && chains@[reg].definitions@ == definitions_of(views(instructions@), reg)
                    && chains@[reg].uses@ == uses_in(views(instructions@), reg),
    {
        let ghost vs = views(instructions@);
        let mut chains: HashMap<u8, DefUseChain> = HashMap::new();
        let mut reg: u8 = 0;
        while reg < 32
            invariant
                reg <= 32,
                vs == views(instructions@),
                forall|r: u8|
                    #![trigger chains@.contains_key(r)]
                    chains@.contains_key(r) == (r < reg && has_chain(vs, r)),
                forall|r: u8|
                    #![trigger chains@[r]]
                    chains@.contains_key(r) ==> chains@[r].register == r
                        && chains@[r].definitions@ == definitions_of(vs, r)
                        && chains@[r].uses@ == uses_in(vs, r),
            decreases 32 - reg,
        {
            let (defs, uses) = Self::chain_of(instructions, reg);
            if defs.len() > 0 || uses.len() > 0 {
                chains.insert(reg, DefUseChain { register: reg, definitions: defs, uses });
            }
            reg = reg + 1;
        }
        chains
    }

    /// Drops the instructions that write a register no instruction of the
    /// sequence reads; the others stay in order.
    pub fn eliminate_dead_code(instructions: &[DecodedInstruction], live_analysis: &LiveVariableAnalysis) -> (optimized:
        Vec<DecodedInstruction>)
        ensures
            views(optimized@) == dead_code_free(views(instructions@)),
    {
        eliminate_dead_code(instructions)
    }
}

/// Whether an instruction writes register `reg` by the rule of the ISA
/// subset: arithmetic, loads and moves write the GPR named by their first
/// operand; no other instruction writes one.
pub open spec fn writes_register(v: InstructionView, reg: u8) -> bool {
    &&& (v.instruction_type == InstructionType::Arithmetic || v.instruction_type
        == InstructionType::Load || v.instruction_type == InstructionType::Move)
    &&& v.operands.len() > 0
    &&& v.operands[0] == Operand::Register(reg)
}

proof fn lemma_definitions_below(vs: Seq<InstructionView>, reg: u8)
    requires
        vs.len() <= usize::MAX,
    ensures
        forall|k: int|
            0 <= k < definitions_of(vs, reg).len() ==> (#[trigger] definitions_of(vs, reg)[k]).instruction_index
                < vs.len(),
    decreases vs.len(),
{
    if vs.len() > 0 {
        lemma_definitions_below(vs.drop_last(), reg);
        let rest = definitions_of(vs.drop_last(), reg);
        let all = definitions_of(vs, reg);
        assert forall|k: int| 0 <= k < all.len() implies (#[trigger] all[k]).instruction_index
            < vs.len() by {
            if k < rest.len() {
                assert(all[k] == rest[k]);
            }
        }
    }
}

/// Instruction `i` is recorded as a definition of `reg` (with its offset
/// `4i`) exactly when it writes `reg`: an arithmetic instruction, load or
/// move whose first operand is `reg`. Such an instruction also kills `reg`
/// in the liveness of any block that holds it.
pub proof fn law_definitions_exact(vs: Seq<InstructionView>, reg: u8, i: int)
    requires
        0 <= i < vs.len(),
        vs.len() <= usize::MAX,
    ensures
        definitions_of(vs, reg).contains(
            Definition { instruction_index: i as usize, address: offset_of(i) },
        ) <==> writes_register(vs[i], reg),
        writes(vs[i], reg as int) <==> writes_register(vs[i], reg),
        writes_register(vs[i], reg) ==> killed_in(vs, reg as int),
    decreases vs.len(),
{
    let d = Definition { instruction_index: i as usize, address: offset_of(i) };
    let rest = definitions_of(vs.drop_last(), reg);
    let last = vs.len() - 1;
    if i < last {
        law_definitions_exact(vs.drop_last(), reg, i);
        assert(vs.drop_last()[i] == vs[i]);
        if def_of(vs.last()) == Some(reg) {
            let e = Definition { instruction_index: last as usize, address: offset_of(last) };
            assert(definitions_of(vs, reg) == rest.push(e));
            if definitions_of(vs, reg).contains(d) {
                let k = choose|k: int| 0 <= k < definitions_of(vs, reg).len() && definitions_of(vs, reg)[k] == d;
                if k < rest.len() {
                    assert(rest[k] == d);
                }
            }
            if rest.contains(d) {
                let k = choose|k: int| 0 <= k < rest.len() && rest[k] == d;
                assert(definitions_of(vs, reg)[k] == d);
            }
        }
    } else {
        lemma_definitions_below(vs.drop_last(), reg);
        assert(!rest.contains(d)) by {
            if rest.contains(d) {
                let k = choose|k: int| 0 <= k < rest.len() && rest[k] == d;
                assert(rest[k].instruction_index < last);
            }
        }
        if def_of(vs.last()) == Some(reg) {
            assert(definitions_of(vs, reg) == rest.push(d));
            assert(definitions_of(vs, reg)[rest.len() as int] == d);
        } else {
            assert(definitions_of(vs, reg) == rest);
        }
    }
    if writes_register(vs[i], reg) {
        assert(writes(vs[i], reg as int));
    }
}

proof fn lemma_use_prefix_contains(ops: Seq<Operand>, def: Option<u8>, n: int, reg: u8)
    requires
        0 <= n <= ops.len(),
    ensures
        use_registers_prefix(ops, def, n).contains(reg) <==> (def != Some(reg) && exists|j: int|
            0 <= j < n && ops[j] == Operand::Register(reg)),
    decreases n,
{
    if n > 0 {
        lemma_use_prefix_contains(ops, def, n - 1, reg);
        let prev = use_registers_prefix(ops, def, n - 1);
        let cur = use_registers_prefix(ops, def, n);
        if prev.contains(reg) {
            let k = choose|k: int| 0 <= k < prev.len() && prev[k] == reg;
            assert(cur.len() >= prev.len() && cur[k] == prev[k]) by {
                match ops[n - 1] {
                    Operand::Register(r) => {
                        if def != Some(r) {
                            assert(cur == prev.push(r));
                        }
                    },
                    _ => {},
                }
            }
        }
        if cur.contains(reg) && !prev.contains(reg) {
            let k = choose|k: int| 0 <= k < cur.len() && cur[k] == reg;
            match ops[n - 1] {
                Operand::Register(r) => {
                    if def != Some(r) {
                        assert(cur == prev.push(r));
                        if k < prev.len() {
                            assert(prev[k] == reg);
                        }
                    }
                },
                _ => {},
            }
        }
        if def != Some(reg) && ops[n - 1] == Operand::Register(reg) {
            assert(cur == prev.push(reg));
            assert(cur[prev.len() as int] == reg);
        }
    }
}

/// An instruction reads `reg` exactly when `reg` is one of its register
/// operands and it does not write `reg`: the destination of an arithmetic
/// instruction, load or move is no use.
pub proof fn law_uses_exact(v: InstructionView, reg: u8)
    ensures
        uses_of(v).contains(reg) <==> (!writes_register(v, reg) && exists|j: int|
            0 <= j < v.operands.len() && v.operands[j] == Operand::Register(reg)),
{
    lemma_use_prefix_contains(v.operands, def_of(v), v.operands.len() as int, reg);
    if writes_register(v, reg) {
        assert(def_of(v) == Some(reg));
    } else {
        assert(def_of(v) != Some(reg));
    }
}

} // verus!
