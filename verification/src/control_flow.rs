//! Control-flow graphs of decoded instruction sequences.
//!
//! Blocks start at the function entry, at every direct branch target and
//! after every direct branch. A block ends where the next one starts. The
//! last instruction of a block with a direct branch target leads to the
//! block starting at that target, if there is one; a block without a
//! direct branch target falls through to the next block.
use vstd::prelude::*;
use smallvec::SmallVec;
use bitvec::vec::BitVec;
use bitvec::order::Lsb0;
use std::collections::HashMap;
use std::collections::HashSet;
use crate::decoder::{DecodedInstruction, InstructionType, InstructionView, Operand, views};

verus! {

broadcast use vstd::std_specs::hash::group_hash_axioms;

/// A short list of block identifiers, kept in a small inline vector.
#[verifier::external_body]
pub struct BlockIds {
    inner: SmallVec<[u32; 2]>,
}

/// The identifiers held by a `BlockIds` value, in order.
pub uninterp spec fn block_id_seq(v: &BlockIds) -> Seq<u32>;

impl BlockIds {
    pub open spec fn view(&self) -> Seq<u32> {
        block_id_seq(self)
    }

    /// An empty list (`SmallVec::new`).
    #[verifier::external_body]
    pub fn new() -> (r: BlockIds)
        ensures
            block_id_seq(&r) == Seq::<u32>::empty(),
    {
        BlockIds { inner: SmallVec::new() }
    }

    /// Number of identifiers (`SmallVec::len`).
    #[verifier::external_body]
    pub fn len(&self) -> (n: usize)
        ensures
            n == block_id_seq(self).len(),
    {
        self.inner.len()
    }

    /// The identifier at position `i` (`SmallVec` indexing).
    #[verifier::external_body]
    pub fn get(&self, i: usize) -> (x: u32)
        requires
            i < block_id_seq(self).len(),
        ensures
            x == block_id_seq(self)[i as int],
    {
        self.inner[i]
    }

    /// Appends an identifier (`SmallVec::push`).
    #[verifier::external_body]
    pub fn push(&mut self, x: u32)
        ensures
            block_id_seq(final(self)) == block_id_seq(old(self)).push(x),
    {
        self.inner.push(x)
    }
}

/// A set of small indices (blocks, registers), one bit each.
#[verifier::external_body]
pub struct BlockSet {
    inner: BitVec<u32, Lsb0>,
}

/// The bits of a `BlockSet`, in index order.
pub uninterp spec fn block_set_bits(v: &BlockSet) -> Seq<bool>;

impl BlockSet {
    pub open spec fn view(&self) -> Seq<bool> {
        block_set_bits(self)
    }

    /// `len` cleared bits (`BitVec::repeat`).
    #[verifier::external_body]
    pub fn cleared(len: usize) -> (r: BlockSet)
        requires
            len <= usize::MAX / 8,
        ensures
            block_set_bits(&r) == Seq::new(len as nat, |i: int| false),
    {
        BlockSet { inner: BitVec::repeat(false, len) }
    }

    /// Number of bits (`BitVec::len`).
    #[verifier::external_body]
    pub fn len(&self) -> (n: usize)
        ensures
            n == block_set_bits(self).len(),
    {
        self.inner.len()
    }

    /// The bit at `i` (`BitSlice` indexing).
    #[verifier::external_body]
    pub fn get(&self, i: usize) -> (b: bool)
        requires
            i < block_set_bits(self).len(),
        ensures
            b == block_set_bits(self)[i as int],
    {
        self.inner[i]
    }

    /// Sets the bit at `i` (`BitSlice::set`).
    #[verifier::external_body]
    pub fn set(&mut self, i: usize, b: bool)
        requires
            i < block_set_bits(old(self)).len(),
        ensures
            block_set_bits(final(self)) == block_set_bits(old(self)).update(i as int, b),
    {
        self.inner.set(i, b)
    }

    /// Sets each bit that is set in `other`, of the same length
    /// (`BitVec |= &BitVec`).
    #[verifier::external_body]
    pub fn or_with(&mut self, other: &BlockSet)
        requires
            block_set_bits(old(self)).len() == block_set_bits(other).len(),
        ensures
            block_set_bits(final(self)) == Seq::new(
                block_set_bits(old(self)).len(),
                |i: int| block_set_bits(old(self))[i] || block_set_bits(other)[i],
            ),
    {
        self.inner |= &other.inner;
    }

    /// Whether both hold the same bits (`BitVec == BitVec`: equal lengths
    /// and equal bits).
    #[verifier::external_body]
    pub fn same_bits(&self, other: &BlockSet) -> (b: bool)
        ensures
            b == (block_set_bits(self) == block_set_bits(other)),
    {
        self.inner == other.inner
    }

    /// A copy (`BitVec::clone`).
    #[verifier::external_body]
    pub fn duplicate(&self) -> (r: BlockSet)
        ensures
            block_set_bits(&r) == block_set_bits(self),
    {
        BlockSet { inner: self.inner.clone() }
    }
}

/// A short list of edges as (from, to) block pairs, kept in a small inline
/// vector.
#[verifier::external_body]
pub struct EdgePairs {
    inner: SmallVec<[(u32, u32); 2]>,
}

/// The pairs held by an `EdgePairs` value, in order.
pub uninterp spec fn edge_pair_seq(v: &EdgePairs) -> Seq<(u32, u32)>;

impl EdgePairs {
    pub open spec fn view(&self) -> Seq<(u32, u32)> {
        edge_pair_seq(self)
    }

    /// An empty list (`SmallVec::new`).
    #[verifier::external_body]
    pub fn new() -> (r: EdgePairs)
        ensures
            edge_pair_seq(&r) == Seq::<(u32, u32)>::empty(),
    {
        EdgePairs { inner: SmallVec::new() }
    }

    /// Number of pairs (`SmallVec::len`).
    #[verifier::external_body]
    pub fn len(&self) -> (n: usize)
        ensures
            n == edge_pair_seq(self).len(),
    {
        self.inner.len()
    }

    /// The pair at position `i` (`SmallVec` indexing).
    #[verifier::external_body]
    pub fn get(&self, i: usize) -> (x: (u32, u32))
        requires
            i < edge_pair_seq(self).len(),
        ensures
            x == edge_pair_seq(self)[i as int],
    {
        self.inner[i]
    }

    /// Appends a pair (`SmallVec::push`).
    #[verifier::external_body]
    pub fn push(&mut self, x: (u32, u32))
        ensures
            edge_pair_seq(final(self)) == edge_pair_seq(old(self)).push(x),
    {
        self.inner.push(x)
    }

    /// The pairs as a `Vec`.
    pub fn to_vec(&self) -> (v: Vec<(u32, u32)>)
        ensures
            v@ == edge_pair_seq(self),
    {
        let mut v: Vec<(u32, u32)> = Vec::new();
        let n = self.len();
        let mut i: usize = 0;
        while i < n
            invariant
                n == edge_pair_seq(self).len(),
                i <= n,
                v@ == edge_pair_seq(self).subrange(0, i as int),
            decreases n - i,
        {
            v.push(self.get(i));
            i = i + 1;
        }
        v
    }
}

impl BlockIds {
    /// The identifiers as a `Vec`.
    pub fn to_vec(&self) -> (v: Vec<u32>)
        ensures
            v@ == block_id_seq(self),
    {
        let mut v: Vec<u32> = Vec::new();
        let n = self.len();
        let mut i: usize = 0;
        while i < n
            invariant
                n == block_id_seq(self).len(),
                i <= n,
                v@ == block_id_seq(self).subrange(0, i as int),
            decreases n - i,
        {
            v.push(self.get(i));
            i = i + 1;
        }
        v
    }
}

/// Kind of a control-flow edge.
#[derive(Debug, Clone, Copy, PartialEq, Eq, Structural, Hash)]
pub enum EdgeType {
    Unconditional,
    ConditionalTrue,
    ConditionalFalse,
    Call,
    Return,
}

/// An edge between two blocks, by block index.
#[derive(Debug, Clone, Copy, PartialEq, Eq, Structural, Hash)]
pub struct Edge {
    pub from: u32,
    pub to: u32,
    pub edge_type: EdgeType,
}

/// A basic block.
pub struct BasicBlock {
    pub id: u32,
    pub start_address: u32,
    pub end_address: u32,
    pub instructions: Vec<DecodedInstruction>,
    pub successors: BlockIds,
    pub predecessors: BlockIds,
}

/// The data of a basic block.
pub struct BlockView {
    pub id: u32,
    pub start_address: u32,
    pub end_address: u32,
    pub instructions: Seq<InstructionView>,
    pub successors: Seq<u32>,
    pub predecessors: Seq<u32>,
}

impl View for BasicBlock {
    type V = BlockView;

    open spec fn view(&self) -> BlockView {
        BlockView {
            id: self.id,
            start_address: self.start_address,
            end_address: self.end_address,
            instructions: views(self.instructions@),
            successors: self.successors@,
            predecessors: self.predecessors@,
        }
    }
}

/// Builds control-flow graphs and finds calls and loops in them.
pub struct ControlFlowAnalyzer;

/// A control-flow graph.
pub struct ControlFlowGraph {
    pub nodes: Vec<BasicBlock>,
    pub edges: Vec<Edge>,
    pub entry_block: u32,
}

/// The data of a control-flow graph.
pub struct GraphView {
    pub nodes: Seq<BlockView>,
    pub edges: Seq<Edge>,
    pub entry_block: u32,
}

impl View for ControlFlowGraph {
    type V = GraphView;

    open spec fn view(&self) -> GraphView {
        GraphView {
            nodes: self.nodes@.map_values(|b: BasicBlock| b@),
            edges: self.edges@,
            entry_block: self.entry_block,
        }
    }
}

/// A call found in a block.
#[derive(Debug, Clone, Copy, PartialEq, Eq, Structural, Hash)]
pub struct FunctionCall {
    pub caller_block: u32,
    pub callee_address: u32,
    pub instruction_address: u32,
}

/// A loop found by depth-first search: its header, the back edge that
/// closes it, the blocks known to be in it and its exits.
pub struct Loop {
    pub header: u32,
    pub back_edges: EdgePairs,
    pub body: BlockSet,
    pub exits: BlockIds,
}

/// The data of a loop.
pub struct LoopView {
    pub header: u32,
    pub back_edges: Seq<(u32, u32)>,
    pub body: Seq<bool>,
    pub exits: Seq<u32>,
}

impl View for Loop {
    type V = LoopView;

    open spec fn view(&self) -> LoopView {
        LoopView {
            header: self.header,
            back_edges: self.back_edges@,
            body: self.body@,
            exits: self.exits@,
        }
    }
}

/// The views of a sequence of loops.
pub open spec fn loop_views(s: Seq<Loop>) -> Seq<LoopView> {
    s.map_values(|l: Loop| l@)
}

/// Address of the `i`-th instruction of a sequence that starts at `entry`,
/// four bytes apart, wrapping around.
pub open spec fn addr_at(entry: u32, i: nat) -> u32
    decreases i,
{
    if i == 0 {
        entry
    } else {
        addr_at(entry, (i - 1) as nat).wrapping_add(4)
    }
}

/// Direct target of a branch: its first operand when that is an address.
pub open spec fn branch_target_of(v: InstructionView) -> Option<u32> {
    if v.instruction_type == InstructionType::Branch && v.operands.len() > 0 {
        match v.operands[0] {
            Operand::Address(a) => Some(a),
            _ => None,
        }
    } else {
        None
    }
}

/// Block start addresses found in the first `n` instructions: the entry,
/// each direct branch target and the address after each direct branch
/// (unless that is the highest address).
pub open spec fn starts_prefix(vs: Seq<InstructionView>, entry: u32, n: nat) -> Set<u32>
    decreases n,
{
    if n == 0 {
        set![entry]
    } else {
        let prev = starts_prefix(vs, entry, (n - 1) as nat);
        match branch_target_of(vs[n - 1]) {
            Some(t) => {
                let next = addr_at(entry, (n - 1) as nat).wrapping_add(4);
                if next < u32::MAX {
                    prev.insert(t).insert(next)
                } else {
                    prev.insert(t)
                }
            },
            None => prev,
        }
    }
}

/// All block start addresses of a sequence.
pub open spec fn block_starts(vs: Seq<InstructionView>, entry: u32) -> Set<u32> {
    starts_prefix(vs, entry, vs.len())
}

/// Index ranges `[first, end)` of the blocks among the first `n` instructions.
pub open spec fn block_ranges(vs: Seq<InstructionView>, entry: u32, n: nat) -> Seq<(int, int)>
    decreases n,
{
    if n == 0 {
        seq![]
    } else {
        let prev = block_ranges(vs, entry, (n - 1) as nat);
        if block_starts(vs, entry).contains(addr_at(entry, (n - 1) as nat)) {
            prev.push(((n - 1) as int, n as int))
        } else if prev.len() > 0 {
            prev.update(prev.len() - 1, (prev.last().0, n as int))
        } else {
            prev
        }
    }
}

/// Block index by start address, over the first `n` blocks (a later block
/// with the same start address replaces an earlier one).
pub open spec fn block_map(firsts: Seq<int>, entry: u32, n: nat) -> Map<u32, u32>
    decreases n,
{
    if n == 0 || n > firsts.len() {
        Map::empty()
    } else {
        block_map(firsts, entry, (n - 1) as nat).insert(addr_at(entry, firsts[n - 1] as nat), (n - 1) as u32)
    }
}

/// The first instruction index of each block.
pub open spec fn range_firsts(ranges: Seq<(int, int)>) -> Seq<int> {
    ranges.map_values(|p: (int, int)| p.0)
}

/// The block that block `k` leads to: the block at its last instruction's
/// direct target, or the next block when there is no direct target.
pub open spec fn block_edge(vs: Seq<InstructionView>, entry: u32, k: int) -> Option<u32> {
    let ranges = block_ranges(vs, entry, vs.len());
    let map = block_map(range_firsts(ranges), entry, ranges.len());
    match branch_target_of(vs[ranges[k].1 - 1]) {
        Some(t) => if map.contains_key(t) {
            Some(map[t])
        } else {
            None
        },
        None => if k + 1 < ranges.len() {
            Some((k + 1) as u32)
        } else {
            None
        },
    }
}

/// The edges of the first `n` blocks, in block order.
pub open spec fn edges_prefix(vs: Seq<InstructionView>, entry: u32, n: nat) -> Seq<Edge>
    decreases n,
{
    if n == 0 {
        seq![]
    } else {
        let prev = edges_prefix(vs, entry, (n - 1) as nat);
        match block_edge(vs, entry, n - 1) {
            Some(t) => prev.push(Edge { from: (n - 1) as u32, to: t, edge_type: EdgeType::Unconditional }),
            None => prev,
        }
    }
}

/// The blocks among the first `n` that lead to block `j`, in order.
pub open spec fn preds_prefix(vs: Seq<InstructionView>, entry: u32, j: int, n: nat) -> Seq<u32>
    decreases n,
{
    if n == 0 {
        seq![]
    } else {
        let prev = preds_prefix(vs, entry, j, (n - 1) as nat);
        if block_edge(vs, entry, n - 1) == Some(j as u32) {
            prev.push((n - 1) as u32)
        } else {
            prev
        }
    }
}

/// Block `k` of the graph of `vs`.
pub open spec fn spec_block(vs: Seq<InstructionView>, entry: u32, k: int) -> BlockView {
    let ranges = block_ranges(vs, entry, vs.len());
    let (first, end) = ranges[k];
    BlockView {
        id: k as u32,
        start_address: addr_at(entry, first as nat),
        end_address: addr_at(entry, (end - 1) as nat),
        instructions: vs.subrange(first, end),
        successors: match block_edge(vs, entry, k) {
            Some(t) => seq![t],
            None => seq![],
        },
        predecessors: preds_prefix(vs, entry, k, ranges.len()),
    }
}

/// The control-flow graph of `vs` when its first instruction is at `entry`.
pub open spec fn spec_cfg(vs: Seq<InstructionView>, entry: u32) -> GraphView {
    let n = block_ranges(vs, entry, vs.len()).len();
    GraphView {
        nodes: Seq::new(n, |k: int| spec_block(vs, entry, k)),
        edges: edges_prefix(vs, entry, n),
        entry_block: 0,
    }
}

/// The entry address is a block start.
proof fn lemma_entry_starts(vs: Seq<InstructionView>, entry: u32, n: nat)
    ensures
        starts_prefix(vs, entry, n).contains(entry),
    decreases n,
{
    if n > 0 {
        lemma_entry_starts(vs, entry, (n - 1) as nat);
    }
}

/// The blocks of a prefix cover it in order, without gaps, each nonempty.
proof fn lemma_ranges_wf(vs: Seq<InstructionView>, entry: u32, n: nat)
    requires
        n <= vs.len(),
    ensures
        ({
            let r = block_ranges(vs, entry, n);
            &&& r.len() <= n
            &&& n == 0 ==> r.len() == 0
            &&& n > 0 ==> r.len() > 0 && r[0].0 == 0 && r.last().1 == n
            &&& forall|k: int| 0 <= k < r.len() ==> 0 <= #[trigger] r[k].0 < r[k].1 <= n
            &&& forall|k: int| 0 <= k < r.len() - 1 ==> #[trigger] r[k].1 == r[k + 1].0
        }),
    decreases n,
{
    if n > 0 {
        lemma_ranges_wf(vs, entry, (n - 1) as nat);
        lemma_entry_starts(vs, entry, vs.len());
    }
}

/// `block_map` reads only the first `n` entries.
proof fn lemma_block_map_prefix(f1: Seq<int>, f2: Seq<int>, entry: u32, n: nat)
    requires
        n <= f1.len(),
        n <= f2.len(),
        forall|k: int| 0 <= k < n ==> f1[k] == f2[k],
    ensures
        block_map(f1, entry, n) == block_map(f2, entry, n),
    decreases n,
{
    if n > 0 {
        lemma_block_map_prefix(f1, f2, entry, (n - 1) as nat);
    }
}

/// Direct target of a branch instruction, if it has one.
fn get_branch_target(inst: &DecodedInstruction) -> (r: Option<u32>)
    ensures
        r == branch_target_of(inst@),
{
    match inst.instruction.instruction_type {
        InstructionType::Branch => match inst.instruction.operands.first() {
            Some(Operand::Address(addr)) => Some(addr),
            _ => None,
        },
        _ => None,
    }
}

/// A call: a branch with the link bit set.
fn is_function_call(inst: &DecodedInstruction) -> (b: bool)
    ensures
        b == (inst@.instruction_type == InstructionType::Branch && inst@.raw & 1 != 0),
{
    match inst.instruction.instruction_type {
        InstructionType::Branch => inst.raw & 1u32 != 0u32,
        _ => false,
    }
}

impl ControlFlowAnalyzer {
    /// Builds the control-flow graph of `instructions`, the first of which is at
    /// `entry_address`.
    pub fn build_cfg(instructions: &[DecodedInstruction], entry_address: u32) -> (g: ControlFlowGraph)
        requires
            instructions@.len() < 0x4000_0000,
        ensures
            g@ == spec_cfg(views(instructions@), entry_address),
    {
        let ghost vs = views(instructions@);
        let len = instructions.len();
        // Block boundaries.
        let mut start_set: HashSet<u32> = HashSet::new();
        start_set.insert(entry_address);
        let mut current_address: u32 = entry_address;
        let mut i: usize = 0;
        assert(start_set@ =~= starts_prefix(vs, entry_address, 0));
        while i < len
            invariant
                len == instructions@.len(),
                vs == views(instructions@),
                i <= len,
                current_address == addr_at(entry_address, i as nat),
                start_set@ == starts_prefix(vs, entry_address, i as nat),
            decreases len - i,
        {
            assert(vs[i as int] == instructions@[i as int]@);
            if let Some(target) = get_branch_target(&instructions[i]) {
                start_set.insert(target);
                if current_address.wrapping_add(4) < u32::MAX {
                    start_set.insert(current_address.wrapping_add(4));
                }
            }
            current_address = current_address.wrapping_add(4);
            i = i + 1;
            assert(start_set@ =~= starts_prefix(vs, entry_address, i as nat));
        }
        // Blocks, as index ranges with their first and last addresses.
        let mut ranges: Vec<(usize, usize, u32, u32)> = Vec::new();
        let mut address_to_block: HashMap<u32, u32> = HashMap::new();
        current_address = entry_address;
        i = 0;
        assert(address_to_block@ =~= block_map(range_firsts(block_ranges(vs, entry_address, 0)), entry_address, 0));
        while i < len
            invariant
                len == instructions@.len(),
                len < 0x4000_0000,
                vs == views(instructions@),
                i <= len,
                current_address == addr_at(entry_address, i as nat),
                start_set@ == block_starts(vs, entry_address),
                ranges@.len() == block_ranges(vs, entry_address, i as nat).len(),
                forall|k: int|
                    0 <= k < ranges@.len() ==> {
                        let br = block_ranges(vs, entry_address, i as nat);
                        &&& (#[trigger] ranges@[k]).0 == br[k].0
                        &&& ranges@[k].1 == br[k].1
                        &&& ranges@[k].2 == addr_at(entry_address, br[k].0 as nat)
                        &&& ranges@[k].3 == addr_at(entry_address, (br[k].1 - 1) as nat)
                    },
                address_to_block@ == block_map(
                    range_firsts(block_ranges(vs, entry_address, i as nat)),
                    entry_address,
                    ranges@.len() as nat,
                ),
            decreases len - i,
        {
            let ghost br0 = block_ranges(vs, entry_address, i as nat);
            proof {
                lemma_ranges_wf(vs, entry_address, i as nat);
            }
            if start_set.contains(&current_address) {
                address_to_block.insert(current_address, ranges.len() as u32);
                ranges.push((i, i + 1, current_address, current_address));
                proof {
                    let br1 = block_ranges(vs, entry_address, (i + 1) as nat);
                    assert(br1 == br0.push((i as int, (i + 1) as int)));
                    lemma_block_map_prefix(
                        range_firsts(br1),
                        range_firsts(br0),
                        entry_address,
                        br0.len(),
                    );
                }
            } else if ranges.len() > 0 {
                let last = ranges.len() - 1;
                let (f, _, a, _) = ranges[last];
                ranges.set(last, (f, i + 1, a, current_address));
                proof {
                    let br1 = block_ranges(vs, entry_address, (i + 1) as nat);
                    assert(br1 == br0.update(br0.len() - 1, (br0.last().0, (i + 1) as int)));
                    lemma_block_map_prefix(
                        range_firsts(br1),
                        range_firsts(br0),
                        entry_address,
                        br0.len(),
                    );
                }
            }
            current_address = current_address.wrapping_add(4);
            i = i + 1;
        }
        let ghost br = block_ranges(vs, entry_address, len as nat);
        proof {
            lemma_ranges_wf(vs, entry_address, len as nat);
        }
        let n = ranges.len();
        // Edges.
        let mut edges: Vec<Edge> = Vec::new();
        let mut targets: Vec<Option<u32>> = Vec::new();
        let mut k: usize = 0;
        while k < n
            invariant
                n == ranges@.len(),
                n == br.len(),
                br == block_ranges(vs, entry_address, vs.len()),
                vs == views(instructions@),
                len == instructions@.len(),
                k <= n,
                forall|m: int| 0 <= m < n ==> 0 <= #[trigger] br[m].0 < br[m].1 <= len,
                forall|m: int| 0 <= m < n ==> (#[trigger] ranges@[m]).1 == br[m].1,
                address_to_block@ == block_map(range_firsts(br), entry_address, n as nat),
                targets@.len() == k,
                forall|m: int| 0 <= m < k ==> #[trigger] targets@[m] == block_edge(vs, entry_address, m),
                edges@ == edges_prefix(vs, entry_address, k as nat),
            decreases n - k,
        {
            let (_, hi, _, _) = ranges[k];
            assert(br[k as int].1 == hi);
            assert(0 <= br[k as int].0 < br[k as int].1 <= len);
            let last_inst = &instructions[hi - 1];
            assert(vs[hi - 1] == last_inst@);
            let target: Option<u32> = match get_branch_target(last_inst) {
                Some(t) => match address_to_block.get(&t) {
                    Some(b) => Some(*b),
                    None => None,
                },
                None => if k + 1 < n {
                    Some((k + 1) as u32)
                } else {
                    None
                },
            };
            assert(target == block_edge(vs, entry_address, k as int));
            if let Some(to) = target {
                edges.push(Edge { from: k as u32, to, edge_type: EdgeType::Unconditional });
            }
            targets.push(target);
            k = k + 1;
        }
        // Blocks with their successors and predecessors.
        let mut nodes: Vec<BasicBlock> = Vec::new();
        k = 0;
        while k < n
            invariant
                n == ranges@.len(),
                n == br.len(),
                br == block_ranges(vs, entry_address, vs.len()),
                vs == views(instructions@),
                len == instructions@.len(),
                k <= n,
                forall|m: int| 0 <= m < n ==> 0 <= #[trigger] br[m].0 < br[m].1 <= len,
                forall|m: int|
                    0 <= m < n ==> {
                        &&& (#[trigger] ranges@[m]).0 == br[m].0
                        &&& ranges@[m].1 == br[m].1
                        &&& ranges@[m].2 == addr_at(entry_address, br[m].0 as nat)
                        &&& ranges@[m].3 == addr_at(entry_address, (br[m].1 - 1) as nat)
                    },
                targets@.len() == n,
                forall|m: int| 0 <= m < n ==> #[trigger] targets@[m] == block_edge(vs, entry_address, m),
                nodes@.len() == k,
                forall|m: int| 0 <= m < k ==> (#[trigger] nodes@[m])@ == spec_block(vs, entry_address, m),
            decreases n - k,
        {
            let (lo, hi, start_address, end_address) = ranges[k];
            let mut block_insts: Vec<DecodedInstruction> = Vec::new();
            let mut j: usize = lo;
            while j < hi
                invariant
                    lo <= j <= hi,
                    hi <= len,
                    len == instructions@.len(),
                    vs == views(instructions@),
                    views(block_insts@) == vs.subrange(lo as int, j as int),
                decreases hi - j,
            {
                let d = instructions[j].duplicate();
                let ghost before = block_insts@;
                block_insts.push(d);
                proof {
                    assert(views(block_insts@) =~= views(before).push(d@));
                    assert(vs.subrange(lo as int, j + 1) =~= vs.subrange(lo as int, j as int).push(vs[j as int]));
                }
                j = j + 1;
            }
            let mut successors = BlockIds::new();
            if let Some(t) = targets[k] {
                successors.push(t);
            }
            let mut predecessors = BlockIds::new();
            let mut m: usize = 0;
            while m < n
                invariant
                    m <= n,
                    n == targets@.len(),
                    n == br.len(),
                    k < n,
                    br == block_ranges(vs, entry_address, vs.len()),
                    forall|q: int| 0 <= q < n ==> #[trigger] targets@[q] == block_edge(vs, entry_address, q),
                    predecessors@ == preds_prefix(vs, entry_address, k as int, m as nat),
                decreases n - m,
            {
                if targets[m] == Some(k as u32) {
                    predecessors.push(m as u32);
                }
                m = m + 1;
            }
            let block = BasicBlock {
                id: k as u32,
                start_address,
                end_address,
                instructions: block_insts,
                successors,
                predecessors,
            };
            assert(block@.successors =~= spec_block(vs, entry_address, k as int).successors);
            assert(block@ == spec_block(vs, entry_address, k as int));
            nodes.push(block);
            k = k + 1;
        }
        let g = ControlFlowGraph { nodes, edges, entry_block: 0 };
        assert(g@.nodes =~= spec_cfg(views(instructions@), entry_address).nodes);
        g
    }
}

/// The calls found in the first `n` instructions of a block: branches with
/// the link bit set and a direct target, at their own addresses.
pub open spec fn block_calls(b: BlockView, n: nat) -> Seq<FunctionCall>
    decreases n,
{
    if n == 0 || n > b.instructions.len() {
        seq![]
    } else {
        let prev = block_calls(b, (n - 1) as nat);
        let inst = b.instructions[n - 1];
        if inst.instruction_type == InstructionType::Branch && inst.raw & 1 != 0 {
            match branch_target_of(inst) {
                Some(t) => prev.push(
                    FunctionCall {
                        caller_block: b.id,
                        callee_address: t,
                        instruction_address: addr_at(b.start_address, (n - 1) as nat),
                    },
                ),
                None => prev,
            }
        } else {
            prev
        }
    }
}

/// The calls found in the first `k` blocks, block by block.
pub open spec fn graph_calls(nodes: Seq<BlockView>, k: nat) -> Seq<FunctionCall>
    decreases k,
{
    if k == 0 || k > nodes.len() {
        seq![]
    } else {
        graph_calls(nodes, (k - 1) as nat) + block_calls(nodes[k - 1], nodes[k - 1].instructions.len())
    }
}

impl ControlFlowAnalyzer {
    /// The calls of a graph: branches with the link bit set and a direct target.
    pub fn analyze_function_calls(cfg: &ControlFlowGraph) -> (calls: Vec<FunctionCall>)
        ensures
            calls@ == graph_calls(cfg@.nodes, cfg@.nodes.len()),
    {
        let mut calls: Vec<FunctionCall> = Vec::new();
        let n = cfg.nodes.len();
        let mut k: usize = 0;
        while k < n
            invariant
                n == cfg.nodes@.len(),
                k <= n,
                calls@ == graph_calls(cfg@.nodes, k as nat),
            decreases n - k,
        {
            let block = &cfg.nodes[k];
            assert(cfg@.nodes[k as int] == block@);
            let ghost before = calls@;
            let mut instruction_address: u32 = block.start_address;
            let m = block.instructions.len();
            let mut j: usize = 0;
            while j < m
                invariant
                    m == block.instructions@.len(),
                    j <= m,
                    instruction_address == addr_at(block.start_address, j as nat),
                    calls@ == before + block_calls(block@, j as nat),
                decreases m - j,
            {
                let inst = &block.instructions[j];
                assert(block@.instructions[j as int] == inst@);
                if is_function_call(inst) {
                    if let Some(target) = get_branch_target(inst) {
                        let ghost c = calls@;
                        calls.push(
                            FunctionCall {
                                caller_block: block.id,
                                callee_address: target,
                                instruction_address,
                            },
                        );
                        assert(calls@ =~= before + block_calls(block@, (j + 1) as nat));
                    }
                }
                instruction_address = instruction_address.wrapping_add(4);
                j = j + 1;
            }
            k = k + 1;
        }
        calls
    }
}

/// Number of cleared bits.
pub open spec fn count_false(s: Seq<bool>) -> nat
    decreases s.len(),
{
    if s.len() == 0 {
        0
    } else {
        count_false(s.drop_last()) + if s.last() {
            0nat
        } else {
            1nat
        }
    }
}

pub proof fn lemma_count_false_set(s: Seq<bool>, i: int)
    requires
        0 <= i < s.len(),
        !s[i],
    ensures
        count_false(s) >= 1,
        count_false(s.update(i, true)) == count_false(s) - 1,
    decreases s.len(),
{
    if i < s.len() - 1 {
        lemma_count_false_set(s.drop_last(), i);
        assert(s.update(i, true).drop_last() =~= s.drop_last().update(i, true));
    } else {
        assert(s.update(i, true).drop_last() =~= s.drop_last());
    }
}

proof fn lemma_count_false_mono(a: Seq<bool>, b: Seq<bool>)
    requires
        a.len() == b.len(),
        forall|i: int| 0 <= i < a.len() && a[i] ==> b[i],
    ensures
        count_false(b) <= count_false(a),
    decreases a.len(),
{
    if a.len() > 0 {
        lemma_count_false_mono(a.drop_last(), b.drop_last());
    }
}

/// The loop found when the search meets block `header`, still on its path,
/// from block `node`.
pub open spec fn found_loop(n: nat, node: u32, header: u32) -> LoopView {
    LoopView {
        header,
        back_edges: seq![(node, header)],
        body: Seq::new(n, |i: int| false).update(header as int, true).update(node as int, true),
        exits: seq![],
    }
}

/// Search state: visited blocks, blocks on the current path, loops found.
pub type SearchState = (Seq<bool>, Seq<bool>, Seq<LoopView>);

/// Depth-first search from `node`: mark it visited and on the path, search
/// its successors, then take it off the path. `fuel` bounds the depth.
pub open spec fn dfs(g: GraphView, node: u32, st: SearchState, fuel: nat) -> SearchState
    decreases fuel, 0nat, 0nat,
{
    if fuel == 0 || node as int >= st.0.len() {
        st
    } else {
        let st1 = (st.0.update(node as int, true), st.1.update(node as int, true), st.2);
        let st2 = if (node as int) < g.nodes.len() {
            dfs_succs(g, node, 0, st1, (fuel - 1) as nat)
        } else {
            st1
        };
        (st2.0, st2.1.update(node as int, false), st2.2)
    }
}

/// The search over the successors of `node` from the `j`-th on: an unvisited
/// successor is searched, a successor on the current path closes a loop.
pub open spec fn dfs_succs(g: GraphView, node: u32, j: nat, st: SearchState, fuel: nat) -> SearchState
    decreases fuel, 1nat, g.nodes[node as int].successors.len() - j,
{
    let succs = g.nodes[node as int].successors;
    if j >= succs.len() {
        st
    } else {
        let s = succs[j as int];
        let st2 = if s as int >= st.0.len() {
            st
        } else if !st.0[s as int] {
            dfs(g, s, st, fuel)
        } else if st.1[s as int] {
            (st.0, st.1, st.2.push(found_loop(g.nodes.len(), node, s)))
        } else {
            st
        };
        dfs_succs(g, node, j + 1, st2, fuel)
    }
}

/// The loops of a graph: one per back edge met by a depth-first search
/// from block 0.
pub open spec fn spec_loops(g: GraphView) -> Seq<LoopView> {
    let n = g.nodes.len();
    dfs(g, 0, (Seq::new(n, |i: int| false), Seq::new(n, |i: int| false), seq![]), n).2
}

/// The loop closed by the back edge from `node` to `header`.
fn new_loop(n: usize, node: u32, header: u32) -> (l: Loop)
    requires
        n <= usize::MAX / 8,
        (header as int) < n,
        (node as int) < n,
    ensures
        l@ == found_loop(n as nat, node, header),
{
    let mut body = BlockSet::cleared(n);
    body.set(header as usize, true);
    body.set(node as usize, true);
    let mut back_edges = EdgePairs::new();
    back_edges.push((node, header));
    let l = Loop { header, back_edges, body, exits: BlockIds::new() };
    assert(l@.back_edges =~= found_loop(n as nat, node, header).back_edges);
    assert(l@.exits =~= found_loop(n as nat, node, header).exits);
    l
}

/// Depth-first search from `node` for back edges.
fn dfs_loops(
    cfg: &ControlFlowGraph,
    node: u32,
    visited: &mut BlockSet,
    in_stack: &mut BlockSet,
    loops: &mut Vec<Loop>,
    Ghost(fuel): Ghost<nat>,
)
    requires
        old(visited)@.len() == cfg@.nodes.len(),
        old(in_stack)@.len() == cfg@.nodes.len(),
        cfg@.nodes.len() <= usize::MAX / 8,
        fuel >= count_false(old(visited)@),
        node as int >= old(visited)@.len() || !old(visited)@[node as int],
    ensures
        (final(visited)@, final(in_stack)@, loop_views(final(loops)@)) == dfs(
            cfg@,
            node,
            (old(visited)@, old(in_stack)@, loop_views(old(loops)@)),
            fuel,
        ),
        final(visited)@.len() == old(visited)@.len(),
        final(in_stack)@.len() == old(in_stack)@.len(),
        forall|i: int| 0 <= i < old(visited)@.len() && old(visited)@[i] ==> final(visited)@[i],
    decreases fuel,
{
    let node_idx = node as usize;
    let len = visited.len();
    if node_idx >= len {
        return;
    }
    proof {
        lemma_count_false_set(old(visited)@, node as int);
    }
    let ghost g = cfg@;
    let ghost st0 = (visited@, in_stack@, loop_views(loops@));
    visited.set(node_idx, true);
    in_stack.set(node_idx, true);
    let ghost st1 = (visited@, in_stack@, loop_views(loops@));
    let ghost f = (fuel - 1) as nat;
    assert(st1 == (st0.0.update(node as int, true), st0.1.update(node as int, true), st0.2));
    let ghost target = dfs_succs(g, node, 0, st1, f);
    let block = &cfg.nodes[node_idx];
    assert(g.nodes[node as int] == block@);
    let m = block.successors.len();
    let mut j: usize = 0;
    while j < m
        invariant
            g == cfg@,
            g.nodes[node as int] == block@,
            m == block@.successors.len(),
            j <= m,
            len == visited@.len(),
            len == in_stack@.len(),
            len == g.nodes.len(),
            len <= usize::MAX / 8,
            (node as int) < len,
            f >= count_false(visited@),
            f < fuel,
            forall|i: int| 0 <= i < len && st1.0[i] ==> visited@[i],
            forall|i: int| 0 <= i < len && st0.0[i] ==> st1.0[i],
            st1.0.len() == len,
            dfs_succs(g, node, j as nat, (visited@, in_stack@, loop_views(loops@)), f) == target,
        decreases m - j,
    {
        let succ = block.successors.get(j);
        let succ_idx = succ as usize;
        let ghost cur = (visited@, in_stack@, loop_views(loops@));
        let ghost before_visited = visited@;
        if succ_idx >= len {
        } else if !visited.get(succ_idx) {
            dfs_loops(cfg, succ, visited, in_stack, loops, Ghost(f));
            proof {
                lemma_count_false_mono(before_visited, visited@);
            }
        } else if in_stack.get(succ_idx) {
            let l = new_loop(len, node, succ);
            let ghost before_loops = loops@;
            loops.push(l);
            assert(loop_views(loops@) =~= loop_views(before_loops).push(l@));
        }
        j = j + 1;
    }
    in_stack.set(node_idx, false);
}

impl ControlFlowAnalyzer {
    /// Loops of a graph, found by a depth-first search from block 0: each
    /// successor met while still on the search path closes one.
    pub fn detect_loops(cfg: &ControlFlowGraph) -> (loops: Vec<Loop>)
        requires
            cfg@.nodes.len() <= usize::MAX / 8,
        ensures
            loop_views(loops@) == spec_loops(cfg@),
    {
        let n = cfg.nodes.len();
        let mut loops: Vec<Loop> = Vec::new();
        let mut visited = BlockSet::cleared(n);
        let mut in_stack = BlockSet::cleared(n);
        proof {
            lemma_count_false_bound(visited@);
        }
        assert(loop_views(loops@) =~= Seq::<LoopView>::empty());
        dfs_loops(cfg, 0, &mut visited, &mut in_stack, &mut loops, Ghost(n as nat));
        loops
    }
}

proof fn lemma_count_false_bound(s: Seq<bool>)
    ensures
        count_false(s) <= s.len(),
    decreases s.len(),
{
    if s.len() > 0 {
        lemma_count_false_bound(s.drop_last());
    }
}

/// The instructions of the first `k` blocks, in order.
pub open spec fn blocks_concat(nodes: Seq<BlockView>, k: nat) -> Seq<InstructionView>
    decreases k,
{
    if k == 0 || k > nodes.len() {
        seq![]
    } else {
        blocks_concat(nodes, (k - 1) as nat) + nodes[k - 1].instructions
    }
}

/// A property of every instruction of a sequence holds of every
/// instruction of every block of its graph.
pub proof fn lemma_block_instructions(vs: Seq<InstructionView>, entry: u32, p: spec_fn(InstructionView) -> bool)
    requires
        forall|i: int| 0 <= i < vs.len() ==> p(#[trigger] vs[i]),
    ensures
        ({
            let g = spec_cfg(vs, entry);
            forall|q: int, i: int|
                0 <= q < g.nodes.len() && 0 <= i < g.nodes[q].instructions.len() ==> p(
                    #[trigger] g.nodes[q].instructions[i],
                )
        }),
{
    let g = spec_cfg(vs, entry);
    let r = block_ranges(vs, entry, vs.len());
    lemma_ranges_wf(vs, entry, vs.len());
    assert forall|q: int, i: int|
        0 <= q < g.nodes.len() && 0 <= i < g.nodes[q].instructions.len() implies p(
            #[trigger] g.nodes[q].instructions[i],
        ) by {
        assert(g.nodes[q] == spec_block(vs, entry, q));
        assert(g.nodes[q].instructions[i] == vs[r[q].0 + i]);
    }
}

/// The blocks of a control-flow graph hold every instruction once, in
/// order; the first block starts at the entry address; block `k` has id `k`.
pub proof fn law_cfg_partition(vs: Seq<InstructionView>, entry: u32)
    requires
        vs.len() < 0x4000_0000,
    ensures
        ({
            let g = spec_cfg(vs, entry);
            &&& blocks_concat(g.nodes, g.nodes.len()) == vs
            &&& (g.nodes.len() > 0 <==> vs.len() > 0)
            &&& vs.len() > 0 ==> g.nodes[0].start_address == entry
            &&& forall|k: int| 0 <= k < g.nodes.len() ==> (#[trigger] g.nodes[k]).id == k
            &&& g.entry_block == 0
        }),
{
    let g = spec_cfg(vs, entry);
    let r = block_ranges(vs, entry, vs.len());
    lemma_ranges_wf(vs, entry, vs.len());
    let n = r.len();
    assert forall|k: nat| k <= n implies blocks_concat(g.nodes, k) == vs.subrange(
        0,
        if k == 0 {
            0
        } else {
            r[k - 1].1
        },
    ) by {
        lemma_concat_prefix(vs, entry, k);
    }
    if n > 0 {
        assert(vs.subrange(0, r[n - 1].1) =~= vs);
    } else {
        assert(vs.subrange(0, 0) =~= vs);
    }
}

proof fn lemma_concat_prefix(vs: Seq<InstructionView>, entry: u32, k: nat)
    requires
        vs.len() < 0x4000_0000,
        k <= block_ranges(vs, entry, vs.len()).len(),
    ensures
        ({
            let r = block_ranges(vs, entry, vs.len());
            blocks_concat(spec_cfg(vs, entry).nodes, k) == vs.subrange(
                0,
                if k == 0 {
                    0
                } else {
                    r[k - 1].1
                },
            )
        }),
    decreases k,
{
    let r = block_ranges(vs, entry, vs.len());
    lemma_ranges_wf(vs, entry, vs.len());
    if k > 0 {
        lemma_concat_prefix(vs, entry, (k - 1) as nat);
        let prev_end = if k == 1 {
            0
        } else {
            r[k - 2].1
        };
        assert(r[k - 1].0 == prev_end);
        assert(vs.subrange(0, prev_end) + vs.subrange(r[k - 1].0, r[k - 1].1) =~= vs.subrange(
            0,
            r[k - 1].1,
        ));
    }
}

/// Each edge of the first `k` blocks leaves a block before `k` and is that
/// block's edge.
proof fn lemma_edges_prefix(vs: Seq<InstructionView>, entry: u32, k: nat)
    requires
        k < 0x4000_0000,
    ensures
        forall|i: int|
            0 <= i < edges_prefix(vs, entry, k).len() ==> {
                let e = #[trigger] edges_prefix(vs, entry, k)[i];
                &&& (e.from as int) < k
                &&& block_edge(vs, entry, e.from as int) == Some(e.to)
                &&& e.edge_type == EdgeType::Unconditional
            },
    decreases k,
{
    if k > 0 {
        lemma_edges_prefix(vs, entry, (k - 1) as nat);
        let prev = edges_prefix(vs, entry, (k - 1) as nat);
        assert forall|i: int| 0 <= i < edges_prefix(vs, entry, k).len() implies {
            let e = #[trigger] edges_prefix(vs, entry, k)[i];
            &&& (e.from as int) < k
            &&& block_edge(vs, entry, e.from as int) == Some(e.to)
            &&& e.edge_type == EdgeType::Unconditional
        } by {
            if i < prev.len() {
                assert(edges_prefix(vs, entry, k)[i] == prev[i]);
            }
        }
    }
}

/// Block indices in `block_map` name blocks that exist.
proof fn lemma_block_map_values(firsts: Seq<int>, entry: u32, n: nat)
    requires
        n <= firsts.len(),
        n < 0x4000_0000,
    ensures
        forall|a: u32| #[trigger] block_map(firsts, entry, n).contains_key(a) ==> block_map(firsts, entry, n)[a] < n,
    decreases n,
{
    if n > 0 {
        lemma_block_map_values(firsts, entry, (n - 1) as nat);
        let prev = block_map(firsts, entry, (n - 1) as nat);
        let key = addr_at(entry, firsts[n - 1] as nat);
        assert forall|a: u32| #[trigger] block_map(firsts, entry, n).contains_key(a) implies block_map(
            firsts,
            entry,
            n,
        )[a] < n by {
            if a != key {
                assert(prev.contains_key(a));
            }
        }
    }
}

/// A block that leads to block `j` is among its predecessors.
proof fn lemma_preds_prefix(vs: Seq<InstructionView>, entry: u32, j: int, n: nat, k: int)
    requires
        0 <= k < n,
        block_edge(vs, entry, k) == Some(j as u32),
        n < 0x4000_0000,
    ensures
        preds_prefix(vs, entry, j, n).contains(k as u32),
    decreases n,
{
    if k < n - 1 {
        lemma_preds_prefix(vs, entry, j, (n - 1) as nat, k);
        let p = preds_prefix(vs, entry, j, (n - 1) as nat);
        let i = choose|i: int| 0 <= i < p.len() && p[i] == k as u32;
        if block_edge(vs, entry, n - 1) == Some(j as u32) {
            assert(p.push((n - 1) as u32)[i] == k as u32);
        }
    } else {
        let p = preds_prefix(vs, entry, j, (n - 1) as nat);
        assert(p.push((n - 1) as u32)[p.len() as int] == k as u32);
    }
}

/// Every edge joins two blocks of the graph; the block it leaves has its
/// target as sole successor, and the block it enters lists the block it
/// leaves among its predecessors.
pub proof fn law_cfg_edges(vs: Seq<InstructionView>, entry: u32)
    requires
        vs.len() < 0x4000_0000,
    ensures
        ({
            let g = spec_cfg(vs, entry);
            forall|i: int|
                0 <= i < g.edges.len() ==> {
                    let e = #[trigger] g.edges[i];
                    &&& (e.from as int) < g.nodes.len()
                    &&& (e.to as int) < g.nodes.len()
                    &&& g.nodes[e.from as int].successors == seq![e.to]
                    &&& g.nodes[e.to as int].predecessors.contains(e.from)
                }
        }),
{
    let g = spec_cfg(vs, entry);
    let r = block_ranges(vs, entry, vs.len());
    let n = r.len();
    lemma_ranges_wf(vs, entry, vs.len());
    lemma_edges_prefix(vs, entry, n);
    lemma_block_map_values(range_firsts(r), entry, n);
    assert forall|i: int| 0 <= i < g.edges.len() implies {
        let e = #[trigger] g.edges[i];
        &&& (e.from as int) < g.nodes.len()
        &&& (e.to as int) < g.nodes.len()
        &&& g.nodes[e.from as int].successors == seq![e.to]
        &&& g.nodes[e.to as int].predecessors.contains(e.from)
    } by {
        let e = g.edges[i];
        assert(e == edges_prefix(vs, entry, n)[i]);
        assert((e.to as int) < n);
        lemma_preds_prefix(vs, entry, e.to as int, n, e.from as int);
    }
}

/// Every back edge `(a, b)` of every loop in `loops` is an edge of `g` into
/// the loop's header: `b` is the header and a successor of block `a`.
pub open spec fn back_edges_in_graph(g: GraphView, loops: Seq<LoopView>) -> bool {
    forall|k: int, e: int|
        0 <= k < loops.len() && 0 <= e < loops[k].back_edges.len() ==> {
            let (a, b) = #[trigger] loops[k].back_edges[e];
            &&& b == loops[k].header
            &&& (a as int) < g.nodes.len()
            &&& g.nodes[a as int].successors.contains(b)
        }
}

proof fn lemma_dfs_back_edges(g: GraphView, node: u32, st: SearchState, fuel: nat)
    requires
        back_edges_in_graph(g, st.2),
    ensures
        back_edges_in_graph(g, dfs(g, node, st, fuel).2),
    decreases fuel, 0nat, 0nat,
{
    if fuel == 0 || node as int >= st.0.len() {
    } else {
        let st1 = (st.0.update(node as int, true), st.1.update(node as int, true), st.2);
        if (node as int) < g.nodes.len() {
            lemma_dfs_succs_back_edges(g, node, 0, st1, (fuel - 1) as nat);
        }
    }
}

proof fn lemma_dfs_succs_back_edges(g: GraphView, node: u32, j: nat, st: SearchState, fuel: nat)
    requires
        (node as int) < g.nodes.len(),
        back_edges_in_graph(g, st.2),
    ensures
        back_edges_in_graph(g, dfs_succs(g, node, j, st, fuel).2),
    decreases fuel, 1nat, g.nodes[node as int].successors.len() - j,
{
    let succs = g.nodes[node as int].successors;
    if j < succs.len() {
        let s = succs[j as int];
        let st2 = if s as int >= st.0.len() {
            st
        } else if !st.0[s as int] {
            dfs(g, s, st, fuel)
        } else if st.1[s as int] {
            (st.0, st.1, st.2.push(found_loop(g.nodes.len(), node, s)))
        } else {
            st
        };
        if s as int >= st.0.len() {
        } else if !st.0[s as int] {
            lemma_dfs_back_edges(g, s, st, fuel);
        } else if st.1[s as int] {
            let l = found_loop(g.nodes.len(), node, s);
            assert(succs.contains(s));
            assert forall|k: int, e: int|
                0 <= k < st2.2.len() && 0 <= e < st2.2[k].back_edges.len() implies {
                    let (a, b) = #[trigger] st2.2[k].back_edges[e];
                    &&& b == st2.2[k].header
                    &&& (a as int) < g.nodes.len()
                    &&& g.nodes[a as int].successors.contains(b)
                } by {
                if k < st.2.len() {
                    assert(st2.2[k] == st.2[k]);
                } else {
                    assert(st2.2[k] == l);
                    assert(l.back_edges[e] == (node, s));
                }
            }
        }
        lemma_dfs_succs_back_edges(g, node, j + 1, st2, fuel);
    }
}

/// Each back edge of a detected loop runs from a block of the graph to the
/// loop's header, along an edge of the graph: for `(a, b)`, `b` is the
/// header and one of block `a`'s successors.
pub proof fn law_back_edges_are_graph_edges(g: GraphView)
    ensures
        back_edges_in_graph(g, spec_loops(g)),
{
    let n = g.nodes.len();
    let st = (Seq::new(n, |i: int| false), Seq::new(n, |i: int| false), Seq::<LoopView>::empty());
    lemma_dfs_back_edges(g, 0, st, n);
}

} // verus!
