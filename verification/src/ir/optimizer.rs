//! Optimization of the intermediate representation: repeated
//! computations become moves from the register that first held them.
use vstd::prelude::*;
use crate::ir::instruction::{IRBasicBlock, IRFunction, IRInstruction, block_instructions};

verus! {

/// The register an instruction writes.
pub open spec fn dest_of(i: IRInstruction) -> Option<u8> {
    match i {
        IRInstruction::Add { dst, .. } => Some(dst),
        IRInstruction::Sub { dst, .. } => Some(dst),
        IRInstruction::Mul { dst, .. } => Some(dst),
        IRInstruction::Div { dst, .. } => Some(dst),
        IRInstruction::And { dst, .. } => Some(dst),
        IRInstruction::Or { dst, .. } => Some(dst),
        IRInstruction::Xor { dst, .. } => Some(dst),
        IRInstruction::Load { dst, .. } => Some(dst),
        IRInstruction::FAdd { dst, .. } => Some(dst),
        IRInstruction::FSub { dst, .. } => Some(dst),
        IRInstruction::FMul { dst, .. } => Some(dst),
        IRInstruction::FDiv { dst, .. } => Some(dst),
        IRInstruction::Move { dst, .. } => Some(dst),
        IRInstruction::MoveImm { dst, .. } => Some(dst),
        _ => None,
    }
}

/// The register recorded for an instruction, the earliest record first.
pub open spec fn recorded(m: Seq<(IRInstruction, u8)>, i: IRInstruction) -> Option<u8>
    decreases m.len(),
{
    if m.len() == 0 {
        None
    } else {
        match recorded(m.drop_last(), i) {
            Some(r) => Some(r),
            None => if m.last().0 == i {
                Some(m.last().1)
            } else {
                None
            },
        }
    }
}

/// Common-subexpression elimination over a block, given the instructions
/// recorded so far: an instruction seen before becomes a move of its
/// destination from the recorded register; a new one that writes a
/// register is recorded. Returns the records and the new instructions.
pub open spec fn cse_block(m: Seq<(IRInstruction, u8)>, insts: Seq<IRInstruction>) -> (Seq<(IRInstruction, u8)>, Seq<IRInstruction>)
    decreases insts.len(),
{
    if insts.len() == 0 {
        (m, seq![])
    } else {
        let (m1, out) = cse_block(m, insts.drop_last());
        let i = insts.last();
        match recorded(m1, i) {
            Some(r) => (m1, out.push(
                match dest_of(i) {
                    Some(d) => IRInstruction::Move { dst: d, src: r },
                    None => i,
                },
            )),
            None => (
                match dest_of(i) {
                    Some(d) => m1.push((i, d)),
                    None => m1,
                },
                out.push(i),
            ),
        }
    }
}

/// The elimination over the blocks in order, records carried across.
pub open spec fn cse_blocks(blocks: Seq<Seq<IRInstruction>>) -> (Seq<(IRInstruction, u8)>, Seq<Seq<IRInstruction>>)
    decreases blocks.len(),
{
    if blocks.len() == 0 {
        (seq![], seq![])
    } else {
        let (m, done) = cse_blocks(blocks.drop_last());
        let (m2, b) = cse_block(m, blocks.last());
        (m2, done.push(b))
    }
}

/// Optimizes the intermediate representation.
pub struct IROptimizer;

impl IROptimizer {
    /// The register an instruction writes.
    fn get_destination_register(inst: &IRInstruction) -> (r: Option<u8>)
        ensures
            r == dest_of(*inst),
    {
        match inst {
            IRInstruction::Add { dst, .. } => Some(*dst),
            IRInstruction::Sub { dst, .. } => Some(*dst),
            IRInstruction::Mul { dst, .. } => Some(*dst),
            IRInstruction::Div { dst, .. } => Some(*dst),
            IRInstruction::And { dst, .. } => Some(*dst),
            IRInstruction::Or { dst, .. } => Some(*dst),
            IRInstruction::Xor { dst, .. } => Some(*dst),
            IRInstruction::Load { dst, .. } => Some(*dst),
            IRInstruction::FAdd { dst, .. } => Some(*dst),
            IRInstruction::FSub { dst, .. } => Some(*dst),
            IRInstruction::FMul { dst, .. } => Some(*dst),
            IRInstruction::FDiv { dst, .. } => Some(*dst),
            IRInstruction::Move { dst, .. } => Some(*dst),
            IRInstruction::MoveImm { dst, .. } => Some(*dst),
            _ => None,
        }
    }

    /// The register recorded for an instruction.
    fn find_recorded(m: &Vec<(IRInstruction, u8)>, inst: &IRInstruction) -> (r: Option<u8>)
        ensures
            r == recorded(m@, *inst),
    {
        let mut i: usize = 0;
        while i < m.len()
            invariant
                i <= m@.len(),
                recorded(m@.take(i as int), *inst) is None,
            decreases m@.len() - i,
        {
            assert(m@.take(i + 1).drop_last() =~= m@.take(i as int));
            if m[i].0 == *inst {
                proof {
                    lemma_recorded_stays(m@, *inst, i as int, m@.len() as int);
                    assert(m@.take(m@.len() as int) =~= m@);
                }
                return Some(m[i].1);
            }
            i = i + 1;
        }
        assert(m@.take(i as int) =~= m@);
        None
    }

    /// One block of the elimination.
    fn cse_one(m: &mut Vec<(IRInstruction, u8)>, insts: &Vec<IRInstruction>) -> (out: Vec<IRInstruction>)
        ensures
            (final(m)@, out@) == cse_block(old(m)@, insts@),
    {
        let ghost m0 = m@;
        let mut out: Vec<IRInstruction> = Vec::new();
        let mut i: usize = 0;
        while i < insts.len()
            invariant
                i <= insts@.len(),
                (m@, out@) == cse_block(m0, insts@.take(i as int)),
            decreases insts@.len() - i,
        {
            assert(insts@.take(i + 1).drop_last() =~= insts@.take(i as int));
            let inst = insts[i];
            match Self::find_recorded(m, &inst) {
                Some(existing) => {
                    match Self::get_destination_register(&inst) {
                        Some(dst) => out.push(IRInstruction::Move { dst, src: existing }),
                        None => out.push(inst),
                    }
                },
                None => {
                    match Self::get_destination_register(&inst) {
                        Some(dst) => m.push((inst, dst)),
                        None => {},
                    }
                    out.push(inst);
                },
            }
            i = i + 1;
        }
        assert(insts@.take(i as int) =~= insts@);
        out
    }

    /// Common-subexpression elimination over all blocks; block identifiers
    /// and successors stay.
    fn common_subexpression_elimination(function: &mut IRFunction)
        ensures
            block_instructions(final(function).basic_blocks@) == cse_blocks(
                block_instructions(old(function).basic_blocks@),
            ).1,
            final(function).basic_blocks@.len() == old(function).basic_blocks@.len(),
            forall|i: int|
                0 <= i < old(function).basic_blocks@.len() ==> (#[trigger] final(function).basic_blocks@[i]).id
                    == old(function).basic_blocks@[i].id && final(function).basic_blocks@[i].successors@
                    == old(function).basic_blocks@[i].successors@,
            final(function).name == old(function).name,
            final(function).address == old(function).address,
            final(function).parameters == old(function).parameters,
            final(function).return_register == old(function).return_register,
    {
        let mut blocks: Vec<IRBasicBlock> = Vec::new();
        std::mem::swap(&mut blocks, &mut function.basic_blocks);
        let ghost orig = blocks@;
        let ghost bi = block_instructions(orig);
        let mut m: Vec<(IRInstruction, u8)> = Vec::new();
        let mut done: Vec<IRBasicBlock> = Vec::new();
        while blocks.len() > 0
            invariant
                bi == block_instructions(orig),
                done@.len() + blocks@.len() == orig.len(),
                blocks@ == orig.subrange(done@.len() as int, orig.len() as int),
                (m@, block_instructions(done@)) == cse_blocks(bi.take(done@.len() as int)),
                forall|i: int|
                    0 <= i < done@.len() ==> (#[trigger] done@[i]).id == orig[i].id
                        && done@[i].successors@ == orig[i].successors@,
            decreases blocks@.len(),
        {
            let k = done.len();
            let b = blocks.remove(0);
            assert(b == orig[k as int]);
            assert(bi.take(k + 1).drop_last() =~= bi.take(k as int));
            let ghost before = done@;
            let new_insts = Self::cse_one(&mut m, &b.instructions);
            done.push(IRBasicBlock { id: b.id, instructions: new_insts, successors: b.successors });
            assert(block_instructions(done@) =~= block_instructions(before).push(new_insts@));
            assert(blocks@ =~= orig.subrange(done@.len() as int, orig.len() as int));
        }
        assert(bi.take(done@.len() as int) =~= bi);
        function.basic_blocks = done;
    }

    /// Runs the passes: common-subexpression elimination, then again as
    /// value numbering. Dead-code elimination, constant propagation and
    /// redundancy elimination change nothing yet.
    pub fn optimize(function: &mut IRFunction)
        ensures
            block_instructions(final(function).basic_blocks@) == cse_blocks(
                cse_blocks(block_instructions(old(function).basic_blocks@)).1,
            ).1,
            final(function).basic_blocks@.len() == old(function).basic_blocks@.len(),
            final(function).name == old(function).name,
            final(function).address == old(function).address,
            final(function).return_register == old(function).return_register,
    {
        Self::common_subexpression_elimination(function);
        Self::common_subexpression_elimination(function);
    }
}

/// A first record among a prefix stays the first of longer prefixes.
proof fn lemma_recorded_stays(m: Seq<(IRInstruction, u8)>, i: IRInstruction, k: int, n: int)
    requires
        0 <= k < n <= m.len(),
        recorded(m.take(k), i) is None,
        m[k].0 == i,
    ensures
        recorded(m.take(n), i) == Some(m[k].1),
    decreases n,
{
    if n > k + 1 {
        lemma_recorded_stays(m, i, k, n - 1);
        assert(m.take(n).drop_last() =~= m.take(n - 1));
    } else {
        assert(m.take(n).drop_last() =~= m.take(k));
    }
}

} // verus!
