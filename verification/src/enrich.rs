//! Facts about each function found by scanning its instructions: how many
//! there are and how many were translated, whom it calls, whether it loops
//! and whether it returns.
use vstd::prelude::*;
use crate::decoder::{DecodedInstruction, InstructionType, InstructionView, views};
use crate::ghidra::FunctionInfo;

verus! {

/// The `blr` instruction word.
pub const BLR: u32 = 0x4E80_0020;

/// The signed 26-bit displacement of an I-form branch word.
pub open spec fn li_value(raw: u32) -> i32 {
    let v = raw & 0x03FF_FFFC;
    if v & 0x0200_0000 != 0 {
        (v as int - 0x0400_0000) as i32
    } else {
        v as i32
    }
}

/// The signed 16-bit displacement of a B-form branch word.
pub open spec fn bd_value(raw: u32) -> i32 {
    let v = raw & 0x0000_FFFC;
    if v & 0x8000 != 0 {
        (v as int - 0x1_0000) as i32
    } else {
        v as i32
    }
}

/// The displacement of an I-form branch (bits 2 to 25, sign-extended).
pub fn sign_extend_li(raw: u32) -> (d: i32)
    ensures
        d == li_value(raw),
{
    let v = raw & 0x03FF_FFFC;
    assert(v <= 0x03FF_FFFC) by (bit_vector)
        requires
            v == raw & 0x03FF_FFFC,
    ;
    if v & 0x0200_0000 != 0 {
        (v as i32) - 0x0400_0000
    } else {
        v as i32
    }
}

/// The displacement of a B-form branch (bits 2 to 15, sign-extended).
fn sign_extend_bd(raw: u32) -> (d: i32)
    ensures
        d == bd_value(raw),
{
    let v = raw & 0x0000_FFFC;
    assert(v <= 0xFFFC) by (bit_vector)
        requires
            v == raw & 0x0000_FFFC,
    ;
    if v & 0x8000 != 0 {
        (v as i32) - 0x1_0000
    } else {
        v as i32
    }
}

/// Whether a word is a branch-and-link (`bl`, `bla`).
pub open spec fn is_call(raw: u32) -> bool {
    raw >> 26 == 18 && raw & 1 == 1
}

/// The target of a relative `bl` at `address`, wrapping.
pub open spec fn call_target(address: u32, raw: u32) -> u32 {
    ((address + li_value(raw)) % 0x1_0000_0000) as u32
}

/// Whether a word is a relative branch (`b`, `bc` without the absolute
/// bit) that jumps backwards.
pub open spec fn is_back_branch(raw: u32) -> bool {
    let p = raw >> 26;
    (p == 18 || p == 16) && raw & 2 == 0 && (if p == 18 {
        li_value(raw)
    } else {
        bd_value(raw)
    }) < 0
}

/// What scanning a function's instructions finds.
pub struct FactsView {
    pub translated: nat,
    pub is_leaf: bool,
    pub returns: bool,
    pub has_loop: bool,
    pub call_targets: Seq<u32>,
}

/// `s` with `x` appended unless already present.
pub open spec fn add_unique(s: Seq<u32>, x: u32) -> Seq<u32> {
    if s.contains(x) {
        s
    } else {
        s.push(x)
    }
}

/// The facts of a sequence of instructions, scanned in order.
pub open spec fn scan(body: Seq<InstructionView>) -> FactsView
    decreases body.len(),
{
    if body.len() == 0 {
        FactsView {
            translated: 0,
            is_leaf: true,
            returns: false,
            has_loop: false,
            call_targets: seq![],
        }
    } else {
        let prev = scan(body.drop_last());
        let v = body.last();
        FactsView {
            translated: prev.translated + if v.instruction_type != InstructionType::Unknown {
                1nat
            } else {
                0nat
            },
            is_leaf: prev.is_leaf && !is_call(v.raw),
            returns: prev.returns || v.raw == BLR,
            has_loop: prev.has_loop || is_back_branch(v.raw),
            call_targets: if is_call(v.raw) && v.raw & 2 == 0 {
                add_unique(prev.call_targets, call_target(v.address, v.raw))
            } else {
                prev.call_targets
            },
        }
    }
}

/// End of a function's range: at least four bytes, wrapping.
pub open spec fn facts_end(address: u32, size: u32) -> u32 {
    let s: int = if size < 4 {
        4
    } else {
        size as int
    };
    ((address + s) % 0x1_0000_0000) as u32
}

/// The instructions in a function's range, in order.
pub open spec fn body_of(insts: Seq<InstructionView>, address: u32, size: u32) -> Seq<InstructionView>
    decreases insts.len(),
{
    if insts.len() == 0 {
        seq![]
    } else {
        let rest = body_of(insts.drop_last(), address, size);
        let a = insts.last().address;
        if address <= a && a < facts_end(address, size) {
            rest.push(insts.last())
        } else {
            rest
        }
    }
}

/// Facts about one function. The share of translated instructions is
/// `translated` over `instruction_count`.
pub struct FunctionFacts {
    pub address: u32,
    pub name: String,
    pub instruction_count: usize,
    pub byte_size: u32,
    pub call_targets: Vec<u32>,
    pub is_leaf: bool,
    pub returns: bool,
    pub has_loop: bool,
    pub translated: usize,
}

/// Whether `f` holds what scanning `func`'s instructions finds.
pub open spec fn facts_match(f: FunctionFacts, func: FunctionInfo, insts: Seq<InstructionView>) -> bool {
    let body = body_of(insts, func.address, func.size);
    let s = scan(body);
    &&& f.address == func.address
    &&& f.name@ == func.name@
    &&& f.byte_size == func.size
    &&& f.instruction_count == body.len()
    &&& f.translated == s.translated
    &&& f.is_leaf == s.is_leaf
    &&& f.returns == s.returns
    &&& f.has_loop == s.has_loop
    &&& f.call_targets@ == s.call_targets
}

/// Whether `v` holds `x`.
fn contains_u32(v: &Vec<u32>, x: u32) -> (b: bool)
    ensures
        b == v@.contains(x),
{
    let mut i: usize = 0;
    while i < v.len()
        invariant
            i <= v@.len(),
            forall|k: int| 0 <= k < i ==> v@[k] != x,
        decreases v@.len() - i,
    {
        if v[i] == x {
            return true;
        }
        i = i + 1;
    }
    false
}

/// Scans the instructions in a function's range: counts them and the
/// translated ones, collects the targets of relative calls (each once, in
/// order), and notes calls, backward branches and a `blr`.
pub fn analyze_function(func: &FunctionInfo, instructions: &[DecodedInstruction]) -> (f: FunctionFacts)
    ensures
        facts_match(f, *func, views(instructions@)),
{
    let ghost vs = views(instructions@);
    let size: u32 = if func.size < 4 {
        4
    } else {
        func.size
    };
    let end = func.address.wrapping_add(size);
    assert(end == facts_end(func.address, func.size));
    let mut facts = FunctionFacts {
        address: func.address,
        name: func.name.clone(),
        byte_size: func.size,
        instruction_count: 0,
        call_targets: Vec::new(),
        is_leaf: true,
        returns: false,
        has_loop: false,
        translated: 0,
    };
    let mut i: usize = 0;
    while i < instructions.len()
        invariant
            i <= instructions@.len(),
            vs == views(instructions@),
            end == facts_end(func.address, func.size),
            facts.address == func.address,
            facts.name@ == func.name@,
            facts.byte_size == func.size,
            facts.instruction_count == body_of(vs.take(i as int), func.address, func.size).len(),
            facts.instruction_count <= i,
            facts.translated <= facts.instruction_count,
            ({
                let s = scan(body_of(vs.take(i as int), func.address, func.size));
                &&& facts.translated == s.translated
                &&& facts.is_leaf == s.is_leaf
                &&& facts.returns == s.returns
                &&& facts.has_loop == s.has_loop
                &&& facts.call_targets@ == s.call_targets
            }),
        decreases instructions@.len() - i,
    {
        let inst = &instructions[i];
        assert(vs[i as int] == inst@);
        assert(vs.take(i + 1).drop_last() =~= vs.take(i as int));
        if func.address <= inst.address && inst.address < end {
            let ghost body0 = body_of(vs.take(i as int), func.address, func.size);
            assert(body0.push(inst@).drop_last() =~= body0);
            let raw = inst.raw;
            let primary = raw >> 26;
            facts.instruction_count = facts.instruction_count + 1;
            match inst.instruction.instruction_type {
                InstructionType::Unknown => {},
                _ => {
                    facts.translated = facts.translated + 1;
                },
            }
            if primary == 18 && (raw & 1) == 1 {
                facts.is_leaf = false;
                if (raw & 2) == 0 {
                    let target = inst.address.wrapping_add(sign_extend_li(raw) as u32);
                    assert(target == call_target(inst.address, raw)) by {
                        let li = li_value(raw);
                        if li < 0 {
                            assert((li as u32) == (li + 0x1_0000_0000) as u32) by (bit_vector)
                                requires
                                    li < 0,
                            ;
                        } else {
                            assert((li as u32) == li as u32);
                        }
                    }
                    if !contains_u32(&facts.call_targets, target) {
                        facts.call_targets.push(target);
                    }
                }
            }
            if (primary == 18 || primary == 16) && (raw & 2) == 0 {
                let disp = if primary == 18 {
                    sign_extend_li(raw)
                } else {
                    sign_extend_bd(raw)
                };
                if disp < 0 {
                    facts.has_loop = true;
                }
            }
            if raw == BLR {
                facts.returns = true;
            }
        }
        i = i + 1;
    }
    assert(vs.take(i as int) =~= vs);
    facts
}

/// The facts of each function in turn.
pub fn enrich_functions(functions: &[FunctionInfo], instructions: &[DecodedInstruction]) -> (r: Vec<
    FunctionFacts,
>)
    ensures
        r@.len() == functions@.len(),
        forall|i: int|
            0 <= i < functions@.len() ==> facts_match(#[trigger] r@[i], functions@[i], views(instructions@)),
{
    let mut r: Vec<FunctionFacts> = Vec::new();
    let mut i: usize = 0;
    while i < functions.len()
        invariant
            i <= functions@.len(),
            r@.len() == i,
            forall|k: int| 0 <= k < i ==> facts_match(#[trigger] r@[k], functions@[k], views(instructions@)),
        decreases functions@.len() - i,
    {
        r.push(analyze_function(&functions[i], instructions));
        i = i + 1;
    }
    r
}

/// Totals over the functions of a program. The share of translated
/// instructions is `translated_instructions` over `total_instructions`.
#[derive(Debug, Clone, Copy, PartialEq, Eq, Structural)]
pub struct CoverageReport {
    pub functions: usize,
    pub leaf_functions: usize,
    pub functions_with_loops: usize,
    pub total_instructions: usize,
    pub translated_instructions: usize,
}

/// Leaf functions among `fs`.
pub open spec fn count_leaf(fs: Seq<FunctionFacts>) -> nat
    decreases fs.len(),
{
    if fs.len() == 0 {
        0
    } else {
        count_leaf(fs.drop_last()) + if fs.last().is_leaf {
            1nat
        } else {
            0nat
        }
    }
}

/// Functions with loops among `fs`.
pub open spec fn count_loops(fs: Seq<FunctionFacts>) -> nat
    decreases fs.len(),
{
    if fs.len() == 0 {
        0
    } else {
        count_loops(fs.drop_last()) + if fs.last().has_loop {
            1nat
        } else {
            0nat
        }
    }
}

/// Instructions over `fs`.
pub open spec fn sum_instructions(fs: Seq<FunctionFacts>) -> nat
    decreases fs.len(),
{
    if fs.len() == 0 {
        0
    } else {
        sum_instructions(fs.drop_last()) + fs.last().instruction_count as nat
    }
}

/// Translated instructions over `fs`.
pub open spec fn sum_translated(fs: Seq<FunctionFacts>) -> nat
    decreases fs.len(),
{
    if fs.len() == 0 {
        0
    } else {
        sum_translated(fs.drop_last()) + fs.last().translated as nat
    }
}

proof fn lemma_counts_bounded(fs: Seq<FunctionFacts>)
    ensures
        count_leaf(fs) <= fs.len(),
        count_loops(fs) <= fs.len(),
    decreases fs.len(),
{
    if fs.len() > 0 {
        lemma_counts_bounded(fs.drop_last());
    }
}

proof fn lemma_sums_grow(fs: Seq<FunctionFacts>, i: int)
    requires
        0 <= i <= fs.len(),
    ensures
        sum_instructions(fs.take(i)) <= sum_instructions(fs),
        sum_translated(fs.take(i)) <= sum_translated(fs),
    decreases fs.len(),
{
    if i < fs.len() {
        assert(fs.drop_last().take(i) =~= fs.take(i));
        lemma_sums_grow(fs.drop_last(), i);
    } else {
        assert(fs.take(i) =~= fs);
    }
}

impl CoverageReport {
    /// Counts the functions, the leaf ones and those with loops, and sums
    /// their instructions and translated instructions.
    pub fn from_facts(facts: &[FunctionFacts]) -> (r: CoverageReport)
        requires
            sum_instructions(facts@) <= usize::MAX,
            sum_translated(facts@) <= usize::MAX,
        ensures
            r.functions == facts@.len(),
            r.leaf_functions == count_leaf(facts@),
            r.functions_with_loops == count_loops(facts@),
            r.total_instructions == sum_instructions(facts@),
            r.translated_instructions == sum_translated(facts@),
    {
        let mut r = CoverageReport {
            functions: facts.len(),
            leaf_functions: 0,
            functions_with_loops: 0,
            total_instructions: 0,
            translated_instructions: 0,
        };
        let mut i: usize = 0;
        while i < facts.len()
            invariant
                i <= facts@.len(),
                r.functions == facts@.len(),
                sum_instructions(facts@) <= usize::MAX,
                sum_translated(facts@) <= usize::MAX,
                r.leaf_functions == count_leaf(facts@.take(i as int)),
                r.functions_with_loops == count_loops(facts@.take(i as int)),
                r.total_instructions == sum_instructions(facts@.take(i as int)),
                r.translated_instructions == sum_translated(facts@.take(i as int)),
            decreases facts@.len() - i,
        {
            let f = &facts[i];
            let ghost t = facts@.take(i + 1);
            proof {
                assert(t.drop_last() =~= facts@.take(i as int));
                lemma_counts_bounded(t);
                lemma_sums_grow(facts@, i + 1);
            }
            if f.is_leaf {
                r.leaf_functions = r.leaf_functions + 1;
            }
            if f.has_loop {
                r.functions_with_loops = r.functions_with_loops + 1;
            }
            r.total_instructions = r.total_instructions + f.instruction_count;
            r.translated_instructions = r.translated_instructions + f.translated;
            i = i + 1;
        }
        assert(facts@.take(i as int) =~= facts@);
        r
    }
}

} // verus!
