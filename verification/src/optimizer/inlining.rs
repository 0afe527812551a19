//! Inlining: which functions are worth inlining, and inlining a callee at
//! a call site.
use vstd::prelude::*;
use std::collections::HashMap;
use crate::decoder::{DecodedInstruction, InstructionView, views};
use crate::inter_procedural::{CallEdge, CallGraph, FunctionNode};

verus! {

broadcast use vstd::std_specs::hash::group_hash_axioms;

/// Limits for choosing functions to inline.
#[derive(Debug, Clone, Copy, PartialEq, Eq, Structural)]
pub struct InliningHeuristics {
    pub max_size: usize,
    pub max_call_frequency: usize,
    pub max_recursion_depth: usize,
}

impl Default for InliningHeuristics {
    fn default() -> (h: InliningHeuristics)
        ensures
            h.max_size == 50 && h.max_call_frequency == 10 && h.max_recursion_depth == 2,
    {
        InliningHeuristics { max_size: 50, max_call_frequency: 10, max_recursion_depth: 2 }
    }
}

/// Number of edges of `edges` that call `target`.
pub open spec fn call_count(edges: Seq<CallEdge>, target: int) -> nat
    decreases edges.len(),
{
    if edges.len() == 0 {
        0
    } else {
        call_count(edges.drop_last(), target) + if edges.last().callee as int == target {
            1nat
        } else {
            0nat
        }
    }
}

/// Whether a function is worth inlining: its size is known and at most
/// 50, and it is called at least 10 times.
pub open spec fn is_candidate(n: FunctionNode, edges: Seq<CallEdge>, sizes: Map<u32, usize>) -> bool {
    &&& sizes.contains_key(n.address)
    &&& sizes[n.address] <= 50
    &&& call_count(edges, n.address as int) >= 10
}

/// The addresses of the candidates among the first `k` nodes, in order.
pub open spec fn candidates_prefix(nodes: Seq<FunctionNode>, edges: Seq<CallEdge>, sizes: Map<u32, usize>, k: int) -> Seq<u32>
    decreases k,
{
    if k <= 0 || k > nodes.len() {
        seq![]
    } else if is_candidate(nodes[k - 1], edges, sizes) {
        candidates_prefix(nodes, edges, sizes, k - 1).push(nodes[k - 1].address)
    } else {
        candidates_prefix(nodes, edges, sizes, k - 1)
    }
}

/// How deeply a function recurses; recursion is not traced, so always 0.
fn calculate_recursion_depth(call_graph: &CallGraph, function_address: u32) -> (d: usize)
    ensures
        d == 0,
{
    0
}

/// Number of edges that call `target`.
fn count_calls(edges: &Vec<CallEdge>, target: u32) -> (c: usize)
    ensures
        c == call_count(edges@, target as int),
{
    let mut c: usize = 0;
    let mut i: usize = 0;
    while i < edges.len()
        invariant
            i <= edges@.len(),
            c == call_count(edges@.take(i as int), target as int),
            c <= i,
        decreases edges@.len() - i,
    {
        assert(edges@.take(i + 1).drop_last() =~= edges@.take(i as int));
        if edges[i].callee == target as usize {
            c = c + 1;
        }
        i = i + 1;
    }
    assert(edges@.take(i as int) =~= edges@);
    c
}

/// The functions worth inlining, in node order: size known and at most
/// the limit, called at least as often as the limit, and recursing no
/// deeper than the limit.
pub fn analyze_inlining_candidates(call_graph: &CallGraph, function_sizes: &HashMap<u32, usize>) -> (r:
    Vec<u32>)
    ensures
        r@ == candidates_prefix(
            call_graph.nodes@,
            call_graph.edges@,
            function_sizes@,
            call_graph.nodes@.len() as int,
        ),
{
    let mut candidates: Vec<u32> = Vec::new();
    let heuristics = InliningHeuristics::default();
    let ghost nodes = call_graph.nodes@;
    let ghost edges = call_graph.edges@;
    let mut i: usize = 0;
    while i < call_graph.nodes.len()
        invariant
            i <= nodes.len(),
            nodes == call_graph.nodes@,
            edges == call_graph.edges@,
            heuristics.max_size == 50 && heuristics.max_call_frequency == 10
                && heuristics.max_recursion_depth == 2,
            candidates@ == candidates_prefix(nodes, edges, function_sizes@, i as int),
        decreases nodes.len() - i,
    {
        let node = &call_graph.nodes[i];
        match function_sizes.get(&node.address) {
            Some(size) => {
                if *size <= heuristics.max_size {
                    let call_count = count_calls(&call_graph.edges, node.address);
                    if call_count >= heuristics.max_call_frequency {
                        let recursion_depth = calculate_recursion_depth(call_graph, node.address);
                        if recursion_depth <= heuristics.max_recursion_depth {
                            candidates.push(node.address);
                        }
                    }
                }
            },
            None => {},
        }
        i = i + 1;
    }
    candidates
}

/// Index of the first of the first `n` instructions at address `site`.
pub open spec fn first_in(vs: Seq<InstructionView>, site: u32, n: int) -> Option<int>
    decreases n,
{
    if n <= 0 || n > vs.len() {
        None
    } else {
        match first_in(vs, site, n - 1) {
            Some(i) => Some(i),
            None => if vs[n - 1].address == site {
                Some(n - 1)
            } else {
                None
            },
        }
    }
}

/// Index of the first instruction at address `site`.
pub open spec fn first_at(vs: Seq<InstructionView>, site: u32) -> Option<int> {
    first_in(vs, site, vs.len() as int)
}

/// The callee's instructions placed at the call site, four bytes apart,
/// after `before` caller instructions.
pub open spec fn relocated(callee: Seq<InstructionView>, site: u32, before: int) -> Seq<InstructionView> {
    Seq::new(
        callee.len(),
        |k: int|
            InstructionView {
                raw: callee[k].raw,
                address: (site + 4 * (before + k)) as u32,
                opcode: callee[k].opcode,
                instruction_type: callee[k].instruction_type,
                operands: callee[k].operands,
            },
    )
}

/// Whether the inlined addresses fit in 32 bits.
pub open spec fn inline_fits(caller: Seq<InstructionView>, callee: Seq<InstructionView>, site: u32) -> bool {
    match first_at(caller, site) {
        Some(idx) => callee.len() == 0 || site + 4 * (idx + callee.len() - 1) <= u32::MAX,
        None => true,
    }
}

/// A first match among a prefix stays the first match of longer prefixes.
proof fn lemma_first_in_stays(vs: Seq<InstructionView>, site: u32, i: int, n: int)
    requires
        0 <= i < n <= vs.len(),
        first_in(vs, site, i + 1) == Some(i),
    ensures
        first_in(vs, site, n) == Some(i),
    decreases n,
{
    if n > i + 1 {
        lemma_first_in_stays(vs, site, i, n - 1);
    }
}

/// Index of the first instruction at address `site`.
fn find_call_index(instructions: &[DecodedInstruction], site: u32) -> (r: Option<usize>)
    ensures
        r matches Some(i) ==> i < instructions@.len() && first_at(views(instructions@), site) == Some(
            i as int,
        ),
        r is None ==> first_at(views(instructions@), site) is None,
{
    let ghost cv = views(instructions@);
    let mut i: usize = 0;
    while i < instructions.len()
        invariant
            i <= instructions@.len(),
            cv == views(instructions@),
            first_in(cv, site, i as int) is None,
        decreases instructions@.len() - i,
    {
        assert(cv[i as int] == instructions@[i as int]@);
        if instructions[i].address == site {
            proof {
                lemma_first_in_stays(cv, site, i as int, cv.len() as int);
            }
            return Some(i);
        }
        i = i + 1;
    }
    None
}

/// Appends copies of `src[lo..hi]` to `dst`.
fn append_range(dst: &mut Vec<DecodedInstruction>, src: &[DecodedInstruction], lo: usize, hi: usize)
    requires
        lo <= hi <= src@.len(),
    ensures
        views(final(dst)@) == views(old(dst)@) + views(src@).subrange(lo as int, hi as int),
{
    let ghost d0 = views(dst@);
    let ghost sv = views(src@);
    let mut t: usize = lo;
    while t < hi
        invariant
            lo <= t <= hi,
            hi <= src@.len(),
            sv == views(src@),
            views(dst@) == d0 + sv.subrange(lo as int, t as int),
        decreases hi - t,
    {
        let d = src[t].duplicate();
        let ghost before = dst@;
        dst.push(d);
        assert(views(dst@) =~= views(before).push(d@));
        assert(sv.subrange(lo as int, t + 1) =~= sv.subrange(lo as int, t as int).push(sv[t as int]));
        t = t + 1;
    }
}

/// Appends the callee's instructions placed at the call site after `idx`
/// caller instructions.
fn append_relocated(
    result: &mut Vec<DecodedInstruction>,
    callee_instructions: &[DecodedInstruction],
    call_site: u32,
    idx: usize,
)
    requires
        old(result)@.len() == idx,
        callee_instructions@.len() == 0 || call_site + 4 * (idx + callee_instructions@.len() - 1)
            <= u32::MAX,
    ensures
        views(final(result)@) == views(old(result)@) + relocated(
            views(callee_instructions@),
            call_site,
            idx as int,
        ),
{
    let ghost ce = views(callee_instructions@);
    let ghost r0 = views(result@);
    let mut m: usize = 0;
    while m < callee_instructions.len()
        invariant
            ce == views(callee_instructions@),
            ce.len() == 0 || call_site + 4 * (idx + ce.len() - 1) <= u32::MAX,
            m <= ce.len(),
            result@.len() == idx + m,
            views(result@) == r0 + relocated(ce, call_site, idx as int).take(m as int),
        decreases ce.len() - m,
    {
        let mut inlined = callee_instructions[m].duplicate();
        let pos: u32 = result.len() as u32;
        inlined.address = call_site + pos * 4;
        let ghost before = result@;
        result.push(inlined);
        assert(views(result@) =~= views(before).push(inlined@));
        assert(ce[m as int] == callee_instructions@[m as int]@);
        assert(views(result@) =~= r0 + relocated(ce, call_site, idx as int).take(m + 1));
        m = m + 1;
    }
    assert(relocated(ce, call_site, idx as int).take(m as int) =~= relocated(ce, call_site, idx as int));
}

/// Replaces the first caller instruction at the call site with the
/// callee's instructions, placed from the call site on in steps of four
/// bytes counted from the caller's start; without such an instruction the
/// caller comes back unchanged.
pub fn inline_function(
    caller_instructions: &[DecodedInstruction],
    callee_instructions: &[DecodedInstruction],
    call_site: u32,
) -> (r: Vec<DecodedInstruction>)
    requires
        inline_fits(views(caller_instructions@), views(callee_instructions@), call_site),
    ensures
        ({
            let cv = views(caller_instructions@);
            match first_at(cv, call_site) {
                Some(idx) => views(r@) == cv.take(idx) + relocated(
                    views(callee_instructions@),
                    call_site,
                    idx,
                ) + cv.skip(idx + 1),
                None => views(r@) == cv,
            }
        }),
{
    let ghost cv = views(caller_instructions@);
    let mut result: Vec<DecodedInstruction> = Vec::new();
    let n = caller_instructions.len();
    match find_call_index(caller_instructions, call_site) {
        Some(idx) => {
            append_range(&mut result, caller_instructions, 0, idx);
            append_relocated(&mut result, callee_instructions, call_site, idx);
            append_range(&mut result, caller_instructions, idx + 1, n);
            assert(cv.subrange(0, idx as int) =~= cv.take(idx as int));
            assert(cv.subrange(idx + 1, cv.len() as int) =~= cv.skip(idx + 1));
            assert(views(result@) =~= cv.take(idx as int) + relocated(
                views(callee_instructions@),
                call_site,
                idx as int,
            ) + cv.skip(idx + 1));
        },
        None => {
            append_range(&mut result, caller_instructions, 0, caller_instructions.len());
            assert(cv.subrange(0, cv.len() as int) =~= cv);
            assert(views(result@) =~= cv);
        },
    }
    result
}

} // verus!
