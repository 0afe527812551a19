//! Loops of a control-flow graph, with room for their induction variables
//! and invariant registers.
use vstd::prelude::*;
use crate::control_flow::{BlockIds, BlockSet, ControlFlowAnalyzer, ControlFlowGraph, EdgePairs, Loop, LoopView, loop_views, spec_loops};

verus! {

/// A register stepped by a constant on each iteration.
#[derive(Debug, Clone, Copy, PartialEq, Eq, Structural)]
pub struct InductionVariable {
    pub register: u8,
    pub initial_value: u32,
    pub step: i32,
    pub is_incrementing: bool,
}

/// A loop with what is known of its registers.
pub struct LoopInfo {
    pub header: u32,
    pub body: BlockSet,
    pub back_edges: EdgePairs,
    pub exits: BlockIds,
    pub induction_variables: Vec<InductionVariable>,
    pub invariants: Vec<u8>,
}

impl LoopInfo {
    /// The loop part of the information.
    pub open spec fn loop_view(&self) -> LoopView {
        LoopView {
            header: self.header,
            back_edges: self.back_edges@,
            body: self.body@,
            exits: self.exits@,
        }
    }
}

/// Finds loops and what their registers do.
pub struct LoopAnalyzer;

impl LoopAnalyzer {
    /// The loops of the graph, as the depth-first search finds them, with
    /// no induction variables or invariant registers recorded yet.
    pub fn analyze_loops(cfg: &ControlFlowGraph) -> (r: Vec<LoopInfo>)
        requires
            cfg@.nodes.len() <= usize::MAX / 8,
        ensures
            r@.len() == spec_loops(cfg@).len(),
            forall|i: int|
                0 <= i < r@.len() ==> (#[trigger] r@[i]).loop_view() == spec_loops(cfg@)[i]
                    && r@[i].induction_variables@.len() == 0 && r@[i].invariants@.len() == 0,
    {
        let mut loops = ControlFlowAnalyzer::detect_loops(cfg);
        let ghost all = loop_views(loops@);
        let mut r: Vec<LoopInfo> = Vec::new();
        while loops.len() > 0
            invariant
                all == spec_loops(cfg@),
                r@.len() + loops@.len() == all.len(),
                loop_views(loops@) == all.subrange(r@.len() as int, all.len() as int),
                forall|i: int|
                    0 <= i < r@.len() ==> (#[trigger] r@[i]).loop_view() == all[i]
                        && r@[i].induction_variables@.len() == 0 && r@[i].invariants@.len() == 0,
            decreases loops@.len(),
        {
            let ghost before = loops@;
            let l = loops.remove(0);
            assert(l@ == all[r@.len() as int]) by {
                assert(loop_views(before)[0] == before[0]@);
            }
            assert(loop_views(loops@) =~= all.subrange(r@.len() as int + 1, all.len() as int)) by {
                assert(loops@ =~= before.subrange(1, before.len() as int));
                assert forall|k: int| 0 <= k < loops@.len() implies loop_views(loops@)[k]
                    == all[r@.len() + 1 + k] by {
                    assert(loop_views(before)[k + 1] == before[k + 1]@);
                }
            }
            r.push(
                LoopInfo {
                    header: l.header,
                    body: l.body,
                    back_edges: l.back_edges,
                    exits: l.exits,
                    induction_variables: Vec::new(),
                    invariants: Vec::new(),
                },
            );
        }
        r
    }

    /// Induction variables of a loop: none are recognized yet.
    pub fn find_induction_variables(loop_: &LoopInfo, cfg: &ControlFlowGraph) -> (r: Vec<
        InductionVariable,
    >)
        ensures
            r@.len() == 0,
    {
        Vec::new()
    }
}

} // verus!
