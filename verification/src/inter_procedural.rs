//! Call graphs and the functions no entry point reaches.
use vstd::prelude::*;
use crate::control_flow::count_false;
use crate::ghidra::FunctionInfo;

verus! {

/// A function in a call graph.
pub struct FunctionNode {
    pub address: u32,
    pub name: String,
    pub is_entry_point: bool,
    /// Indices of the functions that call this one.
    pub callers: Vec<usize>,
    /// Indices of the functions this one calls.
    pub callees: Vec<usize>,
}

/// A call from one function to another, by index.
pub struct CallEdge {
    pub caller: usize,
    pub callee: usize,
    pub call_sites: Vec<u32>,
}

/// A call graph.
pub struct CallGraph {
    pub nodes: Vec<FunctionNode>,
    pub edges: Vec<CallEdge>,
}

/// Call graph construction and reachability.
pub struct InterProceduralAnalyzer;

/// The callees of each node, as integers.
pub open spec fn callee_lists(g: &CallGraph) -> Seq<Seq<int>> {
    g.nodes@.map_values(|n: FunctionNode| n.callees@.map_values(|c: usize| c as int))
}

/// The entry points of a graph.
pub open spec fn entry_set(g: &CallGraph) -> Set<int> {
    Set::new(|i: int| 0 <= i < g.nodes@.len() && g.nodes@[i].is_entry_point)
}

/// Nodes reached from `start` in at most `k` calls.
pub open spec fn reach_within(succ: Seq<Seq<int>>, start: Set<int>, k: nat) -> Set<int>
    decreases k,
{
    if k == 0 {
        start
    } else {
        let p = reach_within(succ, start, (k - 1) as nat);
        p.union(
            Set::new(
                |y: int|
                    exists|x: int, j: int|
                        #![trigger succ[x][j]]
                        p.contains(x) && 0 <= x < succ.len() && 0 <= j < succ[x].len() && succ[x][j]
                            == y,
            ),
        )
    }
}

/// Whether `y` is reached from `start` by following calls.
pub open spec fn reachable(succ: Seq<Seq<int>>, start: Set<int>, y: int) -> bool {
    exists|k: nat| #[trigger] reach_within(succ, start, k).contains(y)
}

/// A set that holds the start and every callee of its members holds
/// everything reachable.
proof fn lemma_closed_holds_reachable(succ: Seq<Seq<int>>, start: Set<int>, r: Set<int>, k: nat)
    requires
        start.subset_of(r),
        forall|x: int, j: int|
            #![trigger succ[x][j]]
            r.contains(x) && 0 <= x < succ.len() && 0 <= j < succ[x].len() ==> r.contains(succ[x][j]),
    ensures
        reach_within(succ, start, k).subset_of(r),
    decreases k,
{
    if k > 0 {
        lemma_closed_holds_reachable(succ, start, r, (k - 1) as nat);
    }
}

impl InterProceduralAnalyzer {
    /// One node per function, in order, the first marked as the entry
    /// point; no calls are recorded.
    pub fn build_call_graph(functions: &[FunctionInfo]) -> (g: CallGraph)
        ensures
            g.nodes@.len() == functions@.len(),
            g.edges@.len() == 0,
            forall|i: int|
                0 <= i < functions@.len() ==> {
                    let n = #[trigger] g.nodes@[i];
                    &&& n.address == functions@[i].address
                    &&& n.name@ == functions@[i].name@
                    &&& n.is_entry_point == (i == 0)
                    &&& n.callers@.len() == 0
                    &&& n.callees@.len() == 0
                },
    {
        let mut nodes: Vec<FunctionNode> = Vec::new();
        let edges: Vec<CallEdge> = Vec::new();
        let mut idx: usize = 0;
        while idx < functions.len()
            invariant
                idx <= functions@.len(),
                nodes@.len() == idx,
                forall|i: int|
                    0 <= i < idx ==> {
                        let n = #[trigger] nodes@[i];
                        &&& n.address == functions@[i].address
                        &&& n.name@ == functions@[i].name@
                        &&& n.is_entry_point == (i == 0)
                        &&& n.callers@.len() == 0
                        &&& n.callees@.len() == 0
                    },
            decreases functions@.len() - idx,
        {
            let func = &functions[idx];
            nodes.push(
                FunctionNode {
                    address: func.address,
                    name: func.name.clone(),
                    is_entry_point: idx == 0,
                    callers: Vec::new(),
                    callees: Vec::new(),
                },
            );
            idx = idx + 1;
        }
        CallGraph { nodes, edges }
    }

    /// The indices of the functions that no entry point reaches through
    /// calls, in increasing order. Requires every callee index to name a
    /// function of the graph.
    pub fn find_unreachable_functions(call_graph: &CallGraph) -> (r: Vec<usize>)
        requires
            forall|i: int, j: int|
                0 <= i < call_graph.nodes@.len() && 0 <= j < call_graph.nodes@[i].callees@.len()
                    ==> call_graph.nodes@[i].callees@[j] < call_graph.nodes@.len(),
        ensures
            forall|k: int| 0 <= k < r@.len() ==> (#[trigger] r@[k]) < call_graph.nodes@.len(),
            forall|k1: int, k2: int| 0 <= k1 < k2 < r@.len() ==> r@[k1] < r@[k2],
            forall|i: int|
                0 <= i < call_graph.nodes@.len() ==> (r@.contains(i as usize) <==> !reachable(
                    callee_lists(call_graph),
                    entry_set(call_graph),
                    i,
                )),
    {
        let n = call_graph.nodes.len();
        let ghost succ = callee_lists(call_graph);
        let ghost start = entry_set(call_graph);
        let mut reached: Vec<bool> = Vec::new();
        let mut i: usize = 0;
        while i < n
            invariant
                i <= n,
                reached@ == Seq::new(i as nat, |k: int| false),
            decreases n - i,
        {
            reached.push(false);
            i = i + 1;
            assert(reached@ =~= Seq::new(i as nat, |k: int| false));
        }
        let mut queue: Vec<usize> = Vec::new();
        i = 0;
        while i < n
            invariant
                i <= n,
                n == call_graph.nodes@.len(),
                reached@.len() == n,
                forall|k: int| 0 <= k < n ==> (reached@[k] <==> k < i && start.contains(k)),
                forall|q: int| 0 <= q < queue@.len() ==> (#[trigger] queue@[q]) < i && reached@[queue@[q] as int],
                forall|q1: int, q2: int| 0 <= q1 < q2 < queue@.len() ==> queue@[q1] != queue@[q2],
                forall|k: int| 0 <= k < n && reached@[k] ==> queue@.contains(k as usize),
                start == entry_set(call_graph),
            decreases n - i,
        {
            assert(start.contains(i as int) == call_graph.nodes@[i as int].is_entry_point);
            if call_graph.nodes[i].is_entry_point {
                let ghost before = queue@;
                queue.push(i);
                reached.set(i, true);
                assert forall|k: int| 0 <= k < n && reached@[k] implies queue@.contains(k as usize) by {
                    if k == i {
                        assert(queue@[queue@.len() - 1] == i);
                    } else {
                        let q = choose|q: int| 0 <= q < before.len() && before[q] == k as usize;
                        assert(queue@[q] == k as usize);
                    }
                }
            }
            i = i + 1;
        }
        proof {
            lemma_count_false_len(reached@);
            assert forall|k: int| 0 <= k < n && reached@[k] implies reachable(succ, start, k) by {
                assert(reach_within(succ, start, 0).contains(k));
            }
        }
        while queue.len() > 0
            invariant
                n == call_graph.nodes@.len(),
                reached@.len() == n,
                succ == callee_lists(call_graph),
                start == entry_set(call_graph),
                succ.len() == n,
                forall|x: int, j: int|
                    0 <= x < n && 0 <= j < succ[x].len() ==> 0 <= #[trigger] succ[x][j] < n,
                forall|q: int|
                    0 <= q < queue@.len() ==> (#[trigger] queue@[q]) < n && reached@[queue@[q] as int],
                forall|q1: int, q2: int| 0 <= q1 < q2 < queue@.len() ==> queue@[q1] != queue@[q2],
                forall|k: int| 0 <= k < n && start.contains(k) ==> reached@[k],
                forall|k: int| 0 <= k < n && reached@[k] ==> reachable(succ, start, k),
                forall|x: int, j: int|
                    #![trigger succ[x][j]]
                    0 <= x < n && reached@[x] && !queue@.contains(x as usize) && 0 <= j < succ[x].len()
                        ==> reached@[succ[x][j]],
            decreases count_false(reached@), queue@.len(),
        {
            let ghost cf0 = count_false(reached@);
            let ghost q0 = queue@;
            let node_idx = queue.pop().unwrap();
            assert(q0 == queue@.push(node_idx));
            assert(!queue@.contains(node_idx)) by {
                if queue@.contains(node_idx) {
                    let q = choose|q: int| 0 <= q < queue@.len() && queue@[q] == node_idx;
                    assert(q0[q] == q0[q0.len() - 1]);
                }
            }
            let callees = &call_graph.nodes[node_idx].callees;
            assert(succ[node_idx as int] == callees@.map_values(|c: usize| c as int));
            let ghost pushed: nat = 0;
            let mut j: usize = 0;
            while j < callees.len()
                invariant
                    n == call_graph.nodes@.len(),
                    reached@.len() == n,
                    succ == callee_lists(call_graph),
                    start == entry_set(call_graph),
                    succ.len() == n,
                    (node_idx as int) < n,
                    reached@[node_idx as int],
                    !queue@.contains(node_idx),
                    callees@ == call_graph.nodes@[node_idx as int].callees@,
                    succ[node_idx as int] == callees@.map_values(|c: usize| c as int),
                    j <= callees@.len(),
                    forall|x: int, jj: int|
                        0 <= x < n && 0 <= jj < succ[x].len() ==> 0 <= #[trigger] succ[x][jj] < n,
                    forall|q: int|
                        0 <= q < queue@.len() ==> (#[trigger] queue@[q]) < n && reached@[queue@[q] as int],
                    forall|q1: int, q2: int| 0 <= q1 < q2 < queue@.len() ==> queue@[q1] != queue@[q2],
                    forall|k: int| 0 <= k < n && start.contains(k) ==> reached@[k],
                    forall|k: int| 0 <= k < n && reached@[k] ==> reachable(succ, start, k),
                    forall|x: int, jj: int|
                        #![trigger succ[x][jj]]
                        0 <= x < n && x != node_idx && reached@[x] && !queue@.contains(x as usize) && 0
                            <= jj < succ[x].len() ==> reached@[succ[x][jj]],
                    forall|jj: int| 0 <= jj < j ==> reached@[#[trigger] succ[node_idx as int][jj]],
                    count_false(reached@) + pushed == cf0,
                    queue@.len() == q0.len() - 1 + pushed,
                decreases callees@.len() - j,
            {
                let callee = callees[j];
                assert(succ[node_idx as int][j as int] == callee as int);
                if !reached[callee] {
                    proof {
                        let k = choose|k: nat| #[trigger] reach_within(succ, start, k).contains(
                            node_idx as int,
                        );
                        assert(reach_within(succ, start, k + 1).contains(callee as int));
                        crate::control_flow::lemma_count_false_set(reached@, callee as int);
                    }
                    let ghost before = queue@;
                    let ghost old_reached = reached@;
                    reached.set(callee, true);
                    queue.push(callee);
                    proof {
                        pushed = pushed + 1;
                        assert forall|x: int, jj: int|
                            #![trigger succ[x][jj]]
                            0 <= x < n && x != node_idx && reached@[x] && !queue@.contains(x as usize)
                                && 0 <= jj < succ[x].len() implies reached@[succ[x][jj]] by {
                            if x != callee as int {
                                if before.contains(x as usize) {
                                    let q = choose|q: int| 0 <= q < before.len() && before[q] == x as usize;
                                    assert(queue@[q] == x as usize);
                                }
                                assert(old_reached[x]);
                            } else {
                                assert(queue@[queue@.len() - 1] == callee);
                            }
                        }
                        assert forall|q1: int, q2: int| 0 <= q1 < q2 < queue@.len() implies queue@[q1]
                            != queue@[q2] by {
                            if q2 == queue@.len() - 1 {
                                assert(queue@[q1] == before[q1]);
                            }
                        }
                    }
                }
                j = j + 1;
            }
        }
        proof {
            let r = Set::new(|k: int| 0 <= k < n && reached@[k]);
            assert forall|x: int, jj: int|
                #![trigger succ[x][jj]]
                r.contains(x) && 0 <= x < succ.len() && 0 <= jj < succ[x].len() implies r.contains(
                succ[x][jj],
            ) by {
                assert(!queue@.contains(x as usize));
            }
            assert forall|y: int| 0 <= y < n && reachable(succ, start, y) implies reached@[y] by {
                let k = choose|k: nat| #[trigger] reach_within(succ, start, k).contains(y);
                lemma_closed_holds_reachable(succ, start, r, k);
            }
        }
        let mut out: Vec<usize> = Vec::new();
        i = 0;
        while i < n
            invariant
                i <= n,
                n == call_graph.nodes@.len(),
                reached@.len() == n,
                forall|k: int| 0 <= k < out@.len() ==> (#[trigger] out@[k]) < i,
                forall|k1: int, k2: int| 0 <= k1 < k2 < out@.len() ==> out@[k1] < out@[k2],
                forall|k: int| 0 <= k < i ==> (out@.contains(k as usize) <==> !reached@[k]),
            decreases n - i,
        {
            let ghost before = out@;
            if !reached[i] {
                out.push(i);
            }
            proof {
                assert forall|k: int| 0 <= k < i + 1 implies (out@.contains(k as usize) <==> !reached@[k]) by {
                    if k < i {
                        if out@.contains(k as usize) {
                            let q = choose|q: int| 0 <= q < out@.len() && out@[q] == k as usize;
                            if q < before.len() {
                                assert(before[q] == k as usize);
                            }
                        }
                        if before.contains(k as usize) {
                            let q = choose|q: int| 0 <= q < before.len() && before[q] == k as usize;
                            assert(out@[q] == k as usize);
                        }
                    }
                    if k == i {
                        if !reached@[k] {
                            assert(out@[out@.len() - 1] == k as usize);
                        } else {
                            assert(out@ == before);
                            if before.contains(k as usize) {
                                let q = choose|q: int| 0 <= q < before.len() && before[q] == k as usize;
                            }
                        }
                    }
                }
            }
            i = i + 1;
        }
        out
    }
}

proof fn lemma_count_false_len(s: Seq<bool>)
    ensures
        count_false(s) <= s.len(),
    decreases s.len(),
{
    if s.len() > 0 {
        lemma_count_false_len(s.drop_last());
    }
}

} // verus!
