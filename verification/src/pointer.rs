//! Points-to analysis: which addresses registers may point at, and which
//! registers may alias.
use vstd::prelude::*;
use std::collections::HashMap;
use std::collections::HashSet;
use crate::decoder::{DecodedInstruction, InstructionType, InstructionView, Operand, views};

verus! {

broadcast use vstd::std_specs::hash::group_hash_axioms;

/// The addresses a register may point at.
pub type PointsToSet = HashSet<u32>;

/// Default target of a pointer whose target is unknown: the start of RAM.
pub const RAM_BASE: u32 = 0x8000_0000;

/// Points-to sets and aliases found in a sequence of instructions.
pub struct PointerAnalysis {
    points_to: HashMap<u8, Vec<u32>>,
    aliases: HashMap<u8, Vec<u8>>,
}

/// The set stored for `k`, empty when there is none.
pub open spec fn set_of<V>(m: Map<u8, Set<V>>, k: u8) -> Set<V> {
    if m.contains_key(k) {
        m[k]
    } else {
        Set::empty()
    }
}

/// The addresses of `s`, each moved by `off` (wrapping).
pub open spec fn shifted(s: Set<u32>, off: u32) -> Set<u32> {
    Set::new(|y: u32| exists|x: u32| s.contains(x) && y == x.wrapping_add(off))
}

/// Points-to sets and aliases after one instruction.
///
/// A load or store makes its base register point at the effective address
/// (relative to the instruction's own address) or, without an immediate
/// offset, at the start of RAM. An `addi`/`addis`/`add`-form arithmetic
/// instruction `d = s + imm` moves every target of `s` by `imm` into `d`
/// and records `s` as an alias of `d`; when `s` points nowhere known, a
/// positive `imm` makes `d` point at the start of RAM. `d = s + s2` copies
/// the targets of `s` into `d` and records both as aliases.
pub open spec fn pointer_step(
    pt: Map<u8, Set<u32>>,
    al: Map<u8, Set<u8>>,
    v: InstructionView,
) -> (Map<u8, Set<u32>>, Map<u8, Set<u8>>) {
    let ops = v.operands;
    match v.instruction_type {
        InstructionType::Load | InstructionType::Store => if ops.len() > 1 {
            match ops[1] {
                Operand::Register(b) => {
                    let target = if ops.len() > 2 {
                        match ops[2] {
                            Operand::Immediate(o) => v.address.wrapping_add(o as u32),
                            _ => RAM_BASE,
                        }
                    } else {
                        RAM_BASE
                    };
                    (pt.insert(b, set_of(pt, b).insert(target)), al)
                },
                _ => (pt, al),
            }
        } else {
            (pt, al)
        },
        InstructionType::Arithmetic => if (v.opcode == 14 || v.opcode == 15 || v.opcode == 31) && ops.len()
            > 2 {
            match (ops[0], ops[1], ops[2]) {
                (Operand::Register(d), Operand::Register(s), Operand::Immediate(i)) => if pt.contains_key(
                    s,
                ) {
                    (
                        pt.insert(d, set_of(pt, d).union(shifted(pt[s], i as u32))),
                        al.insert(d, set_of(al, d).insert(s)),
                    )
                } else if i > 0 {
                    (pt.insert(d, set_of(pt, d).insert(RAM_BASE)), al)
                } else {
                    (pt, al)
                },
                (Operand::Register(d), Operand::Register(s), Operand::Register(s2)) => if pt.contains_key(
                    s,
                ) {
                    (
                        pt.insert(d, set_of(pt, d).union(pt[s])),
                        al.insert(d, set_of(al, d).insert(s).insert(s2)),
                    )
                } else {
                    (pt, al)
                },
                _ => (pt, al),
            }
        } else {
            (pt, al)
        },
        _ => (pt, al),
    }
}

/// Points-to sets and aliases after the first `n` instructions.
pub open spec fn pointer_facts(vs: Seq<InstructionView>, n: nat) -> (Map<u8, Set<u32>>, Map<u8, Set<u8>>)
    decreases n,
{
    if n == 0 || n > vs.len() {
        (Map::empty(), Map::empty())
    } else {
        let (pt, al) = pointer_facts(vs, (n - 1) as nat);
        pointer_step(pt, al, vs[n - 1])
    }
}

/// `v` with `x` added unless it is there.
fn add_unique(v: &mut Vec<u32>, x: u32)
    ensures
        final(v)@.to_set() == old(v)@.to_set().insert(x),
{
    let mut i: usize = 0;
    while i < v.len()
        invariant
            i <= v@.len(),
            forall|k: int| 0 <= k < i ==> v@[k] != x,
        decreases v@.len() - i,
    {
        if v[i] == x {
            assert(v@.to_set().contains(x)) by {
                assert(v@[i as int] == x);
            }
            assert(v@.to_set().insert(x) =~= v@.to_set());
            return;
        }
        i = i + 1;
    }
    let ghost before = v@;
    v.push(x);
    assert(v@.to_set() =~= before.to_set().insert(x)) by {
        assert forall|y: u32| v@.to_set().contains(y) implies before.to_set().insert(x).contains(y) by {
            let k = choose|k: int| 0 <= k < v@.len() && v@[k] == y;
            if k < before.len() {
                assert(before[k] == y);
            }
        }
        assert forall|y: u32| before.to_set().insert(x).contains(y) implies v@.to_set().contains(y) by {
            if y == x {
                assert(v@[before.len() as int] == x);
            } else {
                let k = choose|k: int| 0 <= k < before.len() && before[k] == y;
                assert(v@[k] == y);
            }
        }
    }
}

/// `v` with `x` added unless it is there.
fn add_unique_reg(v: &mut Vec<u8>, x: u8)
    ensures
        final(v)@.to_set() == old(v)@.to_set().insert(x),
{
    let mut i: usize = 0;
    while i < v.len()
        invariant
            i <= v@.len(),
            forall|k: int| 0 <= k < i ==> v@[k] != x,
        decreases v@.len() - i,
    {
        if v[i] == x {
            assert(v@.to_set().contains(x)) by {
                assert(v@[i as int] == x);
            }
            assert(v@.to_set().insert(x) =~= v@.to_set());
            return;
        }
        i = i + 1;
    }
    let ghost before = v@;
    v.push(x);
    assert(v@.to_set() =~= before.to_set().insert(x)) by {
        assert forall|y: u8| v@.to_set().contains(y) implies before.to_set().insert(x).contains(y) by {
            let k = choose|k: int| 0 <= k < v@.len() && v@[k] == y;
            if k < before.len() {
                assert(before[k] == y);
            }
        }
        assert forall|y: u8| before.to_set().insert(x).contains(y) implies v@.to_set().contains(y) by {
            if y == x {
                assert(v@[before.len() as int] == x);
            } else {
                let k = choose|k: int| 0 <= k < before.len() && before[k] == y;
                assert(v@[k] == y);
            }
        }
    }
}

/// Adding one more element to a set and moving the set.
proof fn lemma_shifted_insert(s: Set<u32>, x: u32, off: u32)
    ensures
        shifted(s.insert(x), off) == shifted(s, off).insert(x.wrapping_add(off)),
{
    assert forall|y: u32| shifted(s.insert(x), off).contains(y) implies shifted(s, off).insert(
        x.wrapping_add(off),
    ).contains(y) by {
        let z = choose|z: u32| s.insert(x).contains(z) && y == z.wrapping_add(off);
        if z != x {
            assert(s.contains(z));
        }
    }
    assert forall|y: u32| shifted(s, off).insert(x.wrapping_add(off)).contains(y) implies shifted(
        s.insert(x),
        off,
    ).contains(y) by {
        if y != x.wrapping_add(off) {
            let z = choose|z: u32| s.contains(z) && y == z.wrapping_add(off);
            assert(s.insert(x).contains(z));
        } else {
            assert(s.insert(x).contains(x));
        }
    }
    assert(shifted(s.insert(x), off) =~= shifted(s, off).insert(x.wrapping_add(off)));
}

/// The elements of a prefix one longer.
proof fn lemma_prefix_set<T>(v: Seq<T>, j: int)
    requires
        0 <= j < v.len(),
    ensures
        v.subrange(0, j + 1).to_set() == v.subrange(0, j).to_set().insert(v[j]),
{
    let a = v.subrange(0, j + 1);
    let b = v.subrange(0, j);
    assert forall|y: T| a.to_set().contains(y) implies b.to_set().insert(v[j]).contains(y) by {
        let k = choose|k: int| 0 <= k < a.len() && a[k] == y;
        if k < j {
            assert(b[k] == y);
        }
    }
    assert forall|y: T| b.to_set().insert(v[j]).contains(y) implies a.to_set().contains(y) by {
        if y == v[j] {
            assert(a[j] == y);
        } else {
            let k = choose|k: int| 0 <= k < b.len() && b[k] == y;
            assert(a[k] == y);
        }
    }
    assert(a.to_set() =~= b.to_set().insert(v[j]));
}

impl PointerAnalysis {
    /// The addresses each register may point at.
    pub closed spec fn targets(&self) -> Map<u8, Set<u32>> {
        self.points_to@.map_values(|v: Vec<u32>| v@.to_set())
    }

    /// The registers each register may alias.
    pub closed spec fn alias_sets(&self) -> Map<u8, Set<u8>> {
        self.aliases@.map_values(|v: Vec<u8>| v@.to_set())
    }

    /// No pointers and no aliases.
    pub fn new() -> (a: PointerAnalysis)
        ensures
            a.targets() == Map::<u8, Set<u32>>::empty(),
            a.alias_sets() == Map::<u8, Set<u8>>::empty(),
    {
        let a = PointerAnalysis { points_to: HashMap::new(), aliases: HashMap::new() };
        assert(a.targets() =~= Map::<u8, Set<u32>>::empty());
        assert(a.alias_sets() =~= Map::<u8, Set<u8>>::empty());
        a
    }

    /// The targets recorded for `reg`, as a list.
    fn targets_of(&self, reg: u8) -> (v: Vec<u32>)
        ensures
            v@.to_set() == set_of(self.targets(), reg),
    {
        let mut v: Vec<u32> = Vec::new();
        match self.points_to.get(&reg) {
            Some(src) => {
                let mut i: usize = 0;
                while i < src.len()
                    invariant
                        i <= src@.len(),
                        v@ == src@.subrange(0, i as int),
                    decreases src@.len() - i,
                {
                    v.push(src[i]);
                    i = i + 1;
                }
                assert(src@.subrange(0, src@.len() as int) =~= src@);
            },
            None => {
                assert(v@.to_set() =~= Set::<u32>::empty());
            },
        }
        v
    }

    /// The aliases recorded for `reg`, as a list.
    fn aliases_of(&self, reg: u8) -> (v: Vec<u8>)
        ensures
            v@.to_set() == set_of(self.alias_sets(), reg),
    {
        let mut v: Vec<u8> = Vec::new();
        match self.aliases.get(&reg) {
            Some(src) => {
                let mut i: usize = 0;
                while i < src.len()
                    invariant
                        i <= src@.len(),
                        v@ == src@.subrange(0, i as int),
                    decreases src@.len() - i,
                {
                    v.push(src[i]);
                    i = i + 1;
                }
                assert(src@.subrange(0, src@.len() as int) =~= src@);
            },
            None => {
                assert(v@.to_set() =~= Set::<u8>::empty());
            },
        }
        v
    }

    /// Records the targets of `reg`.
    fn put_targets(&mut self, reg: u8, v: Vec<u32>)
        ensures
            final(self).targets() == old(self).targets().insert(reg, v@.to_set()),
            final(self).alias_sets() == old(self).alias_sets(),
    {
        let ghost s = v@.to_set();
        self.points_to.insert(reg, v);
        assert(self.targets() =~= old(self).targets().insert(reg, s));
    }

    /// Records the aliases of `reg`.
    fn put_aliases(&mut self, reg: u8, v: Vec<u8>)
        ensures
            final(self).alias_sets() == old(self).alias_sets().insert(reg, v@.to_set()),
            final(self).targets() == old(self).targets(),
    {
        let ghost s = v@.to_set();
        self.aliases.insert(reg, v);
        assert(self.alias_sets() =~= old(self).alias_sets().insert(reg, s));
    }

    /// Points-to sets and aliases of a sequence of instructions.
    pub fn analyze(instructions: &[DecodedInstruction]) -> (a: PointerAnalysis)
        ensures
            (a.targets(), a.alias_sets()) == pointer_facts(views(instructions@), instructions@.len()),
    {
        let ghost vs = views(instructions@);
        let mut analysis = PointerAnalysis::new();
        let mut i: usize = 0;
        while i < instructions.len()
            invariant
                i <= instructions@.len(),
                vs == views(instructions@),
                (analysis.targets(), analysis.alias_sets()) == pointer_facts(vs, i as nat),
            decreases instructions@.len() - i,
        {
            let inst = &instructions[i];
            assert(vs[i as int] == inst@);
            if is_pointer_operation(inst) {
                analyze_pointer_operation(&mut analysis, inst);
            }
            i = i + 1;
        }
        analysis
    }

    /// The addresses `reg` may point at, when it is a known pointer.
    pub fn get_points_to(&self, reg: u8) -> (r: Option<PointsToSet>)
        ensures
            match r {
                Some(s) => self.targets().contains_key(reg) && s@ == self.targets()[reg],
                None => !self.targets().contains_key(reg),
            },
    {
        match self.points_to.get(&reg) {
            Some(v) => {
                let mut s: HashSet<u32> = HashSet::new();
                let mut i: usize = 0;
                while i < v.len()
                    invariant
                        i <= v@.len(),
                        s@ == v@.subrange(0, i as int).to_set(),
                    decreases v@.len() - i,
                {
                    proof {
                        lemma_prefix_set(v@, i as int);
                    }
                    s.insert(v[i]);
                    i = i + 1;
                }
                assert(v@.subrange(0, v@.len() as int) =~= v@);
                Some(s)
            },
            None => None,
        }
    }

    /// Whether two registers are known pointers that may point at a common
    /// address.
    pub fn may_alias(&self, reg1: u8, reg2: u8) -> (b: bool)
        ensures
            b == (self.targets().contains_key(reg1) && self.targets().contains_key(reg2) && exists|a: u32|
                self.targets()[reg1].contains(a) && self.targets()[reg2].contains(a)),
    {
        match (self.points_to.get(&reg1), self.points_to.get(&reg2)) {
            (Some(v1), Some(v2)) => {
                let mut i: usize = 0;
                while i < v1.len()
                    invariant
                        i <= v1@.len(),
                        self.points_to@.contains_key(reg1) && self.points_to@[reg1] == *v1,
                        self.points_to@.contains_key(reg2) && self.points_to@[reg2] == *v2,
                        forall|k: int, m: int| 0 <= k < i && 0 <= m < v2@.len() ==> v1@[k] != v2@[m],
                    decreases v1@.len() - i,
                {
                    let mut j: usize = 0;
                    while j < v2.len()
                        invariant
                            j <= v2@.len(),
                            i < v1@.len(),
                            self.points_to@.contains_key(reg1) && self.points_to@[reg1] == *v1,
                            self.points_to@.contains_key(reg2) && self.points_to@[reg2] == *v2,
                            forall|m: int| 0 <= m < j ==> v1@[i as int] != v2@[m],
                        decreases v2@.len() - j,
                    {
                        if v1[i] == v2[j] {
                            assert(self.targets()[reg1] == v1@.to_set());
                            assert(self.targets()[reg2] == v2@.to_set());
                            assert(v1@.contains(v1@[i as int]));
                            assert(v2@.contains(v2@[j as int]));
                            assert(self.targets()[reg1].contains(v1@[i as int]));
                            assert(self.targets()[reg2].contains(v2@[j as int]));
                            return true;
                        }
                        j = j + 1;
                    }
                    i = i + 1;
                }
                assert(self.targets()[reg1] == v1@.to_set());
                assert(self.targets()[reg2] == v2@.to_set());
                assert forall|a: u32| !(self.targets()[reg1].contains(a) && self.targets()[reg2].contains(a)) by {
                    if self.targets()[reg1].contains(a) && self.targets()[reg2].contains(a) {
                        assert(v1@.contains(a));
                        assert(v2@.contains(a));
                        let k = choose|k: int| 0 <= k < v1@.len() && v1@[k] == a;
                        let m = choose|m: int| 0 <= m < v2@.len() && v2@[m] == a;
                    }
                }
                false
            },
            _ => false,
        }
    }
}

impl Default for PointerAnalysis {
    fn default() -> (a: PointerAnalysis)
        ensures
            a.targets() == Map::<u8, Set<u32>>::empty(),
            a.alias_sets() == Map::<u8, Set<u8>>::empty(),
    {
        PointerAnalysis::new()
    }
}

/// Loads, stores and arithmetic may involve pointers.
fn is_pointer_operation(inst: &DecodedInstruction) -> (b: bool)
    ensures
        b == (inst@.instruction_type == InstructionType::Load || inst@.instruction_type
            == InstructionType::Store || inst@.instruction_type == InstructionType::Arithmetic),
{
    match inst.instruction.instruction_type {
        InstructionType::Load | InstructionType::Store | InstructionType::Arithmetic => true,
        _ => false,
    }
}

/// Updates points-to sets and aliases for one instruction.
fn analyze_pointer_operation(analysis: &mut PointerAnalysis, inst: &DecodedInstruction)
    ensures
        (final(analysis).targets(), final(analysis).alias_sets()) == pointer_step(
            old(analysis).targets(),
            old(analysis).alias_sets(),
            inst@,
        ),
{
    let ghost pt = analysis.targets();
    let ghost al = analysis.alias_sets();
    let ops = &inst.instruction.operands;
    match inst.instruction.instruction_type {
        InstructionType::Load | InstructionType::Store => {
            if let Some(Operand::Register(base_reg)) = ops.get_opt(1) {
                let mut targets = analysis.targets_of(base_reg);
                let target = match ops.get_opt(2) {
                    Some(Operand::Immediate(offset)) => inst.address.wrapping_add(offset as u32),
                    _ => RAM_BASE,
                };
                add_unique(&mut targets, target);
                analysis.put_targets(base_reg, targets);
            }
        },
        InstructionType::Arithmetic => {
            let opcode = inst.instruction.opcode;
            if (opcode == 14 || opcode == 15 || opcode == 31) && ops.len() > 2 {
                match (ops.get(0), ops.get(1), ops.get(2)) {
                    (Operand::Register(dest), Operand::Register(src), Operand::Immediate(imm)) => {
                        if analysis.points_to.contains_key(&src) {
                            let src_targets = analysis.targets_of(src);
                            let mut dest_targets = analysis.targets_of(dest);
                            let off = imm as u32;
                            let mut j: usize = 0;
                            proof {
                                assert(shifted(src_targets@.subrange(0, 0).to_set(), off) =~= Set::<u32>::empty());
                                assert(dest_targets@.to_set().union(Set::<u32>::empty()) =~= dest_targets@.to_set());
                            }
                            while j < src_targets.len()
                                invariant
                                    j <= src_targets@.len(),
                                    dest_targets@.to_set() == set_of(pt, dest).union(
                                        shifted(src_targets@.subrange(0, j as int).to_set(), off),
                                    ),
                                decreases src_targets@.len() - j,
                            {
                                let ghost before = dest_targets@.to_set();
                                add_unique(&mut dest_targets, src_targets[j].wrapping_add(off));
                                proof {
                                    lemma_prefix_set(src_targets@, j as int);
                                    lemma_shifted_insert(
                                        src_targets@.subrange(0, j as int).to_set(),
                                        src_targets@[j as int],
                                        off,
                                    );
                                    assert(dest_targets@.to_set() =~= set_of(pt, dest).union(
                                        shifted(src_targets@.subrange(0, j + 1).to_set(), off),
                                    ));
                                }
                                j = j + 1;
                            }
                            assert(src_targets@.subrange(0, src_targets@.len() as int) =~= src_targets@);
                            let mut dest_aliases = analysis.aliases_of(dest);
                            add_unique_reg(&mut dest_aliases, src);
                            analysis.put_targets(dest, dest_targets);
                            analysis.put_aliases(dest, dest_aliases);
                        } else if imm > 0 {
                            let mut dest_targets = analysis.targets_of(dest);
                            add_unique(&mut dest_targets, RAM_BASE);
                            analysis.put_targets(dest, dest_targets);
                        }
                    },
                    (Operand::Register(dest), Operand::Register(src), Operand::Register(src2)) => {
                        if analysis.points_to.contains_key(&src) {
                            let src_targets = analysis.targets_of(src);
                            let mut dest_targets = analysis.targets_of(dest);
                            let mut j: usize = 0;
                            proof {
                                assert(src_targets@.subrange(0, 0).to_set() =~= Set::<u32>::empty());
                                assert(dest_targets@.to_set().union(Set::<u32>::empty()) =~= dest_targets@.to_set());
                            }
                            while j < src_targets.len()
                                invariant
                                    j <= src_targets@.len(),
                                    dest_targets@.to_set() == set_of(pt, dest).union(
                                        src_targets@.subrange(0, j as int).to_set(),
                                    ),
                                decreases src_targets@.len() - j,
                            {
                                add_unique(&mut dest_targets, src_targets[j]);
                                proof {
                                    lemma_prefix_set(src_targets@, j as int);
                                    assert(dest_targets@.to_set() =~= set_of(pt, dest).union(
                                        src_targets@.subrange(0, j + 1).to_set(),
                                    ));
                                }
                                j = j + 1;
                            }
                            assert(src_targets@.subrange(0, src_targets@.len() as int) =~= src_targets@);
                            let mut dest_aliases = analysis.aliases_of(dest);
                            add_unique_reg(&mut dest_aliases, src);
                            add_unique_reg(&mut dest_aliases, src2);
                            analysis.put_targets(dest, dest_targets);
                            analysis.put_aliases(dest, dest_aliases);
                        }
                    },
                    _ => {},
                }
            }
        },
        _ => {},
    }
}

} // verus!
