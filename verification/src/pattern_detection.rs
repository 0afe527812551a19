//! Unusual code patterns worth a closer look: stores into code, jump
//! tables, indirect calls, exception vectors and interrupt-handler
//! prologues. Confidence is given in hundredths.
use vstd::prelude::*;
use crate::decoder::{DecodedInstruction, InstructionType, InstructionView, Operand, views};
use crate::codegen::emit::hex8;
use crate::text::append_hex;

verus! {

/// Kind of pattern.
#[derive(Debug, Clone, Copy, PartialEq, Eq, Structural)]
pub enum PatternType {
    SelfModifyingCode,
    JumpTable,
    IndirectCall,
    ExceptionHandler,
    InterruptHandler,
    UnusualMemoryAccess,
}

/// A pattern found at an instruction, with details by name.
#[derive(Debug, Clone)]
pub struct DetectedPattern {
    pub pattern_type: PatternType,
    pub address: u32,
    /// Confidence in hundredths (100 is certain).
    pub confidence: u8,
    pub metadata: Vec<(String, String)>,
}

/// The data of a pattern.
pub struct PatternView {
    pub pattern_type: PatternType,
    pub address: u32,
    pub confidence: u8,
    pub metadata: Seq<(Seq<char>, Seq<char>)>,
}

impl View for DetectedPattern {
    type V = PatternView;

    open spec fn view(&self) -> PatternView {
        PatternView {
            pattern_type: self.pattern_type,
            address: self.address,
            confidence: self.confidence,
            metadata: self.metadata@.map_values(|e: (String, String)| (e.0@, e.1@)),
        }
    }
}

/// The views of a sequence of patterns.
pub open spec fn pattern_views(s: Seq<DetectedPattern>) -> Seq<PatternView> {
    s.map_values(|p: DetectedPattern| p@)
}

/// A pattern without details.
pub open spec fn plain(t: PatternType, address: u32, confidence: u8) -> PatternView {
    PatternView { pattern_type: t, address, confidence, metadata: seq![] }
}

/// A store whose second operand is an address in main RAM.
pub open spec fn store_target(v: InstructionView) -> Option<u32> {
    if v.instruction_type == InstructionType::Store && v.operands.len() > 1
        && v.operands[1] is Address {
        let a = v.operands[1]->Address_0;
        if 0x8000_0000 <= a && a < 0x8180_0000 {
            Some(a)
        } else {
            None
        }
    } else {
        None
    }
}

/// Stores into main RAM, where code lives, in order.
pub open spec fn self_modifying(vs: Seq<InstructionView>) -> Seq<PatternView>
    decreases vs.len(),
{
    if vs.len() == 0 {
        seq![]
    } else {
        let rest = self_modifying(vs.drop_last());
        match store_target(vs.last()) {
            Some(a) => rest.push(
                PatternView {
                    pattern_type: PatternType::SelfModifyingCode,
                    address: vs.last().address,
                    confidence: 70,
                    metadata: seq![("target_address"@, "0x"@ + hex8(a))],
                },
            ),
            None => rest,
        }
    }
}

/// Whether instruction `i` is a system instruction followed by a branch of
/// primary opcode 19 (`mtctr` then `bctr`).
pub open spec fn jump_table_at(vs: Seq<InstructionView>, i: int) -> bool {
    i + 1 < vs.len() && vs[i].instruction_type == InstructionType::System && vs[i + 1].instruction_type
        == InstructionType::Branch && vs[i + 1].opcode == 19
}

/// Whether an instruction is a linking branch of primary opcode 19 or 16.
pub open spec fn indirect_call(v: InstructionView) -> bool {
    v.instruction_type == InstructionType::Branch && (v.opcode == 19 || v.opcode == 16) && v.raw & 1
        != 0
}

/// The exception vector addresses.
pub open spec fn exception_vectors() -> Seq<u32> {
    seq![
        0x100u32,
        0x200u32,
        0x300u32,
        0x400u32,
        0x500u32,
        0x600u32,
        0x700u32,
        0x800u32,
        0x900u32,
        0xC00u32,
        0xD00u32,
        0xE00u32,
    ]
}

/// Whether the five instructions from `i` on, with at least one more after
/// them, hold a store and a move of primary opcode 31 (`mflr`).
pub open spec fn interrupt_prologue_at(vs: Seq<InstructionView>, i: int) -> bool {
    &&& i + 5 < vs.len()
    &&& exists|k: int| i <= k < i + 5 && vs[k].instruction_type == InstructionType::Store
    &&& exists|k: int|
        i <= k < i + 5 && vs[k].instruction_type == InstructionType::Move && vs[k].opcode == 31
}

/// Patterns from the first `n` instructions found by a per-instruction
/// test, in order.
pub open spec fn found_where(
    vs: Seq<InstructionView>,
    n: int,
    t: PatternType,
    confidence: u8,
    test: spec_fn(int) -> bool,
) -> Seq<PatternView>
    decreases n,
{
    if n <= 0 {
        seq![]
    } else {
        let rest = found_where(vs, n - 1, t, confidence, test);
        if test(n - 1) {
            rest.push(plain(t, vs[n - 1].address, confidence))
        } else {
            rest
        }
    }
}

/// Every pattern of a sequence, detectors in order.
pub open spec fn all_patterns(vs: Seq<InstructionView>) -> Seq<PatternView> {
    let n = vs.len() as int;
    self_modifying(vs) + found_where(vs, n, PatternType::JumpTable, 80, |i: int| jump_table_at(vs, i))
        + found_where(vs, n, PatternType::IndirectCall, 90, |i: int| indirect_call(vs[i]))
        + found_where(
        vs,
        n,
        PatternType::ExceptionHandler,
        100,
        |i: int| exception_vectors().contains(vs[i].address),
    ) + found_where(vs, n, PatternType::InterruptHandler, 60, |i: int| interrupt_prologue_at(vs, i))
}

/// Why a jump table could not be rebuilt.
#[derive(Debug, Clone, Copy, PartialEq, Eq, Structural)]
pub enum PatternError {
    InstructionNotFound,
}

/// Finds unusual patterns in instruction sequences.
pub struct PatternDetector {
    patterns: Vec<DetectedPattern>,
}

impl PatternDetector {
    /// The patterns found, in order.
    pub closed spec fn found(&self) -> Seq<PatternView> {
        pattern_views(self.patterns@)
    }

    /// A detector with no patterns.
    pub fn new() -> (d: PatternDetector)
        ensures
            d.found() == Seq::<PatternView>::empty(),
    {
        let d = PatternDetector { patterns: Vec::new() };
        assert(d.found() =~= Seq::<PatternView>::empty());
        d
    }

    /// Appends a pattern without details.
    fn push_plain(&mut self, t: PatternType, address: u32, confidence: u8)
        ensures
            final(self).found() == old(self).found().push(plain(t, address, confidence)),
    {
        let ghost before = self.patterns@;
        let p = DetectedPattern { pattern_type: t, address, confidence, metadata: Vec::new() };
        assert(p@.metadata =~= Seq::<(Seq<char>, Seq<char>)>::empty());
        self.patterns.push(p);
        assert(pattern_views(self.patterns@) =~= pattern_views(before).push(p@));
    }

    /// Stores into main RAM.
    fn detect_self_modifying_code(&mut self, instructions: &[DecodedInstruction])
        ensures
            final(self).found() == old(self).found() + self_modifying(views(instructions@)),
    {
        let ghost vs = views(instructions@);
        let ghost f0 = self.found();
        let mut i: usize = 0;
        while i < instructions.len()
            invariant
                i <= instructions@.len(),
                vs == views(instructions@),
                self.found() == f0 + self_modifying(vs.take(i as int)),
            decreases instructions@.len() - i,
        {
            let inst = &instructions[i];
            assert(vs[i as int] == inst@);
            assert(vs.take(i + 1).drop_last() =~= vs.take(i as int));
            let ops = &inst.instruction.operands;
            match inst.instruction.instruction_type {
                InstructionType::Store => {
                    if ops.len() > 1 {
                        match ops.get(1) {
                            Operand::Address(addr) => {
                                if addr >= 0x8000_0000 && addr < 0x8180_0000 {
                                    let mut text = String::from_str("0x");
                                    append_hex(&mut text, addr, 8);
                                    let mut metadata: Vec<(String, String)> = Vec::new();
                                    metadata.push((String::from_str("target_address"), text));
                                    let p = DetectedPattern {
                                        pattern_type: PatternType::SelfModifyingCode,
                                        address: inst.address,
                                        confidence: 70,
                                        metadata,
                                    };
                                    proof {
                                        reveal_strlit("target_address");
                                    }
                                    assert(p@.metadata =~= seq![("target_address"@, "0x"@ + hex8(addr))]);
                                    let ghost before = self.patterns@;
                                    self.patterns.push(p);
                                    assert(pattern_views(self.patterns@) =~= pattern_views(before).push(p@));
                                }
                            },
                            _ => {},
                        }
                    }
                },
                _ => {},
            }
            i = i + 1;
        }
        assert(vs.take(i as int) =~= vs);
    }

    /// System instructions followed by a branch of primary opcode 19.
    fn detect_jump_tables(&mut self, instructions: &[DecodedInstruction])
        ensures
            final(self).found() == old(self).found() + found_where(
                views(instructions@),
                instructions@.len() as int,
                PatternType::JumpTable,
                80,
                |i: int| jump_table_at(views(instructions@), i),
            ),
    {
        let ghost vs = views(instructions@);
        let ghost f0 = self.found();
        let ghost test = |i: int| jump_table_at(vs, i);
        let mut i: usize = 0;
        while i < instructions.len()
            invariant
                i <= instructions@.len(),
                vs == views(instructions@),
                test == (|i: int| jump_table_at(vs, i)),
                self.found() == f0 + found_where(vs, i as int, PatternType::JumpTable, 80, test),
            decreases instructions@.len() - i,
        {
            let inst = &instructions[i];
            assert(vs[i as int] == inst@);
            if i + 1 < instructions.len() {
                let next = &instructions[i + 1];
                assert(vs[i + 1] == next@);
                match (inst.instruction.instruction_type, next.instruction.instruction_type) {
                    (InstructionType::System, InstructionType::Branch) => {
                        if next.instruction.opcode == 19 {
                            self.push_plain(PatternType::JumpTable, inst.address, 80);
                        }
                    },
                    _ => {},
                }
            }
            i = i + 1;
        }
    }

    /// Linking branches of primary opcode 19 or 16.
    fn detect_indirect_calls(&mut self, instructions: &[DecodedInstruction])
        ensures
            final(self).found() == old(self).found() + found_where(
                views(instructions@),
                instructions@.len() as int,
                PatternType::IndirectCall,
                90,
                |i: int| indirect_call(views(instructions@)[i]),
            ),
    {
        let ghost vs = views(instructions@);
        let ghost f0 = self.found();
        let ghost test = |i: int| indirect_call(vs[i]);
        let mut i: usize = 0;
        while i < instructions.len()
            invariant
                i <= instructions@.len(),
                vs == views(instructions@),
                test == (|i: int| indirect_call(vs[i])),
                self.found() == f0 + found_where(vs, i as int, PatternType::IndirectCall, 90, test),
            decreases instructions@.len() - i,
        {
            let inst = &instructions[i];
            assert(vs[i as int] == inst@);
            match inst.instruction.instruction_type {
                InstructionType::Branch => {
                    if inst.instruction.opcode == 19 || inst.instruction.opcode == 16 {
                        if (inst.raw & 1) != 0 {
                            self.push_plain(PatternType::IndirectCall, inst.address, 90);
                        }
                    }
                },
                _ => {},
            }
            i = i + 1;
        }
    }

    /// Whether an address is an exception vector.
    fn is_exception_vector(a: u32) -> (b: bool)
        ensures
            b == exception_vectors().contains(a),
    {
        let vectors: [u32; 12] = [
            0x100,
            0x200,
            0x300,
            0x400,
            0x500,
            0x600,
            0x700,
            0x800,
            0x900,
            0xC00,
            0xD00,
            0xE00,
        ];
        assert(vectors@ =~= exception_vectors());
        let mut k: usize = 0;
        while k < 12
            invariant
                k <= 12,
                vectors@ == exception_vectors(),
                forall|j: int| 0 <= j < k ==> vectors@[j] != a,
            decreases 12 - k,
        {
            if vectors[k] == a {
                assert(exception_vectors()[k as int] == a);
                return true;
            }
            k = k + 1;
        }
        false
    }

    /// Instructions at exception vectors.
    fn detect_exception_handlers(&mut self, instructions: &[DecodedInstruction])
        ensures
            final(self).found() == old(self).found() + found_where(
                views(instructions@),
                instructions@.len() as int,
                PatternType::ExceptionHandler,
                100,
                |i: int| exception_vectors().contains(views(instructions@)[i].address),
            ),
    {
        let ghost vs = views(instructions@);
        let ghost f0 = self.found();
        let ghost test = |i: int| exception_vectors().contains(vs[i].address);
        let mut i: usize = 0;
        while i < instructions.len()
            invariant
                i <= instructions@.len(),
                vs == views(instructions@),
                test == (|i: int| exception_vectors().contains(vs[i].address)),
                self.found() == f0 + found_where(vs, i as int, PatternType::ExceptionHandler, 100, test),
            decreases instructions@.len() - i,
        {
            let inst = &instructions[i];
            assert(vs[i as int] == inst@);
            if Self::is_exception_vector(inst.address) {
                self.push_plain(PatternType::ExceptionHandler, inst.address, 100);
            }
            i = i + 1;
        }
    }

    /// Whether the five instructions from `i` hold a store and an `mflr`.
    fn prologue_at(instructions: &[DecodedInstruction], i: usize) -> (b: bool)
        requires
            i + 5 < instructions@.len(),
        ensures
            b == interrupt_prologue_at(views(instructions@), i as int),
    {
        let ghost vs = views(instructions@);
        let n = instructions.len();
        let end = i + 5;
        let mut has_save = false;
        let mut has_mflr = false;
        let mut k: usize = i;
        while k < end
            invariant
                end == i + 5,
                i + 5 < instructions@.len(),
                vs == views(instructions@),
                i <= k <= i + 5,
                has_save == exists|j: int| i <= j < k && vs[j].instruction_type == InstructionType::Store,
                has_mflr == exists|j: int|
                    i <= j < k && vs[j].instruction_type == InstructionType::Move && vs[j].opcode == 31,
            decreases i + 5 - k,
        {
            let inst = &instructions[k];
            assert(vs[k as int] == inst@);
            match inst.instruction.instruction_type {
                InstructionType::Store => {
                    has_save = true;
                },
                InstructionType::Move => {
                    if inst.instruction.opcode == 31 {
                        has_mflr = true;
                    }
                },
                _ => {},
            }
            k = k + 1;
        }
        has_save && has_mflr
    }

    /// Interrupt-handler prologues: a store and an `mflr` among five
    /// instructions.
    fn detect_interrupt_handlers(&mut self, instructions: &[DecodedInstruction])
        ensures
            final(self).found() == old(self).found() + found_where(
                views(instructions@),
                instructions@.len() as int,
                PatternType::InterruptHandler,
                60,
                |i: int| interrupt_prologue_at(views(instructions@), i),
            ),
    {
        let ghost vs = views(instructions@);
        let ghost f0 = self.found();
        let ghost test = |i: int| interrupt_prologue_at(vs, i);
        let mut i: usize = 0;
        while i < instructions.len()
            invariant
                i <= instructions@.len(),
                vs == views(instructions@),
                test == (|i: int| interrupt_prologue_at(vs, i)),
                self.found() == f0 + found_where(vs, i as int, PatternType::InterruptHandler, 60, test),
            decreases instructions@.len() - i,
        {
            let inst = &instructions[i];
            assert(vs[i as int] == inst@);
            if instructions.len() - i > 5 && Self::prologue_at(instructions, i) {
                self.push_plain(PatternType::InterruptHandler, inst.address, 60);
            }
            i = i + 1;
        }
    }

    /// Replaces the patterns with those found in `instructions`: stores
    /// into code, then jump tables, indirect calls, exception handlers and
    /// interrupt handlers, each in instruction order.
    pub fn detect_patterns(&mut self, instructions: &[DecodedInstruction])
        ensures
            final(self).found() == all_patterns(views(instructions@)),
    {
        self.patterns = Vec::new();
        assert(self.found() =~= Seq::<PatternView>::empty());
        self.detect_self_modifying_code(instructions);
        self.detect_jump_tables(instructions);
        self.detect_indirect_calls(instructions);
        self.detect_exception_handlers(instructions);
        self.detect_interrupt_handlers(instructions);
        assert(self.found() =~= all_patterns(views(instructions@)));
    }

    /// The patterns found.
    pub fn get_patterns(&self) -> (s: &[DetectedPattern])
        ensures
            pattern_views(s@) == self.found(),
    {
        self.patterns.as_slice()
    }

    /// The first pattern found at `address`.
    pub fn has_pattern_at(&self, address: u32) -> (r: Option<&DetectedPattern>)
        ensures
            match r {
                Some(p) => exists|i: int|
                    0 <= i < self.found().len() && self.found()[i] == p@ && p.address == address
                        && forall|j: int| 0 <= j < i ==> self.found()[j].address != address,
                None => forall|i: int| 0 <= i < self.found().len() ==> self.found()[i].address != address,
            },
    {
        let mut i: usize = 0;
        while i < self.patterns.len()
            invariant
                i <= self.patterns@.len(),
                forall|j: int| 0 <= j < i ==> self.found()[j].address != address,
            decreases self.patterns@.len() - i,
        {
            assert(self.found()[i as int] == self.patterns@[i as int]@);
            if self.patterns[i].address == address {
                return Some(&self.patterns[i]);
            }
            i = i + 1;
        }
        None
    }

    /// The patterns of one kind, in order.
    pub fn get_patterns_of_type(&self, pattern_type: PatternType) -> (r: Vec<&DetectedPattern>)
        ensures
            r@.map_values(|p: &DetectedPattern| p@) == self.found().filter(
                |p: PatternView| p.pattern_type == pattern_type,
            ),
    {
        let mut r: Vec<&DetectedPattern> = Vec::new();
        let ghost f = self.found();
        let mut i: usize = 0;
        while i < self.patterns.len()
            invariant
                i <= self.patterns@.len(),
                f == self.found(),
                r@.map_values(|p: &DetectedPattern| p@) == f.take(i as int).filter(
                    |p: PatternView| p.pattern_type == pattern_type,
                ),
            decreases self.patterns@.len() - i,
        {
            let p = &self.patterns[i];
            assert(f[i as int] == p@);
            assert(f.take(i + 1).drop_last() =~= f.take(i as int));
            reveal(Seq::filter);
            let ghost before = r@;
            if p.pattern_type == pattern_type {
                r.push(p);
                assert(r@.map_values(|p: &DetectedPattern| p@) =~= before.map_values(
                    |p: &DetectedPattern| p@,
                ).push(p@));
            }
            i = i + 1;
        }
        assert(f.take(i as int) =~= f);
        r
    }
}

impl Default for PatternDetector {
    fn default() -> (d: PatternDetector)
        ensures
            d.found() == Seq::<PatternView>::empty(),
    {
        PatternDetector::new()
    }
}

/// Rebuilds the targets of the jump table of a pattern: the pattern's
/// instruction must be among the instructions; no targets are recovered
/// yet.
pub fn reconstruct_jump_table(instructions: &[DecodedInstruction], pattern: &DetectedPattern) -> (r: Result<
    Vec<u32>,
    PatternError,
>)
    ensures
        (exists|i: int| 0 <= i < instructions@.len() && instructions@[i].address == pattern.address)
            ==> (r matches Ok(v) && v@.len() == 0),
        !(exists|i: int| 0 <= i < instructions@.len() && instructions@[i].address == pattern.address)
            ==> r == Err::<Vec<u32>, PatternError>(PatternError::InstructionNotFound),
{
    let mut i: usize = 0;
    while i < instructions.len()
        invariant
            i <= instructions@.len(),
            forall|j: int| 0 <= j < i ==> instructions@[j].address != pattern.address,
        decreases instructions@.len() - i,
    {
        if instructions[i].address == pattern.address {
            return Ok(Vec::new());
        }
        i = i + 1;
    }
    Err(PatternError::InstructionNotFound)
}

} // verus!
