//! PowerPC instruction decoding.
//!
//! A 32-bit instruction word is classified by its primary opcode (bits 26-31)
//! and, for primary opcodes 31 and 63, by its extended opcode (bits 1-10).
//! Each class fixes an instruction category and an operand layout; the
//! operands are then read out of the word's bit fields.
use vstd::prelude::*;
use smallvec::SmallVec;

verus! {

/// Instruction category.
#[derive(Debug, Clone, Copy, PartialEq, Eq, Structural, Hash)]
pub enum InstructionType {
    Arithmetic,
    Branch,
    Load,
    Store,
    Compare,
    Move,
    System,
    FloatingPoint,
    ConditionRegister,
    Shift,
    Rotate,
    Unknown,
}

impl InstructionType {
    /// The category's name, as `Debug` prints it.
    pub open spec fn name_text(self) -> Seq<char> {
        match self {
            InstructionType::Arithmetic => "Arithmetic"@,
            InstructionType::Branch => "Branch"@,
            InstructionType::Load => "Load"@,
            InstructionType::Store => "Store"@,
            InstructionType::Compare => "Compare"@,
            InstructionType::Move => "Move"@,
            InstructionType::System => "System"@,
            InstructionType::FloatingPoint => "FloatingPoint"@,
            InstructionType::ConditionRegister => "ConditionRegister"@,
            InstructionType::Shift => "Shift"@,
            InstructionType::Rotate => "Rotate"@,
            InstructionType::Unknown => "Unknown"@,
        }
    }

    /// The category's name.
    pub fn name(&self) -> (s: &'static str)
        ensures
            s@ == self.name_text(),
    {
        match self {
            InstructionType::Arithmetic => "Arithmetic",
            InstructionType::Branch => "Branch",
            InstructionType::Load => "Load",
            InstructionType::Store => "Store",
            InstructionType::Compare => "Compare",
            InstructionType::Move => "Move",
            InstructionType::System => "System",
            InstructionType::FloatingPoint => "FloatingPoint",
            InstructionType::ConditionRegister => "ConditionRegister",
            InstructionType::Shift => "Shift",
            InstructionType::Rotate => "Rotate",
            InstructionType::Unknown => "Unknown",
        }
    }
}

/// A decoded operand.
#[derive(Debug, Clone, Copy, PartialEq, Eq, Structural)]
pub enum Operand {
    Register(u8),
    FpRegister(u8),
    Immediate(i16),
    Immediate32(i32),
    Address(u32),
    Condition(u8),
    SpecialRegister(u16),
    ShiftAmount(u8),
    Mask(u32),
}

/// The operand list of an instruction, kept in a small inline vector.
#[verifier::external_body]
pub struct Operands {
    inner: SmallVec<[Operand; 4]>,
}

/// The operands held by an `Operands` value, in order.
pub uninterp spec fn operand_seq(v: &Operands) -> Seq<Operand>;

impl Operands {
    pub open spec fn view(&self) -> Seq<Operand> {
        operand_seq(self)
    }

    /// An empty operand list (`SmallVec::new`).
    #[verifier::external_body]
    pub fn new() -> (r: Operands)
        ensures
            operand_seq(&r) == Seq::<Operand>::empty(),
    {
        Operands { inner: SmallVec::new() }
    }

    /// An operand list holding a copy of `s` (`SmallVec::from_slice`).
    #[verifier::external_body]
    pub fn from_slice(s: &[Operand]) -> (r: Operands)
        ensures
            operand_seq(&r) == s@,
    {
        Operands { inner: SmallVec::from_slice(s) }
    }

    /// Number of operands (`SmallVec::len`).
    #[verifier::external_body]
    pub fn len(&self) -> (n: usize)
        ensures
            n == operand_seq(self).len(),
    {
        self.inner.len()
    }

    /// The operand at position `i` (`SmallVec` indexing).
    #[verifier::external_body]
    pub fn get(&self, i: usize) -> (o: Operand)
        requires
            i < operand_seq(self).len(),
        ensures
            o == operand_seq(self)[i as int],
    {
        self.inner[i]
    }

    /// Appends an operand (`SmallVec::push`).
    #[verifier::external_body]
    pub fn push(&mut self, o: Operand)
        ensures
            operand_seq(final(self)) == operand_seq(old(self)).push(o),
    {
        self.inner.push(o)
    }

    /// A second operand list with the same contents (`SmallVec::clone`).
    #[verifier::external_body]
    pub fn duplicate(&self) -> (r: Operands)
        ensures
            operand_seq(&r) == operand_seq(self),
    {
        Operands { inner: self.inner.clone() }
    }

    pub fn is_empty(&self) -> (b: bool)
        ensures
            b == (operand_seq(self).len() == 0),
    {
        self.len() == 0
    }

    /// The first operand, if any.
    pub fn first(&self) -> (o: Option<Operand>)
        ensures
            o == (if operand_seq(self).len() > 0 {
                Some(operand_seq(self)[0])
            } else {
                None::<Operand>
            }),
    {
        if self.len() > 0 {
            Some(self.get(0))
        } else {
            None
        }
    }

    /// The operand at `i`, if there is one.
    pub fn get_opt(&self, i: usize) -> (o: Option<Operand>)
        ensures
            o == (if i < operand_seq(self).len() {
                Some(operand_seq(self)[i as int])
            } else {
                None::<Operand>
            }),
    {
        if i < self.len() {
            Some(self.get(i))
        } else {
            None
        }
    }

    /// The operands as a `Vec`.
    pub fn to_vec(&self) -> (v: Vec<Operand>)
        ensures
            v@ == operand_seq(self),
    {
        let mut v: Vec<Operand> = Vec::new();
        let n = self.len();
        let mut i: usize = 0;
        while i < n
            invariant
                n == operand_seq(self).len(),
                i <= n,
                v@ == operand_seq(self).subrange(0, i as int),
            decreases n - i,
        {
            v.push(self.get(i));
            i = i + 1;
        }
        v
    }
}

/// A decoded instruction: primary opcode, category and operands.
pub struct Instruction {
    pub opcode: u32,
    pub instruction_type: InstructionType,
    pub operands: Operands,
}

/// A decoded instruction together with its raw word and its address.
pub struct DecodedInstruction {
    pub instruction: Instruction,
    pub raw: u32,
    pub address: u32,
}

impl Instruction {
    /// A copy of this instruction.
    pub fn duplicate(&self) -> (r: Instruction)
        ensures
            r.opcode == self.opcode,
            r.instruction_type == self.instruction_type,
            r.operands@ == self.operands@,
    {
        Instruction {
            opcode: self.opcode,
            instruction_type: self.instruction_type,
            operands: self.operands.duplicate(),
        }
    }
}

/// The data of a decoded instruction, with its operands as a sequence.
pub struct InstructionView {
    pub raw: u32,
    pub address: u32,
    pub opcode: u32,
    pub instruction_type: InstructionType,
    pub operands: Seq<Operand>,
}

impl View for DecodedInstruction {
    type V = InstructionView;

    open spec fn view(&self) -> InstructionView {
        InstructionView {
            raw: self.raw,
            address: self.address,
            opcode: self.instruction.opcode,
            instruction_type: self.instruction.instruction_type,
            operands: self.instruction.operands@,
        }
    }
}

/// The views of a sequence of decoded instructions.
pub open spec fn views(s: Seq<DecodedInstruction>) -> Seq<InstructionView> {
    s.map_values(|d: DecodedInstruction| d@)
}

impl DecodedInstruction {
    /// A copy of this decoded instruction.
    pub fn duplicate(&self) -> (r: DecodedInstruction)
        ensures
            r@ == self@,
    {
        DecodedInstruction {
            instruction: self.instruction.duplicate(),
            raw: self.raw,
            address: self.address,
        }
    }
}

/// How the operands of an instruction class are laid out in the word.
#[derive(Debug, Clone, Copy, PartialEq, Eq, Structural)]
pub enum OperandLayout {
    /// No operands.
    Empty,
    /// `[RT, RA, SIMM]`
    RegRegImm,
    /// `[FRT, RA, D]`
    FpRegImm,
    /// `[TO, RA, SIMM]`
    TrapImm,
    /// `[BF, RA, SIMM]`
    CompareImm,
    /// `[BF, L, RA, SIMM]`
    CompareImmLong,
    /// `[LI, AA, LK]`
    BranchLong,
    /// `[BO, BI, BD, AA, LK]`
    BranchCond,
    /// `[BO, BI, LK]`
    BranchCondReg,
    /// `[RS, RA, SH, MASK]`
    RotateImm,
    /// `[RS, RA, RB, MASK]`
    RotateReg,
    /// `[RT, RA, RB]`
    RegRegReg,
    /// `[RT, RA]`
    RegReg,
    /// `[RT]`
    Reg,
    /// `[RS, RA, SH]` with SH taken from the RB field
    ShiftForm,
    /// `[BF, RA, RB]`
    CompareReg,
    /// `[FRT, RA, RB]`
    FpIndexed,
    /// `[r0]`: branch through the link register
    LinkBranch,
    /// `[r9]`: branch through the count register
    CountBranch,
    /// `[BO, BI]`
    BoBi,
    /// `[FRT, FRA, FRB]`
    FpThree,
    /// `[FRT, FRA, FRC, FRB]`
    FpFour,
    /// `[FRT, FRB]`
    FpTwo,
    /// `[FRT]`
    FpOne,
    /// `[BF, FRB]`
    CondFp,
    /// `[BF, FRA, FRB]`
    CondFpFp,
    /// `[RT, SPR]`
    SprMove,
    /// `[RT, CRM]`
    RegCrm,
    /// `[BT, BA, BB]`
    CrBits,
    /// `[RA, RB]`
    Indexed,
    /// `[RT, RA, NB]`
    StringImm,
}

// ---------------------------------------------------------------------------
// Bit fields
// ---------------------------------------------------------------------------

/// The 5-bit field of `w` that starts at bit `shift`.
pub open spec fn field5(w: u32, shift: u32) -> u8 {
    ((w >> shift) & 0x1F) as u8
}

/// The low 16 bits of `w`, read as a signed value.
pub open spec fn simm(w: u32) -> i16 {
    (w & 0xFFFF) as i16
}

/// The 3-bit condition-register field BF (bits 23-25).
pub open spec fn crf(w: u32) -> u8 {
    ((w >> 23) & 0x7) as u8
}

/// The LI field of an unconditional branch: its 24 bits sign-extended, as a
/// displacement in words.
pub open spec fn branch_li(w: u32) -> i32 {
    (((w & 0x3FFFFFC) << 6u32) as i32) >> 8i32
}

/// The BD field of a conditional branch, sign-extended and shifted.
pub open spec fn branch_bd(w: u32) -> i32 {
    (((w & 0xFFFC) as i16) >> 2) as i32
}

/// The 10-bit SPR field as the decoder assembles it.
pub open spec fn spr_field(w: u32) -> u16 {
    ((((w >> 16) & 0x1F) << 5) | ((w >> 11) & 0x1F)) as u16
}

/// Whether bit `i` (bit 0 being the most significant) lies in the rotate mask
/// running from `mb` to `me`, wrapping around when `mb > me`.
pub open spec fn in_rotate_mask(mb: u32, me: u32, i: u32) -> bool {
    if mb <= me {
        mb <= i && i <= me
    } else {
        i <= me || mb <= i
    }
}

/// Bits `lo` to `hi` (big-endian bit numbering) set.
pub open spec fn bit_range(lo: u32, hi: u32) -> u32 {
    (0xFFFF_FFFFu32 >> lo) & (0xFFFF_FFFFu32 << ((31 - hi) as u32))
}

/// The rotate mask, in closed form.
pub open spec fn rotate_mask(mb: u32, me: u32) -> u32 {
    if mb <= me {
        bit_range(mb, me)
    } else {
        bit_range(0, me) | bit_range(mb, 31)
    }
}

/// The operands that a layout reads out of word `w`.
pub open spec fn layout_operands(layout: OperandLayout, w: u32) -> Seq<Operand> {
    let rt = field5(w, 21);
    let ra = field5(w, 16);
    let rb = field5(w, 11);
    let rc = field5(w, 6);
    match layout {
        OperandLayout::Empty => seq![],
        OperandLayout::RegRegImm => seq![
            Operand::Register(rt),
            Operand::Register(ra),
            Operand::Immediate(simm(w)),
        ],
        OperandLayout::FpRegImm => seq![
            Operand::FpRegister(rt),
            Operand::Register(ra),
            Operand::Immediate(simm(w)),
        ],
        OperandLayout::TrapImm => seq![
            Operand::Condition(rc),
            Operand::Register(ra),
            Operand::Immediate(simm(w)),
        ],
        OperandLayout::CompareImm => seq![
            Operand::Condition(crf(w)),
            Operand::Register(ra),
            Operand::Immediate(simm(w)),
        ],
        OperandLayout::CompareImmLong => seq![
            Operand::Condition(crf(w)),
            Operand::Immediate(((w >> 21) & 1) as i16),
            Operand::Register(ra),
            Operand::Immediate(simm(w)),
        ],
        OperandLayout::BranchLong => seq![
            Operand::Immediate32(branch_li(w)),
            Operand::Immediate(((w >> 1) & 1) as i16),
            Operand::Immediate((w & 1) as i16),
        ],
        OperandLayout::BranchCond => seq![
            Operand::Condition(rt),
            Operand::Condition(ra),
            Operand::Immediate32(branch_bd(w)),
            Operand::Immediate(((w >> 1) & 1) as i16),
            Operand::Immediate((w & 1) as i16),
        ],
        OperandLayout::BranchCondReg => seq![
            Operand::Condition(rt),
            Operand::Condition(ra),
            Operand::Immediate((w & 1) as i16),
        ],
        OperandLayout::RotateImm => seq![
            Operand::Register(rt),
            Operand::Register(ra),
            Operand::ShiftAmount(rb),
            Operand::Mask(rotate_mask(rc as u32, (w & 0x1F) as u32)),
        ],
        OperandLayout::RotateReg => seq![
            Operand::Register(rt),
            Operand::Register(ra),
            Operand::Register(rb),
            Operand::Mask(rotate_mask(rc as u32, (w & 0x1F) as u32)),
        ],
        OperandLayout::RegRegReg => seq![
            Operand::Register(rt),
            Operand::Register(ra),
            Operand::Register(rb),
        ],
        OperandLayout::RegReg => seq![Operand::Register(rt), Operand::Register(ra)],
        OperandLayout::Reg => seq![Operand::Register(rt)],
        OperandLayout::ShiftForm => seq![
            Operand::Register(rt),
            Operand::Register(ra),
            Operand::ShiftAmount(rb),
        ],
        OperandLayout::CompareReg => seq![
            Operand::Condition(crf(w)),
            Operand::Register(ra),
            Operand::Register(rb),
        ],
        OperandLayout::FpIndexed => seq![
            Operand::FpRegister(rt),
            Operand::Register(ra),
            Operand::Register(rb),
        ],
        OperandLayout::LinkBranch => seq![Operand::Register(0)],
        OperandLayout::CountBranch => seq![Operand::Register(9)],
        OperandLayout::BoBi => seq![Operand::Condition(rt), Operand::Condition(ra)],
        OperandLayout::FpThree => seq![
            Operand::FpRegister(rt),
            Operand::FpRegister(ra),
            Operand::FpRegister(rb),
        ],
        OperandLayout::FpFour => seq![
            Operand::FpRegister(rt),
            Operand::FpRegister(ra),
            Operand::FpRegister(rc),
            Operand::FpRegister(rb),
        ],
        OperandLayout::FpTwo => seq![Operand::FpRegister(rt), Operand::FpRegister(rb)],
        OperandLayout::FpOne => seq![Operand::FpRegister(rt)],
        OperandLayout::CondFp => seq![Operand::Condition(crf(w)), Operand::FpRegister(rb)],
        OperandLayout::CondFpFp => seq![
            Operand::Condition(crf(w)),
            Operand::FpRegister(ra),
            Operand::FpRegister(rb),
        ],
        OperandLayout::SprMove => seq![
            Operand::Register(rt),
            Operand::SpecialRegister(spr_field(w)),
        ],
        OperandLayout::RegCrm => seq![
            Operand::Register(rt),
            Operand::Condition(((w >> 12) & 0xFF) as u8),
        ],
        OperandLayout::CrBits => seq![
            Operand::Condition(rt),
            Operand::Condition(ra),
            Operand::Condition(rb),
        ],
        OperandLayout::Indexed => seq![Operand::Register(ra), Operand::Register(rb)],
        OperandLayout::StringImm => seq![
            Operand::Register(rt),
            Operand::Register(ra),
            Operand::Immediate(rb as i16),
        ],
    }
}

// ---------------------------------------------------------------------------
// Classification tables
// ---------------------------------------------------------------------------

/// Category and layout of a word whose primary opcode is neither 31 nor 63.
pub open spec fn primary_class(op: u32) -> (InstructionType, OperandLayout) {
    match op {
        0 | 17 => (InstructionType::System, OperandLayout::Empty),
        1 => (InstructionType::System, OperandLayout::TrapImm),
        2 | 12 | 14 | 15 | 24 | 25 | 26 | 27 | 28 | 29 => (
            InstructionType::Arithmetic,
            OperandLayout::RegRegImm,
        ),
        3 | 32 | 33 | 34 | 35 | 40 | 41 | 42 | 43 | 46 => (
            InstructionType::Load,
            OperandLayout::RegRegImm,
        ),
        36 | 37 | 38 | 39 | 44 | 45 | 47 => (InstructionType::Store, OperandLayout::RegRegImm),
        10 | 11 => (InstructionType::Compare, OperandLayout::CompareImm),
        13 => (InstructionType::Compare, OperandLayout::CompareImmLong),
        16 => (InstructionType::Branch, OperandLayout::BranchCond),
        18 => (InstructionType::Branch, OperandLayout::BranchLong),
        19 => (InstructionType::Branch, OperandLayout::BranchCondReg),
        20 | 21 | 23 => (InstructionType::Rotate, OperandLayout::RotateImm),
        22 => (InstructionType::Rotate, OperandLayout::RotateReg),
        48 | 49 | 50 | 51 | 52 | 53 | 54 | 55 => (
            InstructionType::FloatingPoint,
            OperandLayout::FpRegImm,
        ),
        _ => (InstructionType::Unknown, OperandLayout::Empty),
    }
}

/// Whether the BO field of `w` is zero and its link bit is set.
pub open spec fn bo_zero_with_link(w: u32) -> bool {
    (w & 0x03E0_0001) == 1
}

/// Category and layout of an extended opcode under primary opcode 31.
pub open spec fn extended_class_31(ext: u32, w: u32) -> (InstructionType, OperandLayout) {
    match ext {
        266 | 40 | 138 | 10 | 232 | 233 | 8 | 136 | 107 | 200 | 201 | 235 | 11 | 28 | 60
        | 444 | 412 | 316 | 476 | 124 | 284 => (
            InstructionType::Arithmetic,
            OperandLayout::RegRegReg,
        ),
        104 => if field5(w, 16) != 0 {
            (InstructionType::Arithmetic, OperandLayout::RegReg)
        } else {
            (InstructionType::Arithmetic, OperandLayout::RegRegReg)
        },
        202 | 234 | 74 | 106 | 75 | 26 => (InstructionType::Arithmetic, OperandLayout::RegReg),
        24 | 536 | 824 | 792 | 794 | 826 => (InstructionType::Shift, OperandLayout::ShiftForm),
        0 | 32 => (InstructionType::Compare, OperandLayout::CompareReg),
        20 | 23 | 87 | 279 | 343 | 55 | 119 | 311 | 534 => (
            InstructionType::Load,
            OperandLayout::RegRegReg,
        ),
        150 | 151 | 215 | 407 | 375 | 439 | 695 | 662 => (
            InstructionType::Store,
            OperandLayout::RegRegReg,
        ),
        567 | 599 | 663 | 727 => (InstructionType::FloatingPoint, OperandLayout::FpIndexed),
        16 => if bo_zero_with_link(w) {
            (InstructionType::Branch, OperandLayout::LinkBranch)
        } else {
            (InstructionType::Branch, OperandLayout::BoBi)
        },
        528 => if bo_zero_with_link(w) {
            (InstructionType::Branch, OperandLayout::CountBranch)
        } else {
            (InstructionType::Branch, OperandLayout::BoBi)
        },
        21 | 19 => (InstructionType::Rotate, OperandLayout::RotateImm),
        339 | 467 => (InstructionType::System, OperandLayout::SprMove),
        83 | 146 => (InstructionType::ConditionRegister, OperandLayout::RegCrm),
        144 => (InstructionType::ConditionRegister, OperandLayout::Reg),
        210 | 242 => (InstructionType::System, OperandLayout::Reg),
        512 | 576 | 592 => (InstructionType::Move, OperandLayout::Reg),
        257 | 449 | 193 | 225 | 33 | 289 | 129 | 417 => (
            InstructionType::ConditionRegister,
            OperandLayout::CrBits,
        ),
        86 | 54 | 278 | 246 | 1014 | 470 | 306 => (InstructionType::System, OperandLayout::Indexed),
        598 | 854 | 566 => (InstructionType::System, OperandLayout::Empty),
        597 => (InstructionType::Load, OperandLayout::StringImm),
        533 => (InstructionType::Store, OperandLayout::StringImm),
        _ => (InstructionType::Unknown, OperandLayout::Empty),
    }
}

/// Category and layout of an extended opcode under primary opcode 63.
pub open spec fn extended_class_63(ext: u32, w: u32) -> (InstructionType, OperandLayout) {
    match ext {
        138 | 10 | 232 | 233 | 8 | 107 | 200 | 201 | 235 | 11 | 60 | 412 | 284 => (
            InstructionType::Arithmetic,
            OperandLayout::RegRegReg,
        ),
        202 | 234 | 74 | 106 | 75 | 26 => (InstructionType::Arithmetic, OperandLayout::RegReg),
        824 | 794 | 826 => (InstructionType::Shift, OperandLayout::ShiftForm),
        32 => (InstructionType::Compare, OperandLayout::CompareReg),
        23 | 87 | 279 | 343 | 55 | 119 | 311 => (InstructionType::Load, OperandLayout::RegRegReg),
        151 | 215 | 407 | 375 | 439 | 695 => (InstructionType::Store, OperandLayout::RegRegReg),
        567 | 599 | 663 | 727 => (InstructionType::FloatingPoint, OperandLayout::FpIndexed),
        16 => if bo_zero_with_link(w) {
            (InstructionType::Branch, OperandLayout::LinkBranch)
        } else {
            (InstructionType::Unknown, OperandLayout::Empty)
        },
        20 | 21 | 18 => (InstructionType::FloatingPoint, OperandLayout::FpThree),
        25 | 14 | 15 | 28 | 29 | 38 => (InstructionType::FloatingPoint, OperandLayout::FpFour),
        40 | 136 | 33 | 72 | 583 | 711 | 815 | 31 | 12 | 264 => (
            InstructionType::FloatingPoint,
            OperandLayout::FpTwo,
        ),
        70 => (InstructionType::FloatingPoint, OperandLayout::FpOne),
        134 => (InstructionType::FloatingPoint, OperandLayout::CondFp),
        0 => (InstructionType::FloatingPoint, OperandLayout::CondFpFp),
        339 | 467 => (InstructionType::System, OperandLayout::SprMove),
        83 | 146 => (InstructionType::ConditionRegister, OperandLayout::RegCrm),
        210 | 242 => (InstructionType::System, OperandLayout::Reg),
        512 | 576 | 592 => (InstructionType::Move, OperandLayout::Reg),
        257 | 449 | 193 | 225 | 289 | 129 | 417 => (
            InstructionType::ConditionRegister,
            OperandLayout::CrBits,
        ),
        86 | 54 | 278 | 246 | 1014 | 470 | 306 => (InstructionType::System, OperandLayout::Indexed),
        150 | 598 | 854 | 566 => (InstructionType::System, OperandLayout::Empty),
        _ => (InstructionType::Unknown, OperandLayout::Empty),
    }
}

/// `mflr`/`mtlr` shape: RT field 8 or 9 and the low eleven bits clear.
pub open spec fn is_link_move(w: u32) -> bool {
    (field5(w, 21) == 8 || field5(w, 21) == 9) && (w & 0x7FF) == 0
}

/// Category and layout of a word whose primary opcode is 31 or 63.
pub open spec fn extended_class(w: u32) -> (InstructionType, OperandLayout) {
    let ext = (w >> 1) & 0x3FF;
    if is_link_move(w) {
        (InstructionType::Move, OperandLayout::Reg)
    } else if (w >> 26) == 31 {
        extended_class_31(ext, w)
    } else {
        extended_class_63(ext, w)
    }
}

/// The primary opcode of `w`.
pub open spec fn primary_opcode(w: u32) -> u32 {
    (w >> 26) & 0x3F
}

/// Category and layout of any instruction word.
pub open spec fn classify(w: u32) -> (InstructionType, OperandLayout) {
    let op = primary_opcode(w);
    if op == 31 || op == 63 {
        extended_class(w)
    } else {
        primary_class(op)
    }
}

/// The category the decoder gives `w`.
pub open spec fn spec_type(w: u32) -> InstructionType {
    classify(w).0
}

/// The operands the decoder gives `w`.
pub open spec fn spec_operands(w: u32) -> Seq<Operand> {
    layout_operands(classify(w).1, w)
}

/// What `Instruction::decode(word, address)` returns.
pub open spec fn decoded_as(d: DecodedInstruction, word: u32, address: u32) -> bool {
    &&& d.raw == word
    &&& d.address == address
    &&& d.instruction.opcode == primary_opcode(word)
    &&& d.instruction.instruction_type == spec_type(word)
    &&& d.instruction.operands@ == spec_operands(word)
}


/// Every general-purpose register operand of a layout names one of the 32
/// registers.
pub proof fn lemma_layout_registers(layout: OperandLayout, w: u32)
    ensures
        forall|j: int|
            0 <= j < layout_operands(layout, w).len() && (#[trigger] layout_operands(layout, w)[j]) is Register
                ==> layout_operands(layout, w)[j]->Register_0 < 32,
{
    lemma_field_bounds(w);
    let ops = layout_operands(layout, w);
    assert forall|j: int| 0 <= j < ops.len() && (#[trigger] ops[j]) is Register implies ops[j]->Register_0
        < 32 by {
        match layout {
            _ => {},
        }
    }
}

/// Range facts about the bit fields of a word.
pub proof fn lemma_field_bounds(w: u32)
    ensures
        (w >> 21) & 0x1F <= 0x1F,
        (w >> 16) & 0x1F <= 0x1F,
        (w >> 11) & 0x1F <= 0x1F,
        (w >> 6) & 0x1F <= 0x1F,
        w & 0x1F <= 0x1F,
        (w >> 23) & 0x7 <= 0x7,
        (w >> 12) & 0xFF <= 0xFF,
        (w >> 21) & 1 <= 1,
        (w >> 1) & 1 <= 1,
        w & 1 <= 1,
        (w >> 26) & 0x3F == w >> 26,
        (w >> 26) <= 63,
        (w >> 1) & 0x3FF <= 0x3FF,
{
    assert((w >> 21) & 0x1F <= 0x1F) by (bit_vector);
    assert((w >> 16) & 0x1F <= 0x1F) by (bit_vector);
    assert((w >> 11) & 0x1F <= 0x1F) by (bit_vector);
    assert((w >> 6) & 0x1F <= 0x1F) by (bit_vector);
    assert(w & 0x1F <= 0x1F) by (bit_vector);
    assert((w >> 23) & 0x7 <= 0x7) by (bit_vector);
    assert((w >> 12) & 0xFF <= 0xFF) by (bit_vector);
    assert((w >> 21) & 1 <= 1) by (bit_vector);
    assert((w >> 1) & 1 <= 1) by (bit_vector);
    assert(w & 1 <= 1) by (bit_vector);
    assert((w >> 26) & 0x3F == w >> 26) by (bit_vector);
    assert((w >> 26) <= 63) by (bit_vector);
    assert((w >> 1) & 0x3FF <= 0x3FF) by (bit_vector);
}

// ---------------------------------------------------------------------------
// Rotate masks
// ---------------------------------------------------------------------------

proof fn lemma_bit_range_single(i: u32)
    requires
        i < 32,
    ensures
        bit_range(i, i) == (1u32 << ((31 - i) as u32)),
{
    assert(bit_range(i, i) == (1u32 << ((31 - i) as u32))) by (bit_vector)
        requires
            i < 32,
    ;
}

proof fn lemma_bit_range_extend(lo: u32, i: u32)
    requires
        lo < i,
        i < 32,
    ensures
        bit_range(lo, i) == (bit_range(lo, (i - 1) as u32) | (1u32 << ((31 - i) as u32))),
{
    assert(bit_range(lo, i) == (bit_range(lo, (i - 1) as u32) | (1u32 << ((31 - i) as u32))))
        by (bit_vector)
        requires
            lo < i,
            i < 32,
    ;
}

/// The rotate mask has bit `i` (big-endian numbering) set exactly when `i`
/// lies between `mb` and `me`, wrapping around when `mb > me`.
pub proof fn lemma_rotate_mask_bits(mb: u32, me: u32, i: u32)
    requires
        mb < 32,
        me < 32,
        i < 32,
    ensures
        (((rotate_mask(mb, me) >> ((31 - i) as u32)) & 1) == 1) == in_rotate_mask(mb, me, i),
{
    assert((((rotate_mask(mb, me) >> ((31 - i) as u32)) & 1) == 1) == in_rotate_mask(mb, me, i))
        by (bit_vector)
        requires
            mb < 32,
            me < 32,
            i < 32,
    ;
}

/// ORs bits `lo..=hi` (big-endian numbering) into `mask`, one at a time.
fn set_bit_span(mask: u32, lo: u8, hi: u8) -> (r: u32)
    requires
        lo <= hi,
        hi < 32,
    ensures
        r == (mask | bit_range(lo as u32, hi as u32)),
{
    let mut m: u32 = mask;
    let mut i: u8 = lo;
    proof {
        lemma_bit_range_single(lo as u32);
    }
    m = m | (1u32 << (31u32 - i as u32));
    while i < hi
        invariant
            lo <= i <= hi,
            hi < 32,
            m == (mask | bit_range(lo as u32, i as u32)),
        decreases hi - i,
    {
        i = i + 1;
        proof {
            lemma_bit_range_extend(lo as u32, i as u32);
            let a = bit_range(lo as u32, (i - 1) as u32);
            let b = 1u32 << ((31 - i) as u32);
            assert((mask | a) | b == mask | (a | b)) by (bit_vector);
        }
        m = m | (1u32 << (31u32 - i as u32));
    }
    m
}

/// The mask of a rotate instruction: bits `mb` to `me` (big-endian bit
/// numbering) set, wrapping around past bit 31 when `mb > me`.
pub fn compute_mask(mb: u8, me: u8) -> (mask: u32)
    requires
        mb < 32,
        me < 32,
    ensures
        mask == rotate_mask(mb as u32, me as u32),
        forall|i: u32|
            i < 32 ==> (((mask >> ((31 - i) as u32)) & 1) == 1) == #[trigger] in_rotate_mask(
                mb as u32,
                me as u32,
                i,
            ),
{
    let mask: u32 = if mb <= me {
        set_bit_span(0u32, mb, me)
    } else {
        let low = set_bit_span(0u32, 0u8, me);
        let m = set_bit_span(low, mb, 31u8);
        proof {
            let a = bit_range(0, me as u32);
            let b = bit_range(mb as u32, 31);
            assert((0u32 | a) | b == a | b) by (bit_vector);
        }
        m
    };
    proof {
        let a = bit_range(mb as u32, me as u32);
        assert(0u32 | a == a) by (bit_vector);
        assert forall|i: u32| i < 32 implies (((mask >> ((31 - i) as u32)) & 1) == 1)
            == #[trigger] in_rotate_mask(mb as u32, me as u32, i) by {
            lemma_rotate_mask_bits(mb as u32, me as u32, i);
        }
    }
    mask
}

// ---------------------------------------------------------------------------
// Operand extraction
// ---------------------------------------------------------------------------

/// Reads the operands of `layout` out of `w`.
pub fn build_operands(layout: OperandLayout, w: u32) -> (r: Operands)
    ensures
        r@ == layout_operands(layout, w),
{
    proof {
        lemma_field_bounds(w);
    }
    let rt = ((w >> 21) & 0x1F) as u8;
    let ra = ((w >> 16) & 0x1F) as u8;
    let rb = ((w >> 11) & 0x1F) as u8;
    let rc = ((w >> 6) & 0x1F) as u8;
    let si = (w & 0xFFFF) as i16;
    let bf = ((w >> 23) & 0x7) as u8;
    let r = match layout {
        OperandLayout::Empty => Operands::new(),
        OperandLayout::RegRegImm => Operands::from_slice(
            &[Operand::Register(rt), Operand::Register(ra), Operand::Immediate(si)],
        ),
        OperandLayout::FpRegImm => Operands::from_slice(
            &[Operand::FpRegister(rt), Operand::Register(ra), Operand::Immediate(si)],
        ),
        OperandLayout::TrapImm => Operands::from_slice(
            &[Operand::Condition(rc), Operand::Register(ra), Operand::Immediate(si)],
        ),
        OperandLayout::CompareImm => Operands::from_slice(
            &[Operand::Condition(bf), Operand::Register(ra), Operand::Immediate(si)],
        ),
        OperandLayout::CompareImmLong => Operands::from_slice(
            &[
                Operand::Condition(bf),
                Operand::Immediate(((w >> 21) & 1) as i16),
                Operand::Register(ra),
                Operand::Immediate(si),
            ],
        ),
        OperandLayout::BranchLong => Operands::from_slice(
            &[
                Operand::Immediate32((((w & 0x3FFFFFC) << 6u32) as i32) >> 8i32),
                Operand::Immediate(((w >> 1) & 1) as i16),
                Operand::Immediate((w & 1) as i16),
            ],
        ),
        OperandLayout::BranchCond => Operands::from_slice(
            &[
                Operand::Condition(rt),
                Operand::Condition(ra),
                Operand::Immediate32((((w & 0xFFFC) as i16) >> 2) as i32),
                Operand::Immediate(((w >> 1) & 1) as i16),
                Operand::Immediate((w & 1) as i16),
            ],
        ),
        OperandLayout::BranchCondReg => Operands::from_slice(
            &[Operand::Condition(rt), Operand::Condition(ra), Operand::Immediate((w & 1) as i16)],
        ),
        OperandLayout::RotateImm => {
            let mask = compute_mask(rc, (w & 0x1F) as u8);
            Operands::from_slice(
                &[
                    Operand::Register(rt),
                    Operand::Register(ra),
                    Operand::ShiftAmount(rb),
                    Operand::Mask(mask),
                ],
            )
        },
        OperandLayout::RotateReg => {
            let mask = compute_mask(rc, (w & 0x1F) as u8);
            Operands::from_slice(
                &[
                    Operand::Register(rt),
                    Operand::Register(ra),
                    Operand::Register(rb),
                    Operand::Mask(mask),
                ],
            )
        },
        OperandLayout::RegRegReg => Operands::from_slice(
            &[Operand::Register(rt), Operand::Register(ra), Operand::Register(rb)],
        ),
        OperandLayout::RegReg => Operands::from_slice(
            &[Operand::Register(rt), Operand::Register(ra)],
        ),
        OperandLayout::Reg => Operands::from_slice(&[Operand::Register(rt)]),
        OperandLayout::ShiftForm => Operands::from_slice(
            &[Operand::Register(rt), Operand::Register(ra), Operand::ShiftAmount(rb)],
        ),
        OperandLayout::CompareReg => Operands::from_slice(
            &[Operand::Condition(bf), Operand::Register(ra), Operand::Register(rb)],
        ),
        OperandLayout::FpIndexed => Operands::from_slice(
            &[Operand::FpRegister(rt), Operand::Register(ra), Operand::Register(rb)],
        ),
        OperandLayout::LinkBranch => Operands::from_slice(&[Operand::Register(0)]),
        OperandLayout::CountBranch => Operands::from_slice(&[Operand::Register(9)]),
        OperandLayout::BoBi => Operands::from_slice(
            &[Operand::Condition(rt), Operand::Condition(ra)],
        ),
        OperandLayout::FpThree => Operands::from_slice(
            &[Operand::FpRegister(rt), Operand::FpRegister(ra), Operand::FpRegister(rb)],
        ),
        OperandLayout::FpFour => Operands::from_slice(
            &[
                Operand::FpRegister(rt),
                Operand::FpRegister(ra),
                Operand::FpRegister(rc),
                Operand::FpRegister(rb),
            ],
        ),
        OperandLayout::FpTwo => Operands::from_slice(
            &[Operand::FpRegister(rt), Operand::FpRegister(rb)],
        ),
        OperandLayout::FpOne => Operands::from_slice(&[Operand::FpRegister(rt)]),
        OperandLayout::CondFp => Operands::from_slice(
            &[Operand::Condition(bf), Operand::FpRegister(rb)],
        ),
        OperandLayout::CondFpFp => Operands::from_slice(
            &[Operand::Condition(bf), Operand::FpRegister(ra), Operand::FpRegister(rb)],
        ),
        OperandLayout::SprMove => Operands::from_slice(
            &[
                Operand::Register(rt),
                Operand::SpecialRegister(((((w >> 16) & 0x1F) << 5) | ((w >> 11) & 0x1F)) as u16),
            ],
        ),
        OperandLayout::RegCrm => Operands::from_slice(
            &[Operand::Register(rt), Operand::Condition(((w >> 12) & 0xFF) as u8)],
        ),
        OperandLayout::CrBits => Operands::from_slice(
            &[Operand::Condition(rt), Operand::Condition(ra), Operand::Condition(rb)],
        ),
        OperandLayout::Indexed => Operands::from_slice(
            &[Operand::Register(ra), Operand::Register(rb)],
        ),
        OperandLayout::StringImm => Operands::from_slice(
            &[Operand::Register(rt), Operand::Register(ra), Operand::Immediate(rb as i16)],
        ),
    };
    r
}

// ---------------------------------------------------------------------------
// Classification (executable)
// ---------------------------------------------------------------------------

/// Executable form of `primary_class`.
pub fn primary_class_of(op: u32) -> (r: (InstructionType, OperandLayout))
    ensures
        r == primary_class(op),
{
    match op {
        0 | 17 => (InstructionType::System, OperandLayout::Empty),
        1 => (InstructionType::System, OperandLayout::TrapImm),
        2 | 12 | 14 | 15 | 24 | 25 | 26 | 27 | 28 | 29 => (
            InstructionType::Arithmetic,
            OperandLayout::RegRegImm,
        ),
        3 | 32 | 33 | 34 | 35 | 40 | 41 | 42 | 43 | 46 => (
            InstructionType::Load,
            OperandLayout::RegRegImm,
        ),
        36 | 37 | 38 | 39 | 44 | 45 | 47 => (InstructionType::Store, OperandLayout::RegRegImm),
        10 | 11 => (InstructionType::Compare, OperandLayout::CompareImm),
        13 => (InstructionType::Compare, OperandLayout::CompareImmLong),
        16 => (InstructionType::Branch, OperandLayout::BranchCond),
        18 => (InstructionType::Branch, OperandLayout::BranchLong),
        19 => (InstructionType::Branch, OperandLayout::BranchCondReg),
        20 | 21 | 23 => (InstructionType::Rotate, OperandLayout::RotateImm),
        22 => (InstructionType::Rotate, OperandLayout::RotateReg),
        48 | 49 | 50 | 51 | 52 | 53 | 54 | 55 => (
            InstructionType::FloatingPoint,
            OperandLayout::FpRegImm,
        ),
        _ => (InstructionType::Unknown, OperandLayout::Empty),
    }
}

/// Executable form of `extended_class_31`.
pub fn extended_class_31_of(ext: u32, w: u32) -> (r: (InstructionType, OperandLayout))
    ensures
        r == extended_class_31(ext, w),
{
    proof {
        lemma_field_bounds(w);
    }
    match ext {
        266 | 40 | 138 | 10 | 232 | 233 | 8 | 136 | 107 | 200 | 201 | 235 | 11 | 28 | 60
        | 444 | 412 | 316 | 476 | 124 | 284 => (
            InstructionType::Arithmetic,
            OperandLayout::RegRegReg,
        ),
        104 => if ((w >> 16) & 0x1F) != 0 {
            (InstructionType::Arithmetic, OperandLayout::RegReg)
        } else {
            (InstructionType::Arithmetic, OperandLayout::RegRegReg)
        },
        202 | 234 | 74 | 106 | 75 | 26 => (InstructionType::Arithmetic, OperandLayout::RegReg),
        24 | 536 | 824 | 792 | 794 | 826 => (InstructionType::Shift, OperandLayout::ShiftForm),
        0 | 32 => (InstructionType::Compare, OperandLayout::CompareReg),
        20 | 23 | 87 | 279 | 343 | 55 | 119 | 311 | 534 => (
            InstructionType::Load,
            OperandLayout::RegRegReg,
        ),
        150 | 151 | 215 | 407 | 375 | 439 | 695 | 662 => (
            InstructionType::Store,
            OperandLayout::RegRegReg,
        ),
        567 | 599 | 663 | 727 => (InstructionType::FloatingPoint, OperandLayout::FpIndexed),
        16 => if (w & 0x03E0_0001) == 1 {
            (InstructionType::Branch, OperandLayout::LinkBranch)
        } else {
            (InstructionType::Branch, OperandLayout::BoBi)
        },
        528 => if (w & 0x03E0_0001) == 1 {
            (InstructionType::Branch, OperandLayout::CountBranch)
        } else {
            (InstructionType::Branch, OperandLayout::BoBi)
        },
        21 | 19 => (InstructionType::Rotate, OperandLayout::RotateImm),
        339 | 467 => (InstructionType::System, OperandLayout::SprMove),
        83 | 146 => (InstructionType::ConditionRegister, OperandLayout::RegCrm),
        144 => (InstructionType::ConditionRegister, OperandLayout::Reg),
        210 | 242 => (InstructionType::System, OperandLayout::Reg),
        512 | 576 | 592 => (InstructionType::Move, OperandLayout::Reg),
        257 | 449 | 193 | 225 | 33 | 289 | 129 | 417 => (
            InstructionType::ConditionRegister,
            OperandLayout::CrBits,
        ),
        86 | 54 | 278 | 246 | 1014 | 470 | 306 => (InstructionType::System, OperandLayout::Indexed),
        598 | 854 | 566 => (InstructionType::System, OperandLayout::Empty),
        597 => (InstructionType::Load, OperandLayout::StringImm),
        533 => (InstructionType::Store, OperandLayout::StringImm),
        _ => (InstructionType::Unknown, OperandLayout::Empty),
    }
}

/// Executable form of `extended_class_63`.
pub fn extended_class_63_of(ext: u32, w: u32) -> (r: (InstructionType, OperandLayout))
    ensures
        r == extended_class_63(ext, w),
{
    match ext {
        138 | 10 | 232 | 233 | 8 | 107 | 200 | 201 | 235 | 11 | 60 | 412 | 284 => (
            InstructionType::Arithmetic,
            OperandLayout::RegRegReg,
        ),
        202 | 234 | 74 | 106 | 75 | 26 => (InstructionType::Arithmetic, OperandLayout::RegReg),
        824 | 794 | 826 => (InstructionType::Shift, OperandLayout::ShiftForm),
        32 => (InstructionType::Compare, OperandLayout::CompareReg),
        23 | 87 | 279 | 343 | 55 | 119 | 311 => (InstructionType::Load, OperandLayout::RegRegReg),
        151 | 215 | 407 | 375 | 439 | 695 => (InstructionType::Store, OperandLayout::RegRegReg),
        567 | 599 | 663 | 727 => (InstructionType::FloatingPoint, OperandLayout::FpIndexed),
        16 => if (w & 0x03E0_0001) == 1 {
            (InstructionType::Branch, OperandLayout::LinkBranch)
        } else {
            (InstructionType::Unknown, OperandLayout::Empty)
        },
        20 | 21 | 18 => (InstructionType::FloatingPoint, OperandLayout::FpThree),
        25 | 14 | 15 | 28 | 29 | 38 => (InstructionType::FloatingPoint, OperandLayout::FpFour),
        40 | 136 | 33 | 72 | 583 | 711 | 815 | 31 | 12 | 264 => (
            InstructionType::FloatingPoint,
            OperandLayout::FpTwo,
        ),
        70 => (InstructionType::FloatingPoint, OperandLayout::FpOne),
        134 => (InstructionType::FloatingPoint, OperandLayout::CondFp),
        0 => (InstructionType::FloatingPoint, OperandLayout::CondFpFp),
        339 | 467 => (InstructionType::System, OperandLayout::SprMove),
        83 | 146 => (InstructionType::ConditionRegister, OperandLayout::RegCrm),
        210 | 242 => (InstructionType::System, OperandLayout::Reg),
        512 | 576 | 592 => (InstructionType::Move, OperandLayout::Reg),
        257 | 449 | 193 | 225 | 289 | 129 | 417 => (
            InstructionType::ConditionRegister,
            OperandLayout::CrBits,
        ),
        86 | 54 | 278 | 246 | 1014 | 470 | 306 => (InstructionType::System, OperandLayout::Indexed),
        150 | 598 | 854 | 566 => (InstructionType::System, OperandLayout::Empty),
        _ => (InstructionType::Unknown, OperandLayout::Empty),
    }
}


/// Why a decoded instruction fails the consistency check.
#[derive(Debug, Clone, Copy, PartialEq, Eq, Structural)]
pub enum DecodeError {
    /// A GPR or FPR operand above 31.
    InvalidRegister(u8),
    /// A condition operand above 7.
    InvalidConditionField(u8),
    /// A shift amount above 31.
    InvalidShiftAmount(u8),
    /// A load or store with fewer than two operands.
    MissingMemoryOperands,
    /// A branch with no operand.
    MissingBranchTarget,
}

/// The first problem with an operand, if any.
pub open spec fn operand_problem(o: Operand) -> Option<DecodeError> {
    match o {
        Operand::Register(r) => if r > 31 { Some(DecodeError::InvalidRegister(r)) } else { None },
        Operand::FpRegister(r) => if r > 31 { Some(DecodeError::InvalidRegister(r)) } else { None },
        Operand::Condition(c) => if c > 7 {
            Some(DecodeError::InvalidConditionField(c))
        } else {
            None
        },
        Operand::ShiftAmount(s) => if s > 31 {
            Some(DecodeError::InvalidShiftAmount(s))
        } else {
            None
        },
        _ => None,
    }
}

/// The first operand problem among `ops[i..]`.
pub open spec fn first_operand_problem(ops: Seq<Operand>, i: int) -> Option<DecodeError>
    decreases ops.len() - i,
{
    if i < 0 || i >= ops.len() {
        None
    } else {
        match operand_problem(ops[i]) {
            Some(e) => Some(e),
            None => first_operand_problem(ops, i + 1),
        }
    }
}

/// The result of the consistency check of a decoded instruction.
pub open spec fn validation_result(t: InstructionType, ops: Seq<Operand>) -> Result<(), DecodeError> {
    match first_operand_problem(ops, 0) {
        Some(e) => Err(e),
        None => if (t == InstructionType::Load || t == InstructionType::Store) && ops.len() < 2 {
            Err(DecodeError::MissingMemoryOperands)
        } else if t == InstructionType::Branch && ops.len() == 0 {
            Err(DecodeError::MissingBranchTarget)
        } else {
            Ok(())
        },
    }
}

/// Checks a decoded instruction for consistency: registers and shift amounts
/// at most 31, condition fields at most 7, loads and stores with two operands,
/// branches with at least one.
pub fn validate_decoded_instruction(
    instruction_type: &InstructionType,
    operands: &Operands,
) -> (r: Result<(), DecodeError>)
    ensures
        r == validation_result(*instruction_type, operands@),
{
    let n = operands.len();
    let mut i: usize = 0;
    while i < n
        invariant
            n == operands@.len(),
            i <= n,
            first_operand_problem(operands@, 0) == first_operand_problem(operands@, i as int),
        decreases n - i,
    {
        let o = operands.get(i);
        let problem: Option<DecodeError> = match o {
            Operand::Register(r) => if r > 31 { Some(DecodeError::InvalidRegister(r)) } else { None },
            Operand::FpRegister(r) => if r > 31 {
                Some(DecodeError::InvalidRegister(r))
            } else {
                None
            },
            Operand::Condition(c) => if c > 7 {
                Some(DecodeError::InvalidConditionField(c))
            } else {
                None
            },
            Operand::ShiftAmount(s) => if s > 31 {
                Some(DecodeError::InvalidShiftAmount(s))
            } else {
                None
            },
            _ => None,
        };
        match problem {
            Some(e) => {
                return Err(e);
            },
            None => {},
        }
        i = i + 1;
    }
    match instruction_type {
        InstructionType::Load | InstructionType::Store => {
            if n < 2 {
                return Err(DecodeError::MissingMemoryOperands);
            }
        },
        InstructionType::Branch => {
            if n == 0 {
                return Err(DecodeError::MissingBranchTarget);
            }
        },
        _ => {},
    }
    Ok(())
}

/// Whether a word looks like data rather than code: all zero or all ones.
pub fn is_likely_data(word: u32) -> (b: bool)
    ensures
        b == (word == 0 || word == 0xFFFF_FFFF),
{
    word == 0 || word == 0xFFFF_FFFF
}

/// Decodes a word whose primary opcode is 31 or 63 through its extended
/// opcode (bits 1-10). Never fails.
pub fn decode_extended(word: u32) -> (r: Result<(InstructionType, Operands), DecodeError>)
    ensures
        r matches Ok(p) && p.0 == extended_class(word).0
            && p.1@ == layout_operands(extended_class(word).1, word),
{
    proof {
        lemma_field_bounds(word);
    }
    let ext: u32 = (word >> 1) & 0x3FF;
    let class = if ((word >> 21) & 0x1F) == 8 && (word & 0x7FF) == 0 {
        (InstructionType::Move, OperandLayout::Reg)
    } else if ((word >> 21) & 0x1F) == 9 && (word & 0x7FF) == 0 {
        (InstructionType::Move, OperandLayout::Reg)
    } else if (word >> 26) == 31 {
        extended_class_31_of(ext, word)
    } else {
        extended_class_63_of(ext, word)
    };
    Ok((class.0, build_operands(class.1, word)))
}

impl Instruction {
    /// Decodes a 32-bit PowerPC instruction word found at `address`.
    ///
    /// The category and operands follow `classify`; the primary opcode is
    /// bits 26-31 of the word. Decoding never fails: words that match no
    /// known encoding come back as `InstructionType::Unknown` with no operands.
    pub fn decode(word: u32, address: u32) -> (r: Result<DecodedInstruction, DecodeError>)
        ensures
            r matches Ok(d) && decoded_as(d, word, address),
    {
        proof {
            lemma_field_bounds(word);
        }
        let opcode: u32 = (word >> 26) & 0x3F;
        let (instruction_type, operands) = if opcode == 31 || opcode == 63 {
            match decode_extended(word) {
                Ok(p) => p,
                Err(e) => {
                    return Err(e);
                },
            }
        } else {
            let class = primary_class_of(opcode);
            (class.0, build_operands(class.1, word))
        };
        Ok(DecodedInstruction {
            instruction: Instruction { opcode, instruction_type, operands },
            raw: word,
            address,
        })
    }
}

/// The D-form loads and stores, by primary opcode (bits 26-31 of the word):
/// `lwz lwzu lbz lbzu lhz lhzu lha lhau lmw` (32-35, 40-43, 46) decode as
/// loads and `stw stwu stb stbu sth sthu stmw` (36-39, 44, 45, 47) as stores,
/// each with the operands RT (bits 21-25), RA (bits 16-20) and the signed
/// 16-bit displacement.
pub proof fn law_dform_loads_and_stores(d: DecodedInstruction, word: u32, address: u32)
    requires
        decoded_as(d, word, address),
    ensures
        ({
            let op = word >> 26;
            let t = d.instruction.instruction_type;
            &&& (op == 32 || op == 33 || op == 34 || op == 35 || op == 40 || op == 41 || op == 42
                || op == 43 || op == 46) ==> t == InstructionType::Load
            &&& (op == 36 || op == 37 || op == 38 || op == 39 || op == 44 || op == 45 || op
                == 47) ==> t == InstructionType::Store
            &&& (32 <= op <= 47) ==> d.instruction.opcode == op && d.instruction.operands@ == seq![
                Operand::Register(((word >> 21) & 0x1F) as u8),
                Operand::Register(((word >> 16) & 0x1F) as u8),
                Operand::Immediate((word & 0xFFFF) as i16),
            ]
        }),
{
    assert((word >> 26) & 0x3F == word >> 26) by (bit_vector);
    let op = word >> 26;
    if 32 <= op <= 47 {
        assert(primary_opcode(word) == op);
        assert(classify(word) == primary_class(op));
        assert(d.instruction.operands@ =~= seq![
            Operand::Register(((word >> 21) & 0x1F) as u8),
            Operand::Register(((word >> 16) & 0x1F) as u8),
            Operand::Immediate((word & 0xFFFF) as i16),
        ]);
    }
}

/// The indexed (X-form) loads and stores under primary opcode 31, by the
/// extended opcode in bits 1-10: `lwzx lwzux lbzx lbzux lhzx lhzux lhax`
/// (23, 55, 87, 119, 279, 311, 343) decode as loads and `stwx stbx sthx stwux
/// stbux sthux` (151, 215, 407, 375, 439, 695) as stores, each with the
/// registers RT (bits 21-25), RA (bits 16-20) and RB (bits 11-15).
pub proof fn law_xform_loads_and_stores(d: DecodedInstruction, word: u32, address: u32)
    requires
        decoded_as(d, word, address),
        word >> 26 == 31,
    ensures
        ({
            let ext = (word >> 1) & 0x3FF;
            let t = d.instruction.instruction_type;
            let is_load = ext == 23 || ext == 55 || ext == 87 || ext == 119 || ext == 279 || ext
                == 311 || ext == 343;
            let is_store = ext == 151 || ext == 215 || ext == 407 || ext == 375 || ext == 439
                || ext == 695;
            &&& is_load ==> t == InstructionType::Load
            &&& is_store ==> t == InstructionType::Store
            &&& (is_load || is_store) ==> d.instruction.opcode == 31 && d.instruction.operands@
                == seq![
                Operand::Register(((word >> 21) & 0x1F) as u8),
                Operand::Register(((word >> 16) & 0x1F) as u8),
                Operand::Register(((word >> 11) & 0x1F) as u8),
            ]
        }),
{
    let ext = (word >> 1) & 0x3FF;
    assert((word >> 26) & 0x3F == word >> 26) by (bit_vector);
    assert(ext != 0 ==> (word & 0x7FF) != 0) by (bit_vector)
        requires
            ext == (word >> 1) & 0x3FF,
    ;
    if ext != 0 {
        assert(!is_link_move(word));
        assert(classify(word) == extended_class_31(ext, word));
        assert(d.instruction.operands@ =~= spec_operands(word));
    }
}

} // verus!
