//! Instructions, functions and blocks of the intermediate representation.
use vstd::prelude::*;
use smallvec::SmallVec;
use crate::control_flow::BlockIds;

verus! {

/// An operation of the intermediate representation.
#[derive(Debug, Clone, Copy, PartialEq, Eq, Structural, Hash)]
pub enum IRInstruction {
    Add { dst: u8, src1: u8, src2: u8 },
    Sub { dst: u8, src1: u8, src2: u8 },
    Mul { dst: u8, src1: u8, src2: u8 },
    Div { dst: u8, src1: u8, src2: u8 },
    And { dst: u8, src1: u8, src2: u8 },
    Or { dst: u8, src1: u8, src2: u8 },
    Xor { dst: u8, src1: u8, src2: u8 },
    Load { dst: u8, addr: Address },
    Store { src: u8, addr: Address },
    Branch { target: u32 },
    BranchCond { cond: Condition, target: u32 },
    Call { target: u32 },
    Return,
    FAdd { dst: u8, src1: u8, src2: u8 },
    FSub { dst: u8, src1: u8, src2: u8 },
    FMul { dst: u8, src1: u8, src2: u8 },
    FDiv { dst: u8, src1: u8, src2: u8 },
    Move { dst: u8, src: u8 },
    MoveImm { dst: u8, imm: u32 },
}

/// A memory address: a base register plus an offset, or a constant.
#[derive(Debug, Clone, Copy, PartialEq, Eq, Structural, Hash)]
pub enum Address {
    Register { base: u8, offset: i32 },
    Constant(u32),
}

/// A branch condition.
#[derive(Debug, Clone, Copy, PartialEq, Eq, Structural, Hash)]
pub enum Condition {
    Equal,
    NotEqual,
    LessThan,
    GreaterThan,
    LessThanOrEqual,
    GreaterThanOrEqual,
}

/// The parameter registers of a function, kept in a small inline vector.
#[verifier::external_body]
pub struct ParamRegs {
    inner: SmallVec<[u8; 8]>,
}

/// The registers held, in order.
pub uninterp spec fn param_reg_seq(p: &ParamRegs) -> Seq<u8>;

impl ParamRegs {
    pub open spec fn view(&self) -> Seq<u8> {
        param_reg_seq(self)
    }

    /// An empty list (`SmallVec::new`).
    #[verifier::external_body]
    pub fn new() -> (r: ParamRegs)
        ensures
            param_reg_seq(&r) == Seq::<u8>::empty(),
    {
        ParamRegs { inner: SmallVec::new() }
    }
}

/// A function of the intermediate representation.
pub struct IRFunction {
    pub name: String,
    pub address: u32,
    pub parameters: ParamRegs,
    pub return_register: Option<u8>,
    pub basic_blocks: Vec<IRBasicBlock>,
}

/// A block of the intermediate representation.
pub struct IRBasicBlock {
    pub id: u32,
    pub instructions: Vec<IRInstruction>,
    pub successors: BlockIds,
}

/// The instructions of each block, in order.
pub open spec fn block_instructions(blocks: Seq<IRBasicBlock>) -> Seq<Seq<IRInstruction>> {
    blocks.map_values(|b: IRBasicBlock| b.instructions@)
}

} // verus!
