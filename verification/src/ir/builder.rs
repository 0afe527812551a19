//! Building the intermediate representation from decoded instructions.
use vstd::prelude::*;
use crate::control_flow::BlockIds;
use crate::decoder::{DecodedInstruction, InstructionType, InstructionView, Operand, views};
use crate::ir::instruction::{Address, Condition, IRBasicBlock, IRFunction, IRInstruction, ParamRegs};

verus! {

/// The address of a load or store: the base register plus an immediate
/// third operand, else the base register alone.
pub open spec fn mem_address(ops: Seq<Operand>, base: u8) -> Address {
    if ops.len() > 2 && ops[2] is Immediate {
        Address::Register { base, offset: ops[2]->Immediate_0 as i32 }
    } else {
        Address::Register { base, offset: 0 }
    }
}

/// What an instruction becomes: arithmetic on three registers an `Add`;
/// a load or store with registers first and second its memory operation;
/// a branch with an immediate first operand a conditional branch; nothing
/// otherwise.
pub open spec fn convert(v: InstructionView) -> Option<IRInstruction> {
    let ops = v.operands;
    match v.instruction_type {
        InstructionType::Arithmetic => if ops.len() >= 3 && ops[0] is Register && ops[1] is Register
            && ops[2] is Register {
            Some(
                IRInstruction::Add {
                    dst: ops[0]->Register_0,
                    src1: ops[1]->Register_0,
                    src2: ops[2]->Register_0,
                },
            )
        } else {
            None
        },
        InstructionType::Load => if ops.len() >= 2 && ops[0] is Register && ops[1] is Register {
            Some(
                IRInstruction::Load {
                    dst: ops[0]->Register_0,
                    addr: mem_address(ops, ops[1]->Register_0),
                },
            )
        } else {
            None
        },
        InstructionType::Store => if ops.len() >= 2 && ops[0] is Register && ops[1] is Register {
            Some(
                IRInstruction::Store {
                    src: ops[0]->Register_0,
                    addr: mem_address(ops, ops[1]->Register_0),
                },
            )
        } else {
            None
        },
        InstructionType::Branch => if ops.len() >= 1 && ops[0] is Immediate {
            Some(
                IRInstruction::BranchCond {
                    cond: Condition::Equal,
                    target: ops[0]->Immediate_0 as u32,
                },
            )
        } else {
            None
        },
        _ => None,
    }
}

/// The converted instructions of `vs`, in order.
pub open spec fn converted(vs: Seq<InstructionView>) -> Seq<IRInstruction>
    decreases vs.len(),
{
    if vs.len() == 0 {
        seq![]
    } else {
        match convert(vs.last()) {
            Some(i) => converted(vs.drop_last()).push(i),
            None => converted(vs.drop_last()),
        }
    }
}

/// Builds the intermediate representation.
pub struct IRBuilder;

impl IRBuilder {
    /// The memory operand of a load or store.
    fn memory_address(inst: &DecodedInstruction, base: u8) -> (a: Address)
        ensures
            a == mem_address(inst@.operands, base),
    {
        if inst.instruction.operands.len() > 2 {
            match inst.instruction.operands.get(2) {
                Operand::Immediate(offset) => Address::Register { base, offset: offset as i32 },
                _ => Address::Register { base, offset: 0 },
            }
        } else {
            Address::Register { base, offset: 0 }
        }
    }

    /// Arithmetic on three registers becomes an `Add`.
    fn convert_arithmetic(inst: &DecodedInstruction) -> (r: Option<IRInstruction>)
        requires
            inst@.instruction_type == InstructionType::Arithmetic,
        ensures
            r == convert(inst@),
    {
        let ops = &inst.instruction.operands;
        if ops.len() < 3 {
            return None;
        }
        match (ops.get(0), ops.get(1), ops.get(2)) {
            (Operand::Register(dst), Operand::Register(src1), Operand::Register(src2)) => Some(
                IRInstruction::Add { dst, src1, src2 },
            ),
            _ => None,
        }
    }

    /// A load with a register destination and base.
    fn convert_load(inst: &DecodedInstruction) -> (r: Option<IRInstruction>)
        requires
            inst@.instruction_type == InstructionType::Load,
        ensures
            r == convert(inst@),
    {
        let ops = &inst.instruction.operands;
        if ops.len() < 2 {
            return None;
        }
        match (ops.get(0), ops.get(1)) {
            (Operand::Register(dst), Operand::Register(base)) => Some(
                IRInstruction::Load { dst, addr: Self::memory_address(inst, base) },
            ),
            _ => None,
        }
    }

    /// A store with a register source and base.
    fn convert_store(inst: &DecodedInstruction) -> (r: Option<IRInstruction>)
        requires
            inst@.instruction_type == InstructionType::Store,
        ensures
            r == convert(inst@),
    {
        let ops = &inst.instruction.operands;
        if ops.len() < 2 {
            return None;
        }
        match (ops.get(0), ops.get(1)) {
            (Operand::Register(src), Operand::Register(base)) => Some(
                IRInstruction::Store { src, addr: Self::memory_address(inst, base) },
            ),
            _ => None,
        }
    }

    /// A branch with an immediate target becomes a conditional branch.
    fn convert_branch(inst: &DecodedInstruction) -> (r: Option<IRInstruction>)
        requires
            inst@.instruction_type == InstructionType::Branch,
        ensures
            r == convert(inst@),
    {
        let ops = &inst.instruction.operands;
        if ops.len() < 1 {
            return None;
        }
        match ops.get(0) {
            Operand::Immediate(target) => {
                match inst.instruction.instruction_type {
                    InstructionType::Branch => Some(
                        IRInstruction::BranchCond { cond: Condition::Equal, target: target as u32 },
                    ),
                    _ => Some(IRInstruction::Branch { target: target as u32 }),
                }
            },
            _ => None,
        }
    }

    /// The instruction converted by its category.
    fn convert_instruction(inst: &DecodedInstruction) -> (r: Option<IRInstruction>)
        ensures
            r == convert(inst@),
    {
        match inst.instruction.instruction_type {
            InstructionType::Arithmetic => Self::convert_arithmetic(inst),
            InstructionType::Load => Self::convert_load(inst),
            InstructionType::Store => Self::convert_store(inst),
            InstructionType::Branch => Self::convert_branch(inst),
            _ => None,
        }
    }

    /// One block with the converted instructions, or none when nothing
    /// converts; no parameters or return register.
    pub fn build_ir(instructions: &[DecodedInstruction], function_name: &str, function_address: u32) -> (f:
        IRFunction)
        ensures
            f.name@ == function_name@,
            f.address == function_address,
            f.parameters@.len() == 0,
            f.return_register is None,
            converted(views(instructions@)).len() == 0 ==> f.basic_blocks@.len() == 0,
            converted(views(instructions@)).len() > 0 ==> f.basic_blocks@.len() == 1
                && f.basic_blocks@[0].id == 0 && f.basic_blocks@[0].instructions@ == converted(
                views(instructions@),
            ) && f.basic_blocks@[0].successors@.len() == 0,
    {
        let ghost vs = views(instructions@);
        let mut basic_blocks: Vec<IRBasicBlock> = Vec::new();
        let mut current_block = IRBasicBlock { id: 0, instructions: Vec::new(), successors: BlockIds::new() };
        let mut i: usize = 0;
        while i < instructions.len()
            invariant
                i <= instructions@.len(),
                vs == views(instructions@),
                current_block.id == 0,
                current_block.successors@.len() == 0,
                current_block.instructions@ == converted(vs.take(i as int)),
            decreases instructions@.len() - i,
        {
            assert(vs.take(i + 1).drop_last() =~= vs.take(i as int));
            assert(vs[i as int] == instructions@[i as int]@);
            match Self::convert_instruction(&instructions[i]) {
                Some(ir_inst) => {
                    current_block.instructions.push(ir_inst);
                },
                None => {},
            }
            i = i + 1;
        }
        assert(vs.take(i as int) =~= vs);
        if current_block.instructions.len() > 0 {
            basic_blocks.push(current_block);
        }
        IRFunction {
            name: String::from_str(function_name),
            address: function_address,
            parameters: ParamRegs::new(),
            return_register: None,
            basic_blocks,
        }
    }
}

} // verus!
