//! Rust text for the intermediate representation.
use vstd::prelude::*;
use crate::ir::instruction::{IRBasicBlock, IRFunction, IRInstruction, block_instructions};
use crate::text::{append_dec, dec_nat};

verus! {

/// `ctx.get_register(r)`.
pub open spec fn get_text(r: u8) -> Seq<char> {
    "ctx.get_register("@ + dec_nat(r as nat) + ")"@
}

/// A register set to a binary operation of two registers.
pub open spec fn binary_text(dst: u8, a: u8, op: Seq<char>, b: u8) -> Seq<char> {
    "    ctx.set_register("@ + dec_nat(dst as nat) + ", "@ + get_text(a) + op + get_text(b) + ");\n"@
}

/// The line for one instruction.
pub open spec fn ir_line(i: IRInstruction) -> Seq<char> {
    match i {
        IRInstruction::Add { dst, src1, src2 } => binary_text(dst, src1, " + "@, src2),
        IRInstruction::Sub { dst, src1, src2 } => binary_text(dst, src1, " - "@, src2),
        IRInstruction::Mul { dst, src1, src2 } => binary_text(dst, src1, " * "@, src2),
        IRInstruction::Div { dst, src1, src2 } => binary_text(dst, src1, " / "@, src2),
        IRInstruction::Move { dst, src } => "    ctx.set_register("@ + dec_nat(dst as nat) + ", "@
            + get_text(src) + ");\n"@,
        IRInstruction::MoveImm { dst, imm } => "    ctx.set_register("@ + dec_nat(dst as nat) + ", "@
            + dec_nat(imm as nat) + "u32);\n"@,
        _ => "    // IR instruction\n"@,
    }
}

/// The lines for a block's instructions.
pub open spec fn block_lines(insts: Seq<IRInstruction>) -> Seq<char>
    decreases insts.len(),
{
    if insts.len() == 0 {
        seq![]
    } else {
        block_lines(insts.drop_last()) + ir_line(insts.last())
    }
}

/// The lines for all blocks in order.
pub open spec fn all_lines(blocks: Seq<Seq<IRInstruction>>) -> Seq<char>
    decreases blocks.len(),
{
    if blocks.len() == 0 {
        seq![]
    } else {
        all_lines(blocks.drop_last()) + block_lines(blocks.last())
    }
}

/// The Rust function for an IR function.
pub open spec fn function_rust(name: Seq<char>, blocks: Seq<Seq<IRInstruction>>) -> Seq<char> {
    "fn "@ + name + "() {\n"@ + "    let mut ctx = gcrecomp_runtime::CpuContext::new();\n"@
        + "    let mut memory = gcrecomp_runtime::MemoryManager::new();\n"@ + "\n"@ + all_lines(blocks)
        + "}\n"@
}

/// Translates the intermediate representation to Rust.
pub struct IRToRust;

impl IRToRust {
    /// Appends `ctx.get_register(r)`.
    fn append_get(code: &mut String, r: u8)
        ensures
            final(code)@ == old(code)@ + get_text(r),
    {
        code.append("ctx.get_register(");
        append_dec(code, r as u64);
        code.append(")");
    }

    /// Appends the line for one instruction.
    fn translate_instruction(code: &mut String, inst: &IRInstruction)
        ensures
            final(code)@ == old(code)@ + ir_line(*inst),
    {
        let ghost c0 = code@;
        match inst {
            IRInstruction::Add { dst, src1, src2 } | IRInstruction::Sub { dst, src1, src2 }
            | IRInstruction::Mul { dst, src1, src2 } | IRInstruction::Div { dst, src1, src2 } => {
                code.append("    ctx.set_register(");
                append_dec(code, *dst as u64);
                code.append(", ");
                Self::append_get(code, *src1);
                match inst {
                    IRInstruction::Add { .. } => code.append(" + "),
                    IRInstruction::Sub { .. } => code.append(" - "),
                    IRInstruction::Mul { .. } => code.append(" * "),
                    _ => code.append(" / "),
                }
                Self::append_get(code, *src2);
                code.append(");\n");
            },
            IRInstruction::Move { dst, src } => {
                code.append("    ctx.set_register(");
                append_dec(code, *dst as u64);
                code.append(", ");
                Self::append_get(code, *src);
                code.append(");\n");
            },
            IRInstruction::MoveImm { dst, imm } => {
                code.append("    ctx.set_register(");
                append_dec(code, *dst as u64);
                code.append(", ");
                append_dec(code, *imm as u64);
                code.append("u32);\n");
            },
            _ => {
                code.append("    // IR instruction\n");
            },
        }
        assert(code@ =~= c0 + ir_line(*inst));
    }

    /// The Rust function: a header creating a context and memory, one line
    /// per instruction of each block in order, and the closing brace.
    pub fn translate(function: &IRFunction) -> (code: String)
        ensures
            code@ == function_rust(function.name@, block_instructions(function.basic_blocks@)),
    {
        let ghost bi = block_instructions(function.basic_blocks@);
        let mut code = String::from_str("fn ");
        code.append(function.name.as_str());
        code.append("() {\n");
        code.append("    let mut ctx = gcrecomp_runtime::CpuContext::new();\n");
        code.append("    let mut memory = gcrecomp_runtime::MemoryManager::new();\n");
        code.append("\n");
        let ghost head = code@;
        let mut b: usize = 0;
        while b < function.basic_blocks.len()
            invariant
                b <= function.basic_blocks@.len(),
                bi == block_instructions(function.basic_blocks@),
                code@ == head + all_lines(bi.take(b as int)),
            decreases function.basic_blocks@.len() - b,
        {
            let block = &function.basic_blocks[b];
            let ghost before = code@;
            let mut i: usize = 0;
            while i < block.instructions.len()
                invariant
                    i <= block.instructions@.len(),
                    code@ == before + block_lines(block.instructions@.take(i as int)),
                decreases block.instructions@.len() - i,
            {
                assert(block.instructions@.take(i + 1).drop_last() =~= block.instructions@.take(i as int));
                Self::translate_instruction(&mut code, &block.instructions[i]);
                assert(code@ =~= before + block_lines(block.instructions@.take(i + 1)));
                i = i + 1;
            }
            assert(block.instructions@.take(i as int) =~= block.instructions@);
            assert(bi.take(b + 1).drop_last() =~= bi.take(b as int));
            assert(bi[b as int] == block.instructions@);
            assert(code@ =~= head + all_lines(bi.take(b + 1)));
            b = b + 1;
        }
        assert(bi.take(b as int) =~= bi);
        code.append("}\n");
        code
    }
}

} // verus!
