//! The Rust text that the code generator emits, stated per instruction.
//!
//! Every generator reads the instruction's view and what the generator knows
//! of register values, and produces either lines of text or a reason why the
//! instruction cannot be translated. Lines start with the indentation of the
//! current level and end with a newline.
use vstd::prelude::*;
use crate::analysis::TypeInfo;
use crate::decoder::{InstructionType, InstructionView, Operand};
use crate::text::{dec_nat, dec_int, hex_text, indent_text};

verus! {

/// What the generator knows of a register's value.
#[derive(Debug, Clone, Copy, PartialEq, Eq, Structural)]
pub enum RegisterValue {
    Constant(u32),
    Unknown,
}

/// Why an instruction could not be translated.
#[derive(Debug, Clone, Copy, PartialEq, Eq, Structural)]
pub enum CodegenError {
    /// Fewer operands than the instruction form needs.
    MissingOperands,
    /// An operand of the wrong kind.
    UnexpectedOperand,
}

/// Integer operation of an arithmetic instruction.
#[derive(Debug, Clone, Copy, PartialEq, Eq, Structural)]
pub enum ArithOp {
    Add,
    ReverseSub,
    Mul,
    Div,
    And,
    Or,
    Xor,
    Shl,
    Shr,
}

/// The constant known for register `r`, if any.
pub open spec fn known(vals: Seq<RegisterValue>, r: u8) -> Option<u32> {
    if (r as int) < vals.len() {
        match vals[r as int] {
            RegisterValue::Constant(c) => Some(c),
            RegisterValue::Unknown => None,
        }
    } else {
        None
    }
}

/// One line: the indentation of `level`, then `s` (which ends with a newline).
pub open spec fn line(level: nat, s: Seq<char>) -> Seq<char> {
    indent_text(level) + s
}

/// `ctx.get_register(r)`.
pub open spec fn reg_text(r: nat) -> Seq<char> {
    "ctx.get_register("@ + dec_nat(r) + ")"@
}

/// `ctx.get_fpr(r)`.
pub open spec fn fpr_text(r: nat) -> Seq<char> {
    "ctx.get_fpr("@ + dec_nat(r) + ")"@
}

/// A `u32` literal: decimal digits and the suffix.
pub open spec fn u32_lit(v: u32) -> Seq<char> {
    dec_nat(v as nat) + "u32"@
}

/// An `i32` literal: decimal digits and the suffix.
pub open spec fn i32_lit(v: i32) -> Seq<char> {
    dec_int(v as int) + "i32"@
}

/// Eight uppercase hexadecimal digits.
pub open spec fn hex8(v: u32) -> Seq<char> {
    hex_text(v as nat, 8)
}

/// The return of the function's value in r3.
pub open spec fn return_r3() -> Seq<char> {
    "return Ok(Some(ctx.get_register(3)));\n"@
}

// ---------------------------------------------------------------- arithmetic

/// The operation selected by an extended opcode of primary opcode 31.
pub open spec fn arith_op_ext(ext: u32) -> ArithOp {
    if ext == 266 || ext == 10 {
        ArithOp::Add
    } else if ext == 40 {
        ArithOp::ReverseSub
    } else if ext == 28 {
        ArithOp::And
    } else if ext == 444 {
        ArithOp::Or
    } else if ext == 316 {
        ArithOp::Xor
    } else if ext == 235 || ext == 75 || ext == 233 {
        ArithOp::Mul
    } else if ext == 459 || ext == 491 || ext == 104 {
        ArithOp::Div
    } else if ext == 536 || ext == 792 {
        ArithOp::Shr
    } else if ext == 24 {
        ArithOp::Shl
    } else {
        ArithOp::Add
    }
}

/// The operation of an arithmetic instruction, and whether it records its
/// result in condition-register field 0.
pub open spec fn arith_op(opcode: u32, raw: u32) -> (ArithOp, bool) {
    if opcode == 7 {
        (ArithOp::Mul, false)
    } else if opcode == 8 {
        (ArithOp::ReverseSub, false)
    } else if opcode == 13 {
        (ArithOp::Add, true)
    } else if opcode == 31 {
        (arith_op_ext((raw >> 1) & 0x3FF), false)
    } else {
        (ArithOp::Add, false)
    }
}

/// The value of `a op b` as the emitted code computes it: wrapping arithmetic,
/// zero for a division by zero.
pub open spec fn fold_const(op: ArithOp, a: u32, b: u32) -> u32 {
    match op {
        ArithOp::Add => a.wrapping_add(b),
        ArithOp::ReverseSub => b.wrapping_sub(a),
        ArithOp::Mul => a.wrapping_mul(b),
        ArithOp::Div => if b == 0 {
            0
        } else {
            a / b
        },
        ArithOp::And => a & b,
        ArithOp::Or => a | b,
        ArithOp::Xor => a ^ b,
        ArithOp::Shl => a.wrapping_shl(b),
        ArithOp::Shr => a.wrapping_shr(b),
    }
}

/// The expression of the second operand, and its value when known.
pub open spec fn arith_rhs(vals: Seq<RegisterValue>, ops: Seq<Operand>) -> (Seq<char>, Option<u32>) {
    if ops.len() > 2 {
        match ops[2] {
            Operand::Register(r) => (reg_text(r as nat), known(vals, r)),
            Operand::Immediate(i) => (u32_lit(i as u32), Some(i as u32)),
            Operand::Immediate32(i) => (u32_lit(i as u32), Some(i as u32)),
            _ => ("0u32"@, Some(0u32)),
        }
    } else {
        ("0u32"@, Some(0u32))
    }
}

/// The expression that computes `ra op rb` at run time.
pub open spec fn arith_expr(op: ArithOp, ra: u8, rb: Seq<char>) -> Seq<char> {
    let a = reg_text(ra as nat);
    match op {
        ArithOp::Shl => a + ".wrapping_shl("@ + rb + ")"@,
        ArithOp::Shr => a + ".wrapping_shr("@ + rb + ")"@,
        ArithOp::Div => a + ".checked_div("@ + rb + ").unwrap_or(0)"@,
        ArithOp::ReverseSub => "("@ + rb + ").wrapping_sub("@ + a + ")"@,
        ArithOp::Add => a + ".wrapping_add("@ + rb + ")"@,
        ArithOp::Mul => a + ".wrapping_mul("@ + rb + ")"@,
        ArithOp::And => a + " & "@ + rb,
        ArithOp::Or => a + " | "@ + rb,
        ArithOp::Xor => a + " ^ "@ + rb,
    }
}

/// Target and source registers of a two-register form.
pub open spec fn two_regs(ops: Seq<Operand>, min: nat) -> Result<(u8, u8), CodegenError> {
    if ops.len() < min {
        Err(CodegenError::MissingOperands)
    } else {
        match (ops[0], ops[1]) {
            (Operand::Register(a), Operand::Register(b)) => Ok((a, b)),
            _ => Err(CodegenError::UnexpectedOperand),
        }
    }
}

/// The value an arithmetic instruction leaves in its target, when both inputs
/// are known.
pub open spec fn arith_folded(vals: Seq<RegisterValue>, inst: InstructionView, ra: u8) -> Option<u32> {
    let (op, cr) = arith_op(inst.opcode, inst.raw);
    match (known(vals, ra), arith_rhs(vals, inst.operands).1) {
        (Some(a), Some(b)) => Some(fold_const(op, a, b)),
        _ => None,
    }
}

/// The lines that record a result in condition-register field 0.
pub open spec fn cr0_update_text(level: nat, rt: u8) -> Seq<char> {
    line(level, "let result = "@ + reg_text(rt as nat) + ";\n"@) + line(
        level,
        "let cr_field = if result == 0 { 0x2u8 } else if (result as i32) < 0 { 0x8u8 } else { 0x4u8 };\n"@,
    ) + line(level, "ctx.set_cr_field(0, cr_field);\n"@)
}

/// Text of an arithmetic instruction.
pub open spec fn arith_text(vals: Seq<RegisterValue>, level: nat, inst: InstructionView) -> Result<
    Seq<char>,
    CodegenError,
> {
    match two_regs(inst.operands, 2) {
        Err(e) => Err(e),
        Ok((rt, ra)) => {
            let (op, update_cr) = arith_op(inst.opcode, inst.raw);
            let main = match arith_folded(vals, inst, ra) {
                Some(v) => line(
                    level,
                    "ctx.set_register("@ + dec_nat(rt as nat) + ", "@ + u32_lit(v)
                        + "); // Optimized: constant folding\n"@,
                ),
                None => line(
                    level,
                    "ctx.set_register("@ + dec_nat(rt as nat) + ", "@ + arith_expr(
                        op,
                        ra,
                        arith_rhs(vals, inst.operands).0,
                    ) + ");\n"@,
                ),
            };
            Ok(
                if update_cr {
                    main + cr0_update_text(level, rt)
                } else {
                    main
                },
            )
        },
    }
}

// ------------------------------------------------------------ load and store

/// Displacement of a load or store: its immediate, else zero.
pub open spec fn mem_offset(ops: Seq<Operand>) -> i32 {
    match ops[2] {
        Operand::Immediate(i) => i as i32,
        _ => 0,
    }
}

/// The run-time address computation of a load or store.
pub open spec fn addr_line(level: nat, ra: u8, offset: i32) -> Seq<char> {
    line(level, "let addr = "@ + reg_text(ra as nat) + " as u32 + "@ + i32_lit(offset) + " as u32;\n"@)
}

/// Text of a load.
pub open spec fn load_text(vals: Seq<RegisterValue>, level: nat, inst: InstructionView) -> Result<
    Seq<char>,
    CodegenError,
> {
    match two_regs(inst.operands, 3) {
        Err(e) => Err(e),
        Ok((rt, ra)) => {
            let offset = mem_offset(inst.operands);
            let read = match known(vals, ra) {
                Some(base) => line(
                    level,
                    "let value = memory.read_u32(0x"@ + hex8(base.wrapping_add(offset as u32))
                        + "u32).unwrap_or(0u32); // Optimized: constant address\n"@,
                ),
                None => addr_line(level, ra, offset) + line(
                    level,
                    "let value = memory.read_u32(addr).unwrap_or(0u32);\n"@,
                ),
            };
            Ok(read + line(level, "ctx.set_register("@ + dec_nat(rt as nat) + ", value);\n"@))
        },
    }
}

/// Text of a store.
pub open spec fn store_text(vals: Seq<RegisterValue>, level: nat, inst: InstructionView) -> Result<
    Seq<char>,
    CodegenError,
> {
    match two_regs(inst.operands, 3) {
        Err(e) => Err(e),
        Ok((rs, ra)) => {
            let offset = mem_offset(inst.operands);
            let value = match known(vals, rs) {
                Some(v) => u32_lit(v),
                None => reg_text(rs as nat),
            };
            Ok(
                match known(vals, ra) {
                    Some(base) => line(
                        level,
                        "memory.write_u32(0x"@ + hex8(base.wrapping_add(offset as u32)) + "u32, "@
                            + value + ").unwrap_or(()); // Optimized: constant address\n"@,
                    ),
                    None => addr_line(level, ra, offset) + line(
                        level,
                        "memory.write_u32(addr, "@ + value + ").unwrap_or(());\n"@,
                    ),
                },
            )
        },
    }
}

// ------------------------------------------------------------------ branches

/// Word displacement of an I-form branch, from its first operand.
pub open spec fn branch_words(ops: Seq<Operand>) -> i32 {
    if ops.len() > 0 {
        match ops[0] {
            Operand::Immediate32(li) => li,
            Operand::Address(a) => (a as i32) >> 2u32,
            _ => 0,
        }
    } else {
        0
    }
}

/// Target of an I-form branch: absolute when AA is set, else relative to the
/// branch's own address.
pub open spec fn branch_target(inst: InstructionView) -> u32 {
    let disp = branch_words(inst.operands).wrapping_mul(4);
    if (inst.raw >> 1u32) & 1 != 0 {
        disp as u32
    } else {
        inst.address.wrapping_add(disp as u32)
    }
}

/// The call target an instruction records: that of an I-form branch with LK set.
pub open spec fn call_target(inst: InstructionView) -> Option<u32> {
    if inst.instruction_type == InstructionType::Branch && inst.raw >> 26u32 == 18 && inst.raw & 1
        != 0 {
        Some(branch_target(inst))
    } else {
        None
    }
}

/// CR bit tested by a conditional branch: its second operand, else zero.
pub open spec fn branch_bi(ops: Seq<Operand>) -> u8 {
    if ops.len() > 1 {
        match ops[1] {
            Operand::Condition(c) => c,
            _ => 0,
        }
    } else {
        0
    }
}

/// Text of a branch.
pub open spec fn branch_text(level: nat, inst: InstructionView) -> Seq<char> {
    let primary = inst.raw >> 26u32;
    if primary == 18 {
        let target = branch_target(inst);
        if inst.raw & 1 != 0 {
            line(level, "ctx.lr = 0x"@ + hex8(inst.address.wrapping_add(4)) + "u32;\n"@) + line(
                level,
                "if let Ok(Some(rv)) = call_function_by_address(0x"@ + hex8(target)
                    + "u32, ctx, memory) { ctx.set_register(3, rv); }\n"@,
            )
        } else {
            line(level, "ctx.pc = 0x"@ + hex8(target) + "u32;\n"@) + line(level, return_r3())
        }
    } else if primary == 16 {
        let bi = branch_bi(inst.operands);
        line(
            level,
            "if (ctx.get_cr_field("@ + dec_nat((bi / 4) as nat) + ") >> "@ + dec_nat((bi % 4) as nat)
                + ") & 1 != 0 { return Ok(Some(ctx.get_register(3))); }\n"@,
        )
    } else {
        line(level, return_r3())
    }
}

// ------------------------------------------------------------------- compare

/// The right-hand side of a compare.
pub open spec fn compare_rhs(ops: Seq<Operand>) -> Seq<char> {
    if ops.len() > 2 {
        match ops[2] {
            Operand::Register(rb) => reg_text(rb as nat),
            Operand::Immediate(i) => i32_lit(i as i32),
            _ => "0i32"@,
        }
    } else {
        "0i32"@
    }
}

/// Text of a compare: the operands as `u32` for `cmplwi` (opcode 10), else as
/// `i32`, then the LT/GT/EQ field written to CR field BF.
pub open spec fn compare_text(level: nat, inst: InstructionView) -> Result<Seq<char>, CodegenError> {
    let ops = inst.operands;
    if ops.len() < 2 {
        Err(CodegenError::MissingOperands)
    } else {
        let bf: u8 = match ops[0] {
            Operand::Condition(c) => c,
            _ => 0,
        };
        match ops[1] {
            Operand::Register(ra) => {
                let ty = if inst.opcode == 10 {
                    "u32"@
                } else {
                    "i32"@
                };
                Ok(
                    line(level, "let ra_val = "@ + reg_text(ra as nat) + " as "@ + ty + ";\n"@)
                        + line(level, "let rb_val = "@ + compare_rhs(ops) + " as "@ + ty + ";\n"@)
                        + line(level, "let cr_field = if ra_val < rb_val {\n"@)
                        + line(level + 1, "0x8u8 // Less than\n"@)
                        + line(level, "} else if ra_val > rb_val {\n"@)
                        + line(level + 1, "0x4u8 // Greater than\n"@)
                        + line(level, "} else {\n"@)
                        + line(level + 1, "0x2u8 // Equal\n"@)
                        + line(level, "};\n"@)
                        + line(level, "ctx.set_cr_field("@ + dec_nat(bf as nat) + ", cr_field);\n"@),
                )
            },
            _ => Err(CodegenError::UnexpectedOperand),
        }
    }
}

// ---------------------------------------------------------------------- move

/// Text of a move: one register operand copies the link register into it.
pub open spec fn move_text(level: nat, inst: InstructionView) -> Result<Seq<char>, CodegenError> {
    let ops = inst.operands;
    if ops.len() == 0 {
        Err(CodegenError::MissingOperands)
    } else if ops.len() == 1 {
        match ops[0] {
            Operand::Register(r) => Ok(
                line(
                    level,
                    "ctx.set_register("@ + dec_nat(r as nat)
                        + ", ctx.lr); // Move from/to link register\n"@,
                ),
            ),
            _ => Err(CodegenError::UnexpectedOperand),
        }
    } else {
        Ok(seq![])
    }
}

// ------------------------------------------------------------ floating point

/// The bit field of width `mask` at `shift` of the raw word.
pub open spec fn raw_field(raw: u32, shift: u32, mask: u32) -> u32 {
    (raw >> shift) & mask
}

/// The signed 16-bit displacement of a D-form instruction.
pub open spec fn d_field(raw: u32) -> i32 {
    ((raw & 0xFFFF) as i16) as i32
}

/// Effective address of a D-form floating-point load or store: `(RA|0) + D`.
pub open spec fn fp_ea(raw: u32) -> Seq<char> {
    let ra = raw_field(raw, 16, 0x1F);
    let d = d_field(raw);
    if ra == 0 {
        u32_lit(d as u32)
    } else {
        reg_text(ra as nat) + ".wrapping_add("@ + i32_lit(d) + " as u32)"@
    }
}

/// The expression computed by an arithmetic floating-point instruction.
pub open spec fn fp_expr(raw: u32) -> Seq<char> {
    let a_form = raw_field(raw, 1, 0x1F);
    let x_form = raw_field(raw, 1, 0x3FF);
    let fa = fpr_text(raw_field(raw, 16, 0x1F) as nat);
    let fb = fpr_text(raw_field(raw, 11, 0x1F) as nat);
    let fc = fpr_text(raw_field(raw, 6, 0x1F) as nat);
    if a_form == 21 {
        fa + " + "@ + fb
    } else if a_form == 20 {
        fa + " - "@ + fb
    } else if a_form == 25 {
        fa + " * "@ + fc
    } else if a_form == 18 {
        fa + " / "@ + fb
    } else if a_form == 29 {
        fa + " * "@ + fc + " + "@ + fb
    } else if a_form == 28 {
        fa + " * "@ + fc + " - "@ + fb
    } else if a_form == 31 {
        "-("@ + fa + " * "@ + fc + " + "@ + fb + ")"@
    } else if a_form == 30 {
        "-("@ + fa + " * "@ + fc + " - "@ + fb + ")"@
    } else if x_form == 40 {
        "-"@ + fb
    } else if x_form == 264 {
        fb + ".abs()"@
    } else if x_form == 136 {
        "-"@ + fb + ".abs()"@
    } else if x_form == 12 {
        fb + " as f32 as f64"@
    } else {
        fb
    }
}

/// Text of a floating-point instruction, decoded from its raw word.
pub open spec fn fp_text(level: nat, raw: u32) -> Seq<char> {
    let primary = raw >> 26u32;
    let frt = dec_nat(raw_field(raw, 21, 0x1F) as nat);
    let frb = raw_field(raw, 11, 0x1F) as nat;
    let ea = fp_ea(raw);
    if primary == 48 || primary == 49 {
        line(
            level,
            "{ let v = f32::from_bits(memory.read_u32("@ + ea + ").unwrap_or(0)); ctx.set_fpr("@ + frt
                + ", v as f64); }\n"@,
        )
    } else if primary == 50 || primary == 51 {
        line(
            level,
            "ctx.set_fpr("@ + frt + ", f64::from_bits(memory.read_u64("@ + ea + ").unwrap_or(0)));\n"@,
        )
    } else if primary == 52 || primary == 53 {
        line(
            level,
            "memory.write_u32("@ + ea + ", (ctx.get_fpr("@ + frt + ") as f32).to_bits()).unwrap_or(());\n"@,
        )
    } else if primary == 54 || primary == 55 {
        line(
            level,
            "memory.write_u64("@ + ea + ", ctx.get_fpr("@ + frt + ").to_bits()).unwrap_or(());\n"@,
        )
    } else if primary == 4 || primary == 59 || primary == 63 {
        let x_form = raw_field(raw, 1, 0x3FF);
        if x_form == 0 || x_form == 32 {
            line(
                level,
                "{ let a = "@ + fpr_text(raw_field(raw, 16, 0x1F) as nat) + "; let b = "@ + fpr_text(frb)
                    + "; ctx.set_cr_field("@ + dec_nat(raw_field(raw, 23, 0x7) as nat)
                    + ", if a < b { 0x8u8 } else if a > b { 0x4u8 } else { 0x2u8 }); }\n"@,
            )
        } else {
            line(level, "ctx.set_fpr("@ + frt + ", "@ + fp_expr(raw) + ");\n"@)
        }
    } else {
        line(level, "ctx.set_fpr("@ + frt + ", "@ + fpr_text(frb) + ");\n"@)
    }
}

// --------------------------------------------------------- condition register

/// The operator of a CR logical instruction, by extended opcode.
pub open spec fn cr_op(ext: u32) -> Seq<char> {
    if ext == 449 || ext == 33 || ext == 417 {
        "|"@
    } else if ext == 193 || ext == 289 {
        "^"@
    } else {
        "&"@
    }
}

/// `ctx.get_cr_field(bit / 4)`.
pub open spec fn cr_get(bit: u8) -> Seq<char> {
    "ctx.get_cr_field("@ + dec_nat((bit / 4) as nat) + ")"@
}

/// The combining line of a CR logical instruction: negated for crnand,
/// crnor and creqv, with a complemented second input for crandc and crorc.
pub open spec fn cr_result_text(ext: u32, ba: u8, bb: u8) -> Seq<char> {
    if ext == 225 || ext == 33 || ext == 289 {
        "let cr_result = !("@ + cr_get(ba) + " "@ + cr_op(ext) + " "@ + cr_get(bb) + ");\n"@
    } else if ext == 129 {
        "let cr_result = "@ + cr_get(ba) + " & !"@ + cr_get(bb) + ";\n"@
    } else if ext == 417 {
        "let cr_result = "@ + cr_get(ba) + " | !"@ + cr_get(bb) + ";\n"@
    } else {
        "let cr_result = "@ + cr_get(ba) + " "@ + cr_op(ext) + " "@ + cr_get(bb) + ";\n"@
    }
}

/// Text of a condition-register instruction.
pub open spec fn cr_text(level: nat, inst: InstructionView) -> Result<Seq<char>, CodegenError> {
    let ops = inst.operands;
    if ops.len() == 1 {
        match ops[0] {
            Operand::Register(r) => Ok(
                line(
                    level,
                    "ctx.set_register("@ + dec_nat(r as nat)
                        + ", ctx.cr); // Move from/to condition register\n"@,
                ),
            ),
            _ => Err(CodegenError::UnexpectedOperand),
        }
    } else if ops.len() == 3 {
        match (ops[0], ops[1], ops[2]) {
            (Operand::Condition(bt), Operand::Condition(ba), Operand::Condition(bb)) => {
                let ext = raw_field(inst.raw, 1, 0x3FF);
                Ok(
                    line(level, "let cr_a = "@ + cr_get(ba) + ";\n"@) + line(
                        level,
                        "let cr_b = "@ + cr_get(bb) + ";\n"@,
                    ) + line(level, cr_result_text(ext, ba, bb)) + line(
                        level,
                        "ctx.set_cr_field("@ + dec_nat((bt / 4) as nat) + ", cr_result);\n"@,
                    ),
                )
            },
            _ => Err(CodegenError::UnexpectedOperand),
        }
    } else {
        Ok(seq![])
    }
}

// ---------------------------------------------------------- shift and rotate

/// Text of a shift: the amount is masked to five bits.
pub open spec fn shift_text(level: nat, inst: InstructionView) -> Result<Seq<char>, CodegenError> {
    match two_regs(inst.operands, 3) {
        Err(e) => Err(e),
        Ok((rs, ra)) => {
            let amount = match inst.operands[2] {
                Operand::ShiftAmount(s) => Some(u32_lit((s as u32) & 0x1F)),
                Operand::Register(r) => Some("("@ + reg_text(r as nat) + " & 0x1F)"@),
                _ => None,
            };
            match amount {
                Some(sh) => Ok(
                    line(
                        level,
                        "ctx.set_register("@ + dec_nat(ra as nat) + ", "@ + reg_text(rs as nat) + " << "@
                            + sh + ");\n"@,
                    ),
                ),
                None => Err(CodegenError::UnexpectedOperand),
            }
        },
    }
}

/// Text of a rotate-and-mask.
pub open spec fn rotate_text(level: nat, inst: InstructionView) -> Result<Seq<char>, CodegenError> {
    match two_regs(inst.operands, 4) {
        Err(e) => Err(e),
        Ok((rs, ra)) => match (inst.operands[2], inst.operands[3]) {
            (Operand::ShiftAmount(sh), Operand::Mask(m)) => Ok(
                line(
                    level,
                    "let rotated = "@ + reg_text(rs as nat) + ".rotate_left("@ + dec_nat(sh as nat)
                        + " as u32);\n"@,
                ) + line(level, "let masked = rotated & 0x"@ + hex8(m) + "u32;\n"@) + line(
                    level,
                    "ctx.set_register("@ + dec_nat(ra as nat) + ", masked);\n"@,
                ),
            ),
            _ => Err(CodegenError::UnexpectedOperand),
        },
    }
}

// ------------------------------------------------------------ system, others

/// Text of a system instruction: comments only.
pub open spec fn system_text(level: nat, inst: InstructionView) -> Seq<char> {
    let ops = inst.operands;
    if ops.len() > 0 {
        match ops[0] {
            Operand::SpecialRegister(spr) => line(
                level,
                "// System register operation: SPR "@ + dec_nat(spr as nat) + "\n"@,
            ) + if ops.len() > 1 {
                match ops[1] {
                    Operand::Register(rt) => line(
                        level,
                        "// Move from/to SPR "@ + dec_nat(spr as nat) + " to/from r"@ + dec_nat(
                            rt as nat,
                        ) + "\n"@,
                    ),
                    _ => seq![],
                }
            } else {
                seq![]
            },
            _ => line(level, "// Cache control or memory synchronization\n"@),
        }
    } else {
        line(level, "// System instruction: opcode 0x"@ + hex_text(inst.opcode as nat, 2) + "\n"@)
            + line(level, "// System instructions typically require special handling\n"@)
    }
}

/// Text of an instruction of no modelled category.
pub open spec fn generic_text(level: nat, inst: InstructionView) -> Seq<char> {
    line(
        level,
        "// untranslated 0x"@ + hex8(inst.raw) + " (type "@ + inst.instruction_type.name_text()
            + ")\n"@,
    )
}

// ------------------------------------------------------------- instructions

/// Text of one instruction, by category.
pub open spec fn inst_text(vals: Seq<RegisterValue>, level: nat, inst: InstructionView) -> Result<
    Seq<char>,
    CodegenError,
> {
    match inst.instruction_type {
        InstructionType::Arithmetic => arith_text(vals, level, inst),
        InstructionType::Load => load_text(vals, level, inst),
        InstructionType::Store => store_text(vals, level, inst),
        InstructionType::Branch => Ok(branch_text(level, inst)),
        InstructionType::Compare => compare_text(level, inst),
        InstructionType::Move => move_text(level, inst),
        InstructionType::System => Ok(system_text(level, inst)),
        InstructionType::FloatingPoint => Ok(fp_text(level, inst.raw)),
        InstructionType::ConditionRegister => cr_text(level, inst),
        InstructionType::Shift => shift_text(level, inst),
        InstructionType::Rotate => rotate_text(level, inst),
        InstructionType::Unknown => Ok(generic_text(level, inst)),
    }
}

/// Register knowledge after an arithmetic instruction: its target is known
/// when both inputs were.
pub open spec fn arith_vals(vals: Seq<RegisterValue>, inst: InstructionView) -> Seq<RegisterValue> {
    match two_regs(inst.operands, 2) {
        Ok((rt, ra)) => vals.update(
            rt as int,
            match arith_folded(vals, inst, ra) {
                Some(v) => RegisterValue::Constant(v),
                None => RegisterValue::Unknown,
            },
        ),
        Err(_) => vals,
    }
}

/// Register knowledge after a load: its target is no longer known.
pub open spec fn load_vals(vals: Seq<RegisterValue>, inst: InstructionView) -> Seq<RegisterValue> {
    match two_regs(inst.operands, 3) {
        Ok((rt, ra)) => vals.update(rt as int, RegisterValue::Unknown),
        Err(_) => vals,
    }
}

/// What the generator knows of register values after an instruction.
pub open spec fn inst_vals(vals: Seq<RegisterValue>, inst: InstructionView) -> Seq<RegisterValue> {
    match inst.instruction_type {
        InstructionType::Arithmetic => arith_vals(vals, inst),
        InstructionType::Load => load_vals(vals, inst),
        _ => vals,
    }
}

/// The text emitted for one instruction: its translation, or a one-line
/// comment naming it when it cannot be translated.
pub open spec fn emitted(vals: Seq<RegisterValue>, level: nat, inst: InstructionView) -> Seq<char> {
    match inst_text(vals, level, inst) {
        Ok(s) => s,
        Err(_) => line(
            level,
            "// untranslated 0x"@ + hex8(inst.raw) + " (opcode 0x"@ + hex_text(inst.opcode as nat, 2)
                + ")\n"@,
        ),
    }
}

/// Register knowledge after a sequence of instructions.
pub open spec fn body_vals(vals: Seq<RegisterValue>, insts: Seq<InstructionView>) -> Seq<RegisterValue>
    decreases insts.len(),
{
    if insts.len() == 0 {
        vals
    } else {
        inst_vals(body_vals(vals, insts.drop_last()), insts.last())
    }
}

/// Text of a sequence of instructions.
pub open spec fn body_lines(vals: Seq<RegisterValue>, level: nat, insts: Seq<InstructionView>) -> Seq<
    char,
>
    decreases insts.len(),
{
    if insts.len() == 0 {
        seq![]
    } else {
        body_lines(vals, level, insts.drop_last()) + emitted(
            body_vals(vals, insts.drop_last()),
            level,
            insts.last(),
        )
    }
}

/// Call targets recorded by a sequence of instructions, in order.
pub open spec fn body_calls(insts: Seq<InstructionView>) -> Seq<u32>
    decreases insts.len(),
{
    if insts.len() == 0 {
        seq![]
    } else {
        match call_target(insts.last()) {
            Some(t) => body_calls(insts.drop_last()).push(t),
            None => body_calls(insts.drop_last()),
        }
    }
}

/// A function body: the instructions' text, then the return of r3.
pub open spec fn body_text(vals: Seq<RegisterValue>, level: nat, insts: Seq<InstructionView>) -> Seq<
    char,
> {
    body_lines(vals, level, insts) + line(level, "Ok(Some(ctx.get_register(3)))\n"@)
}

/// Rust spelling of a recovered type: integer types by sign and width
/// (`u32` for other widths), `()` for void, `*mut` for pointers, `u32`
/// otherwise.
pub open spec fn rust_type_text(ty: TypeInfo) -> Seq<char>
    decreases ty,
{
    match ty {
        TypeInfo::Void => "()"@,
        TypeInfo::Integer { signed, size } => if signed && size == 8 {
            "i8"@
        } else if !signed && size == 8 {
            "u8"@
        } else if signed && size == 16 {
            "i16"@
        } else if !signed && size == 16 {
            "u16"@
        } else if signed && size == 32 {
            "i32"@
        } else if !signed && size == 32 {
            "u32"@
        } else if signed && size == 64 {
            "i64"@
        } else if !signed && size == 64 {
            "u64"@
        } else {
            "u32"@
        },
        TypeInfo::Pointer { pointee } => "*mut "@ + rust_type_text(*pointee),
        _ => "u32"@,
    }
}

/// Whether an executable result carries the stated text or error.
pub open spec fn text_matches(r: Result<String, CodegenError>, t: Result<Seq<char>, CodegenError>) -> bool {
    match (r, t) {
        (Ok(s), Ok(u)) => s@ == u,
        (Err(e), Err(f)) => e == f,
        _ => false,
    }
}

// ------------------------------------------------------------------ functions

/// What `char::is_alphanumeric` returns for `c`.
pub uninterp spec fn char_is_alphanumeric(c: char) -> bool;

/// Whether `c` is alphanumeric as `char::is_alphanumeric` tells: of ASCII
/// characters exactly the letters and digits; beyond ASCII the Unicode
/// alphabetic and numeric properties.
pub open spec fn alphanumeric(c: char) -> bool {
    if (c as u32) < 128 {
        is_ascii_alnum(c)
    } else {
        char_is_alphanumeric(c)
    }
}

/// An ASCII letter or digit.
pub open spec fn is_ascii_alnum(c: char) -> bool {
    ('0' <= c && c <= '9') || ('a' <= c && c <= 'z') || ('A' <= c && c <= 'Z')
}

/// What one character of a name becomes in an identifier: space, hyphen and
/// dot become an underscore, letters, digits and underscores stay, anything
/// else is dropped.
pub open spec fn sanitize_char(c: char) -> Seq<char> {
    if c == ' ' || c == '-' || c == '.' {
        seq!['_']
    } else if alphanumeric(c) || c == '_' {
        seq![c]
    } else {
        seq![]
    }
}

/// A name made into an identifier, character by character.
pub open spec fn sanitized(s: Seq<char>) -> Seq<char>
    decreases s.len(),
{
    if s.len() == 0 {
        seq![]
    } else {
        sanitized(s.drop_last()) + sanitize_char(s.last())
    }
}

/// Every character of a sanitized name is an underscore or alphanumeric,
/// and none is a space, hyphen or dot.
pub proof fn law_sanitized_chars(s: Seq<char>)
    ensures
        forall|i: int|
            0 <= i < sanitized(s).len() ==> {
                let c = #[trigger] sanitized(s)[i];
                &&& c == '_' || alphanumeric(c)
                &&& c != ' ' && c != '-' && c != '.'
            },
    decreases s.len(),
{
    if s.len() > 0 {
        law_sanitized_chars(s.drop_last());
        let p = sanitized(s.drop_last());
        assert forall|i: int| 0 <= i < sanitized(s).len() implies {
            let c = #[trigger] sanitized(s)[i];
            &&& c == '_' || alphanumeric(c)
            &&& c != ' ' && c != '-' && c != '.'
        } by {
            if i < p.len() {
                assert(sanitized(s)[i] == p[i]);
            }
        }
    }
}

/// Sanitizing a name twice gives what sanitizing it once gives.
pub proof fn law_sanitize_idempotent(s: Seq<char>)
    ensures
        sanitized(sanitized(s)) == sanitized(s),
{
    law_sanitized_chars(s);
    lemma_sanitized_fixed(sanitized(s));
}

/// A name whose characters are all underscores or alphanumeric, and none a
/// space, hyphen or dot, is left as it is.
proof fn lemma_sanitized_fixed(t: Seq<char>)
    requires
        forall|i: int|
            0 <= i < t.len() ==> {
                let c = #[trigger] t[i];
                &&& c == '_' || alphanumeric(c)
                &&& c != ' ' && c != '-' && c != '.'
            },
    ensures
        sanitized(t) == t,
    decreases t.len(),
{
    if t.len() > 0 {
        let d = t.drop_last();
        assert forall|i: int| 0 <= i < d.len() implies {
            let c = #[trigger] d[i];
            &&& c == '_' || alphanumeric(c)
            &&& c != ' ' && c != '-' && c != '.'
        } by {
            assert(d[i] == t[i]);
        }
        lemma_sanitized_fixed(d);
        let c = t[t.len() - 1];
        assert(sanitize_char(c) =~= seq![c]);
        assert(sanitized(t) =~= t);
    }
}

/// Whether `s` begins with `p`.
pub open spec fn has_prefix(s: Seq<char>, p: Seq<char>) -> bool {
    s.len() >= p.len() && s.subrange(0, p.len() as int) == p
}

/// Name of the generated function: `func_0x` and the address for unnamed and
/// `sub_` functions, else the sanitized name, an underscore and the address.
pub open spec fn function_name_text(name: Seq<char>, address: u32) -> Seq<char> {
    if name.len() == 0 || has_prefix(name, "sub_"@) {
        "func_0x"@ + hex8(address)
    } else {
        sanitized(name) + "_"@ + hex8(address)
    }
}

/// Signature of the generated function.
pub open spec fn signature_text(name: Seq<char>, address: u32) -> Seq<char> {
    "pub fn "@ + function_name_text(name, address) + "("@
        + "ctx: &mut CpuContext, memory: &mut MemoryManager"@ + ") -> Result<Option<u32>>"@
}

/// A whole generated function: signature, the body one level deeper, and
/// the closing brace.
pub open spec fn function_text(
    name: Seq<char>,
    address: u32,
    vals: Seq<RegisterValue>,
    level: nat,
    insts: Seq<InstructionView>,
) -> Seq<char> {
    signature_text(name, address) + " {\n"@ + body_text(vals, level + 1, insts) + "}\n"@
}

/// The value of a Rust `u32` expression of one of the shapes `x & y`,
/// `x | y`, `x ^ y`, `x.wrapping_add(y)`, `x.wrapping_mul(y)`,
/// `x.wrapping_shl(y)`, `x.wrapping_shr(y)`, `x.checked_div(y).unwrap_or(0)`
/// and `(y).wrapping_sub(x)`, where the texts `a` and `b` stand for `x` and
/// `y`; `None` for any other text.
pub open spec fn rust_u32_value(e: Seq<char>, a: Seq<char>, b: Seq<char>, x: u32, y: u32) -> Option<u32> {
    if e == a + " & "@ + b {
        Some(x & y)
    } else if e == a + " | "@ + b {
        Some(x | y)
    } else if e == a + " ^ "@ + b {
        Some(x ^ y)
    } else if e == a + ".wrapping_add("@ + b + ")"@ {
        Some(((x + y) % 0x1_0000_0000) as u32)
    } else if e == a + ".wrapping_mul("@ + b + ")"@ {
        Some(((x * y) % 0x1_0000_0000) as u32)
    } else if e == a + ".wrapping_shl("@ + b + ")"@ {
        Some(x << (y % 32))
    } else if e == a + ".wrapping_shr("@ + b + ")"@ {
        Some(x >> (y % 32))
    } else if e == a + ".checked_div("@ + b + ").unwrap_or(0)"@ {
        Some(if y == 0 { 0 } else { x / y })
    } else if e == "("@ + b + ").wrapping_sub("@ + a + ")"@ {
        Some(((y - x + 0x1_0000_0000) % 0x1_0000_0000) as u32)
    } else {
        None
    }
}

/// The expression written for an arithmetic operation computes, read as
/// Rust, the value that constant folding gives for it: for every operation,
/// every source register `ra` (with value `x`), every second-operand text
/// `rb` (with value `y`), and all values.
pub proof fn law_emitted_arith_matches_folding(op: ArithOp, ra: u8, rb: Seq<char>, x: u32, y: u32)
    ensures
        rust_u32_value(arith_expr(op, ra, rb), reg_text(ra as nat), rb, x, y) == Some(
            fold_const(op, x, y),
        ),
{
    let a = reg_text(ra as nat);
    let n = a.len() as int;
    reveal_strlit("ctx.get_register(");
    reveal_strlit(")");
    reveal_strlit(" & ");
    reveal_strlit(" | ");
    reveal_strlit(" ^ ");
    reveal_strlit(".wrapping_add(");
    reveal_strlit(".wrapping_mul(");
    reveal_strlit(".wrapping_shl(");
    reveal_strlit(".wrapping_shr(");
    reveal_strlit(".checked_div(");
    reveal_strlit(").unwrap_or(0)");
    reveal_strlit("(");
    reveal_strlit(").wrapping_sub(");
    assert(a[0] == 'c');
    let f_and = a + " & "@ + rb;
    let f_or = a + " | "@ + rb;
    let f_xor = a + " ^ "@ + rb;
    let f_add = a + ".wrapping_add("@ + rb + ")"@;
    let f_mul = a + ".wrapping_mul("@ + rb + ")"@;
    let f_shl = a + ".wrapping_shl("@ + rb + ")"@;
    let f_shr = a + ".wrapping_shr("@ + rb + ")"@;
    let f_div = a + ".checked_div("@ + rb + ").unwrap_or(0)"@;
    let f_sub = "("@ + rb + ").wrapping_sub("@ + a + ")"@;
    assert(f_and[0] == 'c' && f_and[n] == ' ' && f_and[n + 1] == '&');
    assert(f_or[0] == 'c' && f_or[n] == ' ' && f_or[n + 1] == '|');
    assert(f_xor[0] == 'c' && f_xor[n] == ' ' && f_xor[n + 1] == '^');
    assert(f_add[0] == 'c' && f_add[n] == '.' && f_add[n + 1] == 'w' && f_add[n + 10] == 'a');
    assert(f_mul[0] == 'c' && f_mul[n] == '.' && f_mul[n + 1] == 'w' && f_mul[n + 10] == 'm');
    assert(f_shl[0] == 'c' && f_shl[n] == '.' && f_shl[n + 1] == 'w' && f_shl[n + 10] == 's'
        && f_shl[n + 12] == 'l');
    assert(f_shr[0] == 'c' && f_shr[n] == '.' && f_shr[n + 1] == 'w' && f_shr[n + 10] == 's'
        && f_shr[n + 12] == 'r');
    assert(f_div[0] == 'c' && f_div[n] == '.' && f_div[n + 1] == 'c');
    assert(f_sub[0] == '(');
    match op {
        ArithOp::Add => {
            assert(arith_expr(op, ra, rb) == f_add);
            assert(x.wrapping_add(y) == ((x + y) % 0x1_0000_0000) as u32);
        },
        ArithOp::Mul => {
            assert(arith_expr(op, ra, rb) == f_mul);
            assert(x.wrapping_mul(y) == ((x * y) % 0x1_0000_0000) as u32);
        },
        ArithOp::Shl => {
            assert(arith_expr(op, ra, rb) == f_shl);
            assert(x.wrapping_shl(y) == x << (y % 32));
        },
        ArithOp::Shr => {
            assert(arith_expr(op, ra, rb) == f_shr);
            assert(x.wrapping_shr(y) == x >> (y % 32));
        },
        ArithOp::Div => {
            assert(arith_expr(op, ra, rb) == f_div);
        },
        ArithOp::ReverseSub => {
            assert(arith_expr(op, ra, rb) == f_sub);
            assert(y.wrapping_sub(x) == ((y - x + 0x1_0000_0000) % 0x1_0000_0000) as u32);
        },
        ArithOp::And => {
            assert(arith_expr(op, ra, rb) == f_and);
        },
        ArithOp::Or => {
            assert(arith_expr(op, ra, rb) == f_or);
        },
        ArithOp::Xor => {
            assert(arith_expr(op, ra, rb) == f_xor);
        },
    }
}

/// The operation each arithmetic instruction stands for, by what it
/// computes from its source value `x` and second operand `y`: `mulli` (7)
/// multiplies; `subfic` (8) and `subf` (31/40) subtract the source from the
/// second operand; the add-immediate forms (12-15), `add` (31/266) and
/// `addc` (31/10) add; `and` (31/28), `or` (31/444) and `xor` (31/316) are
/// bitwise; `mullw` and `mulhw` (31/235, 31/75, 31/233) multiply; the divides
/// (31/459, 31/491, 31/104) divide, giving zero for a zero divisor; `srw` and
/// `sraw` (31/536, 31/792) shift right and `slw` (31/24) shifts left, by the
/// amount modulo 32. Only `addic.` (13) records its result in CR0.
pub proof fn law_arith_op_meaning(opcode: u32, raw: u32, x: u32, y: u32)
    ensures
        ({
            let (op, cr) = arith_op(opcode, raw);
            let v = fold_const(op, x, y) as int;
            let ext = (raw >> 1) & 0x3FF;
            let sum = (x + y) % 0x1_0000_0000;
            let product = (x * y) % 0x1_0000_0000;
            let difference = (y - x + 0x1_0000_0000) % 0x1_0000_0000;
            &&& cr == (opcode == 13)
            &&& opcode == 7 ==> v == product
            &&& opcode == 8 ==> v == difference
            &&& (opcode == 12 || opcode == 13 || opcode == 14 || opcode == 15) ==> v == sum
            &&& opcode == 31 ==> {
                &&& (ext == 266 || ext == 10) ==> v == sum
                &&& ext == 40 ==> v == difference
                &&& ext == 28 ==> v == (x & y)
                &&& ext == 444 ==> v == (x | y)
                &&& ext == 316 ==> v == (x ^ y)
                &&& (ext == 235 || ext == 75 || ext == 233) ==> v == product
                &&& (ext == 459 || ext == 491 || ext == 104) ==> v == (if y == 0 {
                    0
                } else {
                    x / y
                })
                &&& (ext == 536 || ext == 792) ==> v == (x >> (y % 32))
                &&& ext == 24 ==> v == (x << (y % 32))
            }
        }),
{
    assert(x.wrapping_add(y) == ((x + y) % 0x1_0000_0000) as u32);
    assert(x.wrapping_mul(y) == ((x * y) % 0x1_0000_0000) as u32);
    assert(y.wrapping_sub(x) == ((y - x + 0x1_0000_0000) % 0x1_0000_0000) as u32);
    assert(x.wrapping_shl(y) == x << (y % 32));
    assert(x.wrapping_shr(y) == x >> (y % 32));
}

} // verus!
