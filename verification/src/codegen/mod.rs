//! Rust code generation from decoded PowerPC instructions.
//!
//! The generator walks the instructions of a function in order and emits one
//! or more lines of Rust for each. It keeps track of registers whose value is
//! a known constant, folds arithmetic on such registers and computes
//! constant load and store addresses at generation time. What each
//! instruction becomes is stated in `emit`.
pub mod emit;
pub mod memory;

use vstd::prelude::*;
use crate::analysis::{FunctionMetadata, TypeInfo, dead_code_free, eliminate_dead_code};
use crate::decoder::{DecodedInstruction, InstructionType, InstructionView, Operand, views};
use crate::text::{append_dec, append_dec_signed, append_hex, dec_nat, hex_text, indent, indent_text, push_char};
use crate::codegen::emit::{
    ArithOp,
    CodegenError,
    RegisterValue,
    arith_expr,
    arith_op,
    arith_op_ext,
    arith_rhs,
    arith_text,
    arith_vals,
    body_calls,
    body_lines,
    body_text,
    body_vals,
    branch_text,
    call_target,
    char_is_alphanumeric,
    compare_text,
    cr_get,
    cr_op,
    cr_result_text,
    cr_text,
    emitted,
    fold_const,
    fp_ea,
    fp_expr,
    fp_text,
    fpr_text,
    function_name_text,
    function_text,
    generic_text,
    has_prefix,
    hex8,
    i32_lit,
    inst_text,
    inst_vals,
    is_ascii_alnum,
    known,
    line,
    load_text,
    load_vals,
    move_text,
    reg_text,
    rust_type_text,
    rotate_text,
    sanitize_char,
    sanitized,
    shift_text,
    signature_text,
    store_text,
    system_text,
    text_matches,
    two_regs,
    u32_lit,
};

verus! {

/// Number of register slots the generator tracks (one per `u8` register number).
pub const REGISTER_SLOTS: usize = 256;

/// Generates Rust source for recompiled functions.
pub struct CodeGenerator {
    indent_level: usize,
    register_values: Vec<RegisterValue>,
    /// Whether optimizations are enabled.
    pub optimize: bool,
    function_calls: Vec<u32>,
}

/// `char::is_alphanumeric`: whether `c` is alphabetic or numeric in Unicode.
/// Of ASCII characters exactly the letters and digits are.
#[verifier::external_body]
fn is_alphanumeric(c: char) -> (b: bool)
    ensures
        b == char_is_alphanumeric(c),
        (c as u32) < 128 ==> (b <==> is_ascii_alnum(c)),
{
    c.is_alphanumeric()
}

/// Appends one line: the indentation of `level`, then `s`.
fn push_line(code: &mut String, level: usize, s: &str)
    ensures
        final(code)@ == old(code)@ + line(level as nat, s@),
{
    let t = indent(level);
    code.append(t.as_str());
    code.append(s);
    proof {
        assert(final(code)@ =~= old(code)@ + line(level as nat, s@));
    }
}

/// `ctx.get_register(r)`.
fn reg_expr(r: u32) -> (s: String)
    ensures
        s@ == reg_text(r as nat),
{
    let mut s = String::from_str("ctx.get_register(");
    append_dec(&mut s, r as u64);
    s.append(")");
    s
}

/// `ctx.get_fpr(r)`.
fn fpr_expr(r: u32) -> (s: String)
    ensures
        s@ == fpr_text(r as nat),
{
    let mut s = String::from_str("ctx.get_fpr(");
    append_dec(&mut s, r as u64);
    s.append(")");
    s
}

/// A `u32` literal.
fn u32_literal(v: u32) -> (s: String)
    ensures
        s@ == u32_lit(v),
{
    let mut s = String::new();
    append_dec(&mut s, v as u64);
    s.append("u32");
    proof {
        assert(s@ =~= u32_lit(v));
    }
    s
}

/// An `i32` literal.
fn i32_literal(v: i32) -> (s: String)
    ensures
        s@ == i32_lit(v),
{
    let mut s = String::new();
    append_dec_signed(&mut s, v as i64);
    s.append("i32");
    proof {
        assert(s@ =~= i32_lit(v));
    }
    s
}

/// Whether `s` begins with `p`.
fn starts_with(s: &str, p: &str) -> (b: bool)
    ensures
        b == has_prefix(s@, p@),
{
    let n = s.unicode_len();
    let m = p.unicode_len();
    if n < m {
        return false;
    }
    let mut i: usize = 0;
    while i < m
        invariant
            m == p@.len(),
            n == s@.len(),
            m <= n,
            i <= m,
            forall|k: int| 0 <= k < i ==> s@[k] == p@[k],
        decreases m - i,
    {
        if s.get_char(i) != p.get_char(i) {
            assert(s@.subrange(0, m as int)[i as int] != p@[i as int]);
            return false;
        }
        i = i + 1;
    }
    assert(s@.subrange(0, m as int) =~= p@);
    true
}

/// The operation selected by an extended opcode of primary opcode 31.
fn arith_op_of_ext(ext: u32) -> (op: ArithOp)
    ensures
        op == arith_op_ext(ext),
{
    if ext == 266 || ext == 10 {
        ArithOp::Add
    } else if ext == 40 {
        ArithOp::ReverseSub
    } else if ext == 28 {
        ArithOp::And
    } else if ext == 444 {
        ArithOp::Or
    } else if ext == 316 {
        ArithOp::Xor
    } else if ext == 235 || ext == 75 || ext == 233 {
        ArithOp::Mul
    } else if ext == 459 || ext == 491 || ext == 104 {
        ArithOp::Div
    } else if ext == 536 || ext == 792 {
        ArithOp::Shr
    } else if ext == 24 {
        ArithOp::Shl
    } else {
        ArithOp::Add
    }
}

/// The operation of an arithmetic instruction and whether it updates CR0.
fn arith_op_of(opcode: u32, raw: u32) -> (r: (ArithOp, bool))
    ensures
        r == arith_op(opcode, raw),
{
    if opcode == 7 {
        (ArithOp::Mul, false)
    } else if opcode == 8 {
        (ArithOp::ReverseSub, false)
    } else if opcode == 13 {
        (ArithOp::Add, true)
    } else if opcode == 31 {
        (arith_op_of_ext((raw >> 1) & 0x3FF), false)
    } else {
        (ArithOp::Add, false)
    }
}

/// `a op b` with wrapping arithmetic and zero for a division by zero.
fn fold_value(op: ArithOp, a: u32, b: u32) -> (v: u32)
    ensures
        v == fold_const(op, a, b),
{
    match op {
        ArithOp::Add => a.wrapping_add(b),
        ArithOp::ReverseSub => b.wrapping_sub(a),
        ArithOp::Mul => a.wrapping_mul(b),
        ArithOp::Div => a.checked_div(b).unwrap_or(0),
        ArithOp::And => a & b,
        ArithOp::Or => a | b,
        ArithOp::Xor => a ^ b,
        ArithOp::Shl => a.wrapping_shl(b),
        ArithOp::Shr => a.wrapping_shr(b),
    }
}

/// The run-time expression of `ra op rb`.
fn arith_expression(op: ArithOp, ra: u8, rb: &str) -> (s: String)
    ensures
        s@ == arith_expr(op, ra, rb@),
{
    let a = reg_expr(ra as u32);
    let mut s = String::new();
    match op {
        ArithOp::ReverseSub => {
            s.append("(");
            s.append(rb);
            s.append(").wrapping_sub(");
            s.append(a.as_str());
            s.append(")");
        },
        _ => {
            s.append(a.as_str());
            match op {
                ArithOp::Shl => {
                    s.append(".wrapping_shl(");
                    s.append(rb);
                    s.append(")");
                },
                ArithOp::Shr => {
                    s.append(".wrapping_shr(");
                    s.append(rb);
                    s.append(")");
                },
                ArithOp::Div => {
                    s.append(".checked_div(");
                    s.append(rb);
                    s.append(").unwrap_or(0)");
                },
                ArithOp::Add => {
                    s.append(".wrapping_add(");
                    s.append(rb);
                    s.append(")");
                },
                ArithOp::Mul => {
                    s.append(".wrapping_mul(");
                    s.append(rb);
                    s.append(")");
                },
                ArithOp::And => {
                    s.append(" & ");
                    s.append(rb);
                },
                ArithOp::Or => {
                    s.append(" | ");
                    s.append(rb);
                },
                _ => {
                    s.append(" ^ ");
                    s.append(rb);
                },
            }
        },
    }
    proof {
        assert(s@ =~= arith_expr(op, ra, rb@));
    }
    s
}

impl CodeGenerator {
    /// Register knowledge, one entry per register number.
    pub closed spec fn values(&self) -> Seq<RegisterValue> {
        self.register_values@
    }

    /// Call targets recorded so far, in order.
    pub closed spec fn calls(&self) -> Seq<u32> {
        self.function_calls@
    }

    /// Whether optimizations are enabled.
    pub closed spec fn optimizing(&self) -> bool {
        self.optimize
    }

    /// Current indentation level.
    pub closed spec fn level(&self) -> nat {
        self.indent_level as nat
    }

    /// A register slot per register number, at the top indentation level.
    pub closed spec fn wf(&self) -> bool {
        self.register_values@.len() == REGISTER_SLOTS && self.indent_level == 0
    }

    /// Register slots in place and room for two more indentation levels.
    spec fn inner_wf(&self) -> bool {
        self.register_values@.len() == REGISTER_SLOTS && self.indent_level < 1000
    }

    /// A generator with optimizations enabled, nothing known of registers and
    /// no calls recorded.
    pub fn new() -> (g: CodeGenerator)
        ensures
            g.wf(),
            g.optimizing(),
            g.values() == Seq::new(REGISTER_SLOTS as nat, |i: int| RegisterValue::Unknown),
            g.calls() == Seq::<u32>::empty(),
    {
        let mut register_values: Vec<RegisterValue> = Vec::new();
        let mut i: usize = 0;
        while i < REGISTER_SLOTS
            invariant
                i <= REGISTER_SLOTS,
                register_values@ == Seq::new(i as nat, |k: int| RegisterValue::Unknown),
            decreases REGISTER_SLOTS - i,
        {
            register_values.push(RegisterValue::Unknown);
            i = i + 1;
            assert(register_values@ =~= Seq::new(i as nat, |k: int| RegisterValue::Unknown));
        }
        CodeGenerator { indent_level: 0, register_values, optimize: true, function_calls: Vec::new() }
    }

    /// The same generator with optimizations switched on or off.
    pub fn with_optimizations(self, optimize: bool) -> (g: CodeGenerator)
        ensures
            g.optimizing() == optimize,
            g.values() == self.values(),
            g.calls() == self.calls(),
            g.level() == self.level(),
            self.wf() ==> g.wf(),
    {
        let mut g = self;
        g.optimize = optimize;
        g
    }

    /// The current indentation.
    fn indent(&self) -> (s: String)
        ensures
            s@ == indent_text(self.indent_level as nat),
    {
        indent(self.indent_level)
    }

    /// What is known of register `reg`.
    fn get_register_value(&self, reg: u8) -> (v: RegisterValue)
        requires
            self.register_values@.len() == REGISTER_SLOTS,
        ensures
            v == self.register_values@[reg as int],
    {
        self.register_values[reg as usize]
    }

    /// The constant known for register `reg`, if any.
    fn known_value(&self, reg: u8) -> (v: Option<u32>)
        requires
            self.register_values@.len() == REGISTER_SLOTS,
        ensures
            v == known(self.register_values@, reg),
    {
        match self.get_register_value(reg) {
            RegisterValue::Constant(c) => Some(c),
            RegisterValue::Unknown => None,
        }
    }

    /// Records what is known of register `reg`.
    fn set_register_value(&mut self, reg: u8, value: RegisterValue)
        requires
            old(self).register_values@.len() == REGISTER_SLOTS,
        ensures
            final(self).register_values@ == old(self).register_values@.update(reg as int, value),
            final(self).indent_level == old(self).indent_level,
            final(self).function_calls@ == old(self).function_calls@,
            final(self).optimize == old(self).optimize,
    {
        self.register_values.set(reg as usize, value);
    }

    /// Arithmetic: folded to a constant when both inputs are known, else the
    /// run-time expression; `addic.` also records the result in CR0.
    fn generate_arithmetic(&mut self, inst: &DecodedInstruction) -> (r: Result<String, CodegenError>)
        requires
            old(self).inner_wf(),
        ensures
            final(self).inner_wf(),
            text_matches(r, arith_text(old(self).register_values@, old(self).indent_level as nat, inst@)),
            final(self).register_values@ == arith_vals(old(self).register_values@, inst@),
            final(self).indent_level == old(self).indent_level,
            final(self).function_calls@ == old(self).function_calls@,
            final(self).optimize == old(self).optimize,
    {
        let ghost vals = self.register_values@;
        let ghost v = inst@;
        let ops = &inst.instruction.operands;
        if ops.len() < 2 {
            return Err(CodegenError::MissingOperands);
        }
        let rt = match ops.get(0) {
            Operand::Register(r) => r,
            _ => {
                return Err(CodegenError::UnexpectedOperand);
            },
        };
        let ra = match ops.get(1) {
            Operand::Register(r) => r,
            _ => {
                return Err(CodegenError::UnexpectedOperand);
            },
        };
        let (op, update_cr) = arith_op_of(inst.instruction.opcode, inst.raw);
        let (rb_expr, rb_value): (String, Option<u32>) = if ops.len() > 2 {
            match ops.get(2) {
                Operand::Register(r) => (reg_expr(r as u32), self.known_value(r)),
                Operand::Immediate(i) => {
                    let c = i as u32;
                    (u32_literal(c), Some(c))
                },
                Operand::Immediate32(i) => {
                    let c = i as u32;
                    (u32_literal(c), Some(c))
                },
                _ => (String::from_str("0u32"), Some(0u32)),
            }
        } else {
            (String::from_str("0u32"), Some(0u32))
        };
        assert(rb_expr@ == arith_rhs(vals, v.operands).0 && rb_value == arith_rhs(vals, v.operands).1);
        let ra_value = self.known_value(ra);
        let level = self.indent_level;
        let mut code = String::new();
        let mut c = String::from_str("ctx.set_register(");
        append_dec(&mut c, rt as u64);
        c.append(", ");
        match (ra_value, rb_value) {
            (Some(a), Some(b)) => {
                let folded = fold_value(op, a, b);
                let lit = u32_literal(folded);
                c.append(lit.as_str());
                c.append("); // Optimized: constant folding\n");
                push_line(&mut code, level, c.as_str());
                self.set_register_value(rt, RegisterValue::Constant(folded));
            },
            _ => {
                let e = arith_expression(op, ra, rb_expr.as_str());
                c.append(e.as_str());
                c.append(");\n");
                push_line(&mut code, level, c.as_str());
                self.set_register_value(rt, RegisterValue::Unknown);
            },
        }
        let ghost main = code@;
        if update_cr {
            let mut c1 = String::from_str("let result = ");
            let g = reg_expr(rt as u32);
            c1.append(g.as_str());
            c1.append(";\n");
            push_line(&mut code, level, c1.as_str());
            push_line(
                &mut code,
                level,
                "let cr_field = if result == 0 { 0x2u8 } else if (result as i32) < 0 { 0x8u8 } else { 0x4u8 };\n",
            );
            push_line(&mut code, level, "ctx.set_cr_field(0, cr_field);\n");
            assert(code@ =~= main + emit::cr0_update_text(level as nat, rt));
        }
        assert(code@ =~= arith_text(vals, level as nat, v)->Ok_0);
        Ok(code)
    }
    /// Target and source registers of a two-register form with at least
    /// `min` operands.
    fn two_registers(inst: &DecodedInstruction, min: usize) -> (r: Result<(u8, u8), CodegenError>)
        requires
            min >= 2,
        ensures
            r == two_regs(inst@.operands, min as nat),
    {
        let ops = &inst.instruction.operands;
        if ops.len() < min {
            return Err(CodegenError::MissingOperands);
        }
        match (ops.get(0), ops.get(1)) {
            (Operand::Register(a), Operand::Register(b)) => Ok((a, b)),
            _ => Err(CodegenError::UnexpectedOperand),
        }
    }

    /// Displacement of a load or store: its immediate, else zero.
    fn mem_offset(inst: &DecodedInstruction) -> (d: i32)
        requires
            inst@.operands.len() >= 3,
        ensures
            d == emit::mem_offset(inst@.operands),
    {
        match inst.instruction.operands.get(2) {
            Operand::Immediate(i) => i as i32,
            _ => 0,
        }
    }

    /// The run-time address computation of a load or store.
    fn push_addr_line(code: &mut String, level: usize, ra: u8, offset: i32)
        ensures
            final(code)@ == old(code)@ + emit::addr_line(level as nat, ra, offset),
    {
        let mut c = String::from_str("let addr = ");
        let g = reg_expr(ra as u32);
        c.append(g.as_str());
        c.append(" as u32 + ");
        let d = i32_literal(offset);
        c.append(d.as_str());
        c.append(" as u32;\n");
        push_line(code, level, c.as_str());
    }

    /// Load: a constant address when the base register is known.
    fn generate_load(&mut self, inst: &DecodedInstruction) -> (r: Result<String, CodegenError>)
        requires
            old(self).inner_wf(),
        ensures
            final(self).inner_wf(),
            text_matches(r, load_text(old(self).register_values@, old(self).indent_level as nat, inst@)),
            final(self).register_values@ == load_vals(old(self).register_values@, inst@),
            final(self).indent_level == old(self).indent_level,
            final(self).function_calls@ == old(self).function_calls@,
            final(self).optimize == old(self).optimize,
    {
        let ghost vals = self.register_values@;
        let (rt, ra) = match Self::two_registers(inst, 3) {
            Ok(p) => p,
            Err(e) => {
                return Err(e);
            },
        };
        let offset = Self::mem_offset(inst);
        let level = self.indent_level;
        let mut code = String::new();
        match self.known_value(ra) {
            Some(base) => {
                let mut c = String::from_str("let value = memory.read_u32(0x");
                append_hex(&mut c, base.wrapping_add(offset as u32), 8);
                c.append("u32).unwrap_or(0u32); // Optimized: constant address\n");
                push_line(&mut code, level, c.as_str());
            },
            None => {
                Self::push_addr_line(&mut code, level, ra, offset);
                push_line(&mut code, level, "let value = memory.read_u32(addr).unwrap_or(0u32);\n");
            },
        }
        let mut c = String::from_str("ctx.set_register(");
        append_dec(&mut c, rt as u64);
        c.append(", value);\n");
        push_line(&mut code, level, c.as_str());
        self.set_register_value(rt, RegisterValue::Unknown);
        assert(code@ =~= load_text(vals, level as nat, inst@)->Ok_0);
        Ok(code)
    }

    /// Store: the stored value as a literal when known, a constant address
    /// when the base register is known.
    fn generate_store(&self, inst: &DecodedInstruction) -> (r: Result<String, CodegenError>)
        requires
            self.inner_wf(),
        ensures
            text_matches(r, store_text(self.register_values@, self.indent_level as nat, inst@)),
    {
        let ghost vals = self.register_values@;
        let (rs, ra) = match Self::two_registers(inst, 3) {
            Ok(p) => p,
            Err(e) => {
                return Err(e);
            },
        };
        let offset = Self::mem_offset(inst);
        let level = self.indent_level;
        let value = match self.known_value(rs) {
            Some(v) => u32_literal(v),
            None => reg_expr(rs as u32),
        };
        let mut code = String::new();
        match self.known_value(ra) {
            Some(base) => {
                let mut c = String::from_str("memory.write_u32(0x");
                append_hex(&mut c, base.wrapping_add(offset as u32), 8);
                c.append("u32, ");
                c.append(value.as_str());
                c.append(").unwrap_or(()); // Optimized: constant address\n");
                push_line(&mut code, level, c.as_str());
            },
            None => {
                Self::push_addr_line(&mut code, level, ra, offset);
                let mut c = String::from_str("memory.write_u32(addr, ");
                c.append(value.as_str());
                c.append(").unwrap_or(());\n");
                push_line(&mut code, level, c.as_str());
            },
        }
        assert(code@ =~= store_text(vals, level as nat, inst@)->Ok_0);
        Ok(code)
    }
    /// Branch: `b` sets the program counter and returns, `bl` sets the link
    /// register, records the target and calls it, `bc` returns when its CR
    /// bit is set, any other branch returns.
    fn generate_branch(&mut self, inst: &DecodedInstruction) -> (r: Result<String, CodegenError>)
        requires
            old(self).inner_wf(),
        ensures
            final(self).inner_wf(),
            r matches Ok(s) && s@ == branch_text(old(self).indent_level as nat, inst@),
            final(self).function_calls@ == (if inst@.raw >> 26u32 == 18 && inst@.raw & 1 != 0 {
                old(self).function_calls@.push(emit::branch_target(inst@))
            } else {
                old(self).function_calls@
            }),
            final(self).register_values@ == old(self).register_values@,
            final(self).indent_level == old(self).indent_level,
            final(self).optimize == old(self).optimize,
    {
        let raw = inst.raw;
        let primary = raw >> 26;
        let level = self.indent_level;
        let mut code = String::new();
        if primary == 18 {
            let li_words: i32 = match inst.instruction.operands.first() {
                Some(Operand::Immediate32(li)) => li,
                Some(Operand::Address(a)) => (a as i32) >> 2u32,
                _ => 0,
            };
            assert(li_words == emit::branch_words(inst@.operands));
            let aa = (raw >> 1) & 1;
            let lk = raw & 1;
            let disp = li_words.wrapping_mul(4);
            let target = if aa != 0 {
                disp as u32
            } else {
                inst.address.wrapping_add(disp as u32)
            };
            assert(target == emit::branch_target(inst@));
            if lk != 0 {
                self.function_calls.push(target);
                let mut c = String::from_str("ctx.lr = 0x");
                append_hex(&mut c, inst.address.wrapping_add(4), 8);
                c.append("u32;\n");
                push_line(&mut code, level, c.as_str());
                let mut c2 = String::from_str("if let Ok(Some(rv)) = call_function_by_address(0x");
                append_hex(&mut c2, target, 8);
                c2.append("u32, ctx, memory) { ctx.set_register(3, rv); }\n");
                push_line(&mut code, level, c2.as_str());
            } else {
                let mut c = String::from_str("ctx.pc = 0x");
                append_hex(&mut c, target, 8);
                c.append("u32;\n");
                push_line(&mut code, level, c.as_str());
                push_line(&mut code, level, "return Ok(Some(ctx.get_register(3)));\n");
            }
        } else if primary == 16 {
            let bi: u8 = match inst.instruction.operands.get_opt(1) {
                Some(Operand::Condition(c)) => c,
                _ => 0,
            };
            assert(bi == emit::branch_bi(inst@.operands));
            let mut c = String::from_str("if (ctx.get_cr_field(");
            append_dec(&mut c, (bi / 4) as u64);
            c.append(") >> ");
            append_dec(&mut c, (bi % 4) as u64);
            c.append(") & 1 != 0 { return Ok(Some(ctx.get_register(3))); }\n");
            push_line(&mut code, level, c.as_str());
        } else {
            push_line(&mut code, level, "return Ok(Some(ctx.get_register(3)));\n");
        }
        assert(code@ =~= branch_text(level as nat, inst@));
        Ok(code)
    }

    /// Compare: LT, GT or EQ of the two operands into CR field BF.
    fn generate_compare(&mut self, inst: &DecodedInstruction) -> (r: Result<String, CodegenError>)
        requires
            old(self).inner_wf(),
        ensures
            final(self).inner_wf(),
            text_matches(r, compare_text(old(self).indent_level as nat, inst@)),
            final(self).register_values@ == old(self).register_values@,
            final(self).indent_level == old(self).indent_level,
            final(self).function_calls@ == old(self).function_calls@,
            final(self).optimize == old(self).optimize,
    {
        let ghost level0 = self.indent_level as nat;
        let ops = &inst.instruction.operands;
        if ops.len() < 2 {
            return Err(CodegenError::MissingOperands);
        }
        let bf: u8 = match ops.get(0) {
            Operand::Condition(c) => c,
            _ => 0,
        };
        let ra = match ops.get(1) {
            Operand::Register(r) => r,
            _ => {
                return Err(CodegenError::UnexpectedOperand);
            },
        };
        let compare_value = if ops.len() > 2 {
            match ops.get(2) {
                Operand::Register(rb) => reg_expr(rb as u32),
                Operand::Immediate(i) => i32_literal(i as i32),
                _ => String::from_str("0i32"),
            }
        } else {
            String::from_str("0i32")
        };
        assert(compare_value@ == emit::compare_rhs(inst@.operands));
        let is_unsigned = inst.instruction.opcode == 10;
        let ty = if is_unsigned {
            "u32"
        } else {
            "i32"
        };
        let mut code = String::new();
        let mut c1 = String::from_str("let ra_val = ");
        let g = reg_expr(ra as u32);
        c1.append(g.as_str());
        c1.append(" as ");
        c1.append(ty);
        c1.append(";\n");
        push_line(&mut code, self.indent_level, c1.as_str());
        let mut c2 = String::from_str("let rb_val = ");
        c2.append(compare_value.as_str());
        c2.append(" as ");
        c2.append(ty);
        c2.append(";\n");
        push_line(&mut code, self.indent_level, c2.as_str());
        push_line(&mut code, self.indent_level, "let cr_field = if ra_val < rb_val {\n");
        self.indent_level = self.indent_level + 1;
        push_line(&mut code, self.indent_level, "0x8u8 // Less than\n");
        self.indent_level = self.indent_level - 1;
        push_line(&mut code, self.indent_level, "} else if ra_val > rb_val {\n");
        self.indent_level = self.indent_level + 1;
        push_line(&mut code, self.indent_level, "0x4u8 // Greater than\n");
        self.indent_level = self.indent_level - 1;
        push_line(&mut code, self.indent_level, "} else {\n");
        self.indent_level = self.indent_level + 1;
        push_line(&mut code, self.indent_level, "0x2u8 // Equal\n");
        self.indent_level = self.indent_level - 1;
        push_line(&mut code, self.indent_level, "};\n");
        let mut c3 = String::from_str("ctx.set_cr_field(");
        append_dec(&mut c3, bf as u64);
        c3.append(", cr_field);\n");
        push_line(&mut code, self.indent_level, c3.as_str());
        assert(code@ =~= compare_text(level0, inst@)->Ok_0);
        Ok(code)
    }

    /// Move: a single register operand receives the link register.
    fn generate_move(&self, inst: &DecodedInstruction) -> (r: Result<String, CodegenError>)
        requires
            self.inner_wf(),
        ensures
            text_matches(r, move_text(self.indent_level as nat, inst@)),
    {
        let ops = &inst.instruction.operands;
        if ops.is_empty() {
            return Err(CodegenError::MissingOperands);
        }
        let mut code = String::new();
        if ops.len() == 1 {
            let reg = match ops.get(0) {
                Operand::Register(r) => r,
                _ => {
                    return Err(CodegenError::UnexpectedOperand);
                },
            };
            let mut c = String::from_str("ctx.set_register(");
            append_dec(&mut c, reg as u64);
            c.append(", ctx.lr); // Move from/to link register\n");
            push_line(&mut code, self.indent_level, c.as_str());
            assert(code@ =~= move_text(self.indent_level as nat, inst@)->Ok_0);
        } else {
            assert(code@ =~= move_text(self.indent_level as nat, inst@)->Ok_0);
        }
        Ok(code)
    }
    /// The effective address of a D-form floating-point load or store.
    fn fp_address(raw: u32) -> (s: String)
        ensures
            s@ == fp_ea(raw),
    {
        let ra = (raw >> 16) & 0x1F;
        let d = ((raw & 0xFFFF) as i16) as i32;
        if ra == 0 {
            u32_literal(d as u32)
        } else {
            let mut s = reg_expr(ra);
            s.append(".wrapping_add(");
            let l = i32_literal(d);
            s.append(l.as_str());
            s.append(" as u32)");
            s
        }
    }

    /// The expression of an arithmetic floating-point instruction.
    fn fp_expression(raw: u32) -> (s: String)
        ensures
            s@ == fp_expr(raw),
    {
        let a_form = (raw >> 1) & 0x1F;
        let x_form = (raw >> 1) & 0x3FF;
        let fa = fpr_expr((raw >> 16) & 0x1F);
        let fb = fpr_expr((raw >> 11) & 0x1F);
        let fc = fpr_expr((raw >> 6) & 0x1F);
        let mut s = String::new();
        if a_form == 21 || a_form == 20 || a_form == 18 {
            s.append(fa.as_str());
            if a_form == 21 {
                s.append(" + ");
            } else if a_form == 20 {
                s.append(" - ");
            } else {
                s.append(" / ");
            }
            s.append(fb.as_str());
        } else if a_form == 25 {
            s.append(fa.as_str());
            s.append(" * ");
            s.append(fc.as_str());
        } else if a_form == 29 || a_form == 28 || a_form == 31 || a_form == 30 {
            if a_form == 31 || a_form == 30 {
                s.append("-(");
            }
            s.append(fa.as_str());
            s.append(" * ");
            s.append(fc.as_str());
            if a_form == 29 || a_form == 31 {
                s.append(" + ");
            } else {
                s.append(" - ");
            }
            s.append(fb.as_str());
            if a_form == 31 || a_form == 30 {
                s.append(")");
            }
        } else if x_form == 40 {
            s.append("-");
            s.append(fb.as_str());
        } else if x_form == 264 {
            s.append(fb.as_str());
            s.append(".abs()");
        } else if x_form == 136 {
            s.append("-");
            s.append(fb.as_str());
            s.append(".abs()");
        } else if x_form == 12 {
            s.append(fb.as_str());
            s.append(" as f32 as f64");
        } else {
            s.append(fb.as_str());
        }
        proof {
            assert(s@ =~= fp_expr(raw));
        }
        s
    }

    /// Floating point, decoded from the raw word: D-form loads and stores of
    /// singles and doubles, compares into a CR field, arithmetic, and a copy
    /// of FRB for anything else.
    fn generate_floating_point(&self, inst: &DecodedInstruction) -> (r: Result<String, CodegenError>)
        requires
            self.inner_wf(),
        ensures
            r matches Ok(s) && s@ == fp_text(self.indent_level as nat, inst@.raw),
    {
        let raw = inst.raw;
        let primary = raw >> 26;
        let frt = (raw >> 21) & 0x1F;
        let frb = (raw >> 11) & 0x1F;
        let level = self.indent_level;
        let ea = Self::fp_address(raw);
        let mut c = String::new();
        if primary == 48 || primary == 49 {
            c.append("{ let v = f32::from_bits(memory.read_u32(");
            c.append(ea.as_str());
            c.append(").unwrap_or(0)); ctx.set_fpr(");
            append_dec(&mut c, frt as u64);
            c.append(", v as f64); }\n");
        } else if primary == 50 || primary == 51 {
            c.append("ctx.set_fpr(");
            append_dec(&mut c, frt as u64);
            c.append(", f64::from_bits(memory.read_u64(");
            c.append(ea.as_str());
            c.append(").unwrap_or(0)));\n");
        } else if primary == 52 || primary == 53 {
            c.append("memory.write_u32(");
            c.append(ea.as_str());
            c.append(", (ctx.get_fpr(");
            append_dec(&mut c, frt as u64);
            c.append(") as f32).to_bits()).unwrap_or(());\n");
        } else if primary == 54 || primary == 55 {
            c.append("memory.write_u64(");
            c.append(ea.as_str());
            c.append(", ctx.get_fpr(");
            append_dec(&mut c, frt as u64);
            c.append(").to_bits()).unwrap_or(());\n");
        } else if primary == 4 || primary == 59 || primary == 63 {
            let x_form = (raw >> 1) & 0x3FF;
            if x_form == 0 || x_form == 32 {
                c.append("{ let a = ");
                let fa = fpr_expr((raw >> 16) & 0x1F);
                c.append(fa.as_str());
                c.append("; let b = ");
                let fb = fpr_expr(frb);
                c.append(fb.as_str());
                c.append("; ctx.set_cr_field(");
                append_dec(&mut c, ((raw >> 23) & 0x7) as u64);
                c.append(", if a < b { 0x8u8 } else if a > b { 0x4u8 } else { 0x2u8 }); }\n");
            } else {
                c.append("ctx.set_fpr(");
                append_dec(&mut c, frt as u64);
                c.append(", ");
                let e = Self::fp_expression(raw);
                c.append(e.as_str());
                c.append(");\n");
            }
        } else {
            c.append("ctx.set_fpr(");
            append_dec(&mut c, frt as u64);
            c.append(", ");
            let fb = fpr_expr(frb);
            c.append(fb.as_str());
            c.append(");\n");
        }
        let mut code = String::new();
        push_line(&mut code, level, c.as_str());
        assert(code@ =~= fp_text(level as nat, raw));
        Ok(code)
    }

    /// `ctx.get_cr_field(bit / 4)`.
    fn cr_field_expr(bit: u8) -> (s: String)
        ensures
            s@ == cr_get(bit),
    {
        let mut s = String::from_str("ctx.get_cr_field(");
        append_dec(&mut s, (bit / 4) as u64);
        s.append(")");
        s
    }

    /// The combining line of a CR logical instruction.
    fn cr_result_line(ext: u32, ba: u8, bb: u8) -> (s: String)
        ensures
            s@ == cr_result_text(ext, ba, bb),
    {
        let cr_op = if ext == 449 || ext == 33 || ext == 417 {
            "|"
        } else if ext == 193 || ext == 289 {
            "^"
        } else {
            "&"
        };
        assert(cr_op@ == emit::cr_op(ext));
        let a = Self::cr_field_expr(ba);
        let b = Self::cr_field_expr(bb);
        let negated = ext == 225 || ext == 33 || ext == 289;
        let mut s = if negated {
            String::from_str("let cr_result = !(")
        } else {
            String::from_str("let cr_result = ")
        };
        if negated {
            s.append(a.as_str());
            s.append(" ");
            s.append(cr_op);
            s.append(" ");
            s.append(b.as_str());
            s.append(");\n");
        } else if ext == 129 || ext == 417 {
            s.append(a.as_str());
            if ext == 129 {
                s.append(" & !");
            } else {
                s.append(" | !");
            }
            s.append(b.as_str());
            s.append(";\n");
        } else {
            s.append(a.as_str());
            s.append(" ");
            s.append(cr_op);
            s.append(" ");
            s.append(b.as_str());
            s.append(";\n");
        }
        proof {
            assert(s@ =~= cr_result_text(ext, ba, bb));
        }
        s
    }

    /// Condition register: a single register receives CR; three CR bits
    /// combine two CR fields into a third.
    fn generate_condition_register(&self, inst: &DecodedInstruction) -> (r: Result<String, CodegenError>)
        requires
            self.inner_wf(),
        ensures
            text_matches(r, cr_text(self.indent_level as nat, inst@)),
    {
        let ops = &inst.instruction.operands;
        let level = self.indent_level;
        let mut code = String::new();
        if ops.len() == 1 {
            let reg = match ops.get(0) {
                Operand::Register(r) => r,
                _ => {
                    return Err(CodegenError::UnexpectedOperand);
                },
            };
            let mut c = String::from_str("ctx.set_register(");
            append_dec(&mut c, reg as u64);
            c.append(", ctx.cr); // Move from/to condition register\n");
            push_line(&mut code, level, c.as_str());
        } else if ops.len() == 3 {
            let bt = match ops.get(0) {
                Operand::Condition(c) => c,
                _ => {
                    return Err(CodegenError::UnexpectedOperand);
                },
            };
            let ba = match ops.get(1) {
                Operand::Condition(c) => c,
                _ => {
                    return Err(CodegenError::UnexpectedOperand);
                },
            };
            let bb = match ops.get(2) {
                Operand::Condition(c) => c,
                _ => {
                    return Err(CodegenError::UnexpectedOperand);
                },
            };
            let mut c1 = String::from_str("let cr_a = ");
            let fa = Self::cr_field_expr(ba);
            c1.append(fa.as_str());
            c1.append(";\n");
            push_line(&mut code, level, c1.as_str());
            let mut c2 = String::from_str("let cr_b = ");
            let fb = Self::cr_field_expr(bb);
            c2.append(fb.as_str());
            c2.append(";\n");
            push_line(&mut code, level, c2.as_str());
            let ext = (inst.raw >> 1) & 0x3FF;
            let c3 = Self::cr_result_line(ext, ba, bb);
            push_line(&mut code, level, c3.as_str());
            let mut c4 = String::from_str("ctx.set_cr_field(");
            append_dec(&mut c4, (bt / 4) as u64);
            c4.append(", cr_result);\n");
            push_line(&mut code, level, c4.as_str());
        }
        assert(code@ =~= cr_text(level as nat, inst@)->Ok_0);
        Ok(code)
    }

    /// Shift: the source shifted left by the amount masked to five bits.
    fn generate_shift(&self, inst: &DecodedInstruction) -> (r: Result<String, CodegenError>)
        requires
            self.inner_wf(),
        ensures
            text_matches(r, shift_text(self.indent_level as nat, inst@)),
    {
        let (rs, ra) = match Self::two_registers(inst, 3) {
            Ok(p) => p,
            Err(e) => {
                return Err(e);
            },
        };
        let sh_expr = match inst.instruction.operands.get(2) {
            Operand::ShiftAmount(s) => u32_literal((s as u32) & 0x1F),
            Operand::Register(r) => {
                let mut t = String::from_str("(");
                let g = reg_expr(r as u32);
                t.append(g.as_str());
                t.append(" & 0x1F)");
                t
            },
            _ => {
                return Err(CodegenError::UnexpectedOperand);
            },
        };
        let mut c = String::from_str("ctx.set_register(");
        append_dec(&mut c, ra as u64);
        c.append(", ");
        let g = reg_expr(rs as u32);
        c.append(g.as_str());
        c.append(" << ");
        c.append(sh_expr.as_str());
        c.append(");\n");
        let mut code = String::new();
        push_line(&mut code, self.indent_level, c.as_str());
        assert(code@ =~= shift_text(self.indent_level as nat, inst@)->Ok_0);
        Ok(code)
    }

    /// Rotate: rotate left, then mask.
    fn generate_rotate(&self, inst: &DecodedInstruction) -> (r: Result<String, CodegenError>)
        requires
            self.inner_wf(),
        ensures
            text_matches(r, rotate_text(self.indent_level as nat, inst@)),
    {
        let (rs, ra) = match Self::two_registers(inst, 4) {
            Ok(p) => p,
            Err(e) => {
                return Err(e);
            },
        };
        let sh = match inst.instruction.operands.get(2) {
            Operand::ShiftAmount(s) => s,
            _ => {
                return Err(CodegenError::UnexpectedOperand);
            },
        };
        let mask = match inst.instruction.operands.get(3) {
            Operand::Mask(m) => m,
            _ => {
                return Err(CodegenError::UnexpectedOperand);
            },
        };
        let level = self.indent_level;
        let mut code = String::new();
        let mut c1 = String::from_str("let rotated = ");
        let g = reg_expr(rs as u32);
        c1.append(g.as_str());
        c1.append(".rotate_left(");
        append_dec(&mut c1, sh as u64);
        c1.append(" as u32);\n");
        push_line(&mut code, level, c1.as_str());
        let mut c2 = String::from_str("let masked = rotated & 0x");
        append_hex(&mut c2, mask, 8);
        c2.append("u32;\n");
        push_line(&mut code, level, c2.as_str());
        let mut c3 = String::from_str("ctx.set_register(");
        append_dec(&mut c3, ra as u64);
        c3.append(", masked);\n");
        push_line(&mut code, level, c3.as_str());
        assert(code@ =~= rotate_text(level as nat, inst@)->Ok_0);
        Ok(code)
    }

    /// System instructions: comments naming what they do.
    fn generate_system(&self, inst: &DecodedInstruction) -> (r: Result<String, CodegenError>)
        requires
            self.inner_wf(),
        ensures
            r matches Ok(s) && s@ == system_text(self.indent_level as nat, inst@),
    {
        let ops = &inst.instruction.operands;
        let level = self.indent_level;
        let mut code = String::new();
        if !ops.is_empty() {
            match ops.get(0) {
                Operand::SpecialRegister(spr) => {
                    let mut c = String::from_str("// System register operation: SPR ");
                    append_dec(&mut c, spr as u64);
                    c.append("\n");
                    push_line(&mut code, level, c.as_str());
                    if ops.len() > 1 {
                        match ops.get(1) {
                            Operand::Register(rt) => {
                                let mut c2 = String::from_str("// Move from/to SPR ");
                                append_dec(&mut c2, spr as u64);
                                c2.append(" to/from r");
                                append_dec(&mut c2, rt as u64);
                                c2.append("\n");
                                push_line(&mut code, level, c2.as_str());
                            },
                            _ => {},
                        }
                    }
                },
                _ => {
                    push_line(&mut code, level, "// Cache control or memory synchronization\n");
                },
            }
        } else {
            let mut c = String::from_str("// System instruction: opcode 0x");
            append_hex(&mut c, inst.instruction.opcode, 2);
            c.append("\n");
            push_line(&mut code, level, c.as_str());
            push_line(&mut code, level, "// System instructions typically require special handling\n");
        }
        assert(code@ =~= system_text(level as nat, inst@));
        Ok(code)
    }

    /// One comment line for an instruction of no modelled category.
    fn generate_generic(&self, inst: &DecodedInstruction) -> (r: Result<String, CodegenError>)
        requires
            self.inner_wf(),
        ensures
            r matches Ok(s) && s@ == generic_text(self.indent_level as nat, inst@),
    {
        let mut c = String::from_str("// untranslated 0x");
        append_hex(&mut c, inst.raw, 8);
        c.append(" (type ");
        c.append(inst.instruction.instruction_type.name());
        c.append(")\n");
        let mut code = String::new();
        push_line(&mut code, self.indent_level, c.as_str());
        assert(code@ =~= generic_text(self.indent_level as nat, inst@));
        Ok(code)
    }
    /// One instruction, by category.
    fn generate_instruction(&mut self, inst: &DecodedInstruction) -> (r: Result<String, CodegenError>)
        requires
            old(self).inner_wf(),
        ensures
            final(self).inner_wf(),
            text_matches(r, inst_text(old(self).register_values@, old(self).indent_level as nat, inst@)),
            final(self).register_values@ == inst_vals(old(self).register_values@, inst@),
            final(self).function_calls@ == (match call_target(inst@) {
                Some(t) => old(self).function_calls@.push(t),
                None => old(self).function_calls@,
            }),
            final(self).indent_level == old(self).indent_level,
            final(self).optimize == old(self).optimize,
    {
        match inst.instruction.instruction_type {
            InstructionType::Arithmetic => self.generate_arithmetic(inst),
            InstructionType::Load => self.generate_load(inst),
            InstructionType::Store => self.generate_store(inst),
            InstructionType::Branch => self.generate_branch(inst),
            InstructionType::Compare => self.generate_compare(inst),
            InstructionType::Move => self.generate_move(inst),
            InstructionType::System => self.generate_system(inst),
            InstructionType::FloatingPoint => self.generate_floating_point(inst),
            InstructionType::ConditionRegister => self.generate_condition_register(inst),
            InstructionType::Shift => self.generate_shift(inst),
            InstructionType::Rotate => self.generate_rotate(inst),
            InstructionType::Unknown => self.generate_generic(inst),
        }
    }

    /// The instructions in order, a one-line comment for each that cannot be
    /// translated, then the return of r3.
    fn generate_function_body_impl(&mut self, instructions: &[DecodedInstruction]) -> (r: Result<
        String,
        CodegenError,
    >)
        requires
            old(self).inner_wf(),
        ensures
            final(self).inner_wf(),
            r matches Ok(s) && s@ == body_text(
                old(self).register_values@,
                old(self).indent_level as nat,
                views(instructions@),
            ),
            final(self).register_values@ == body_vals(old(self).register_values@, views(instructions@)),
            final(self).function_calls@ == old(self).function_calls@ + body_calls(views(instructions@)),
            final(self).indent_level == old(self).indent_level,
            final(self).optimize == old(self).optimize,
    {
        let ghost vals0 = self.register_values@;
        let ghost calls0 = self.function_calls@;
        let ghost vs = views(instructions@);
        let level = self.indent_level;
        let ghost optimize0 = self.optimize;
        let mut code = String::new();
        let mut i: usize = 0;
        assert(vs.take(0) =~= Seq::<InstructionView>::empty());
        assert(calls0 + Seq::<u32>::empty() =~= calls0);
        while i < instructions.len()
            invariant
                self.inner_wf(),
                self.indent_level == level,
                self.optimize == optimize0,
                vs == views(instructions@),
                i <= instructions@.len(),
                code@ == body_lines(vals0, level as nat, vs.take(i as int)),
                self.register_values@ == body_vals(vals0, vs.take(i as int)),
                self.function_calls@ == calls0 + body_calls(vs.take(i as int)),
            decreases instructions@.len() - i,
        {
            let inst = &instructions[i];
            let ghost before_vals = self.register_values@;
            let ghost before_calls = body_calls(vs.take(i as int));
            match self.generate_instruction(inst) {
                Ok(s) => {
                    code.append(s.as_str());
                },
                Err(_) => {
                    let mut c = String::from_str("// untranslated 0x");
                    append_hex(&mut c, inst.raw, 8);
                    c.append(" (opcode 0x");
                    append_hex(&mut c, inst.instruction.opcode, 2);
                    c.append(")\n");
                    push_line(&mut code, level, c.as_str());
                },
            }
            proof {
                let t = vs.take(i as int + 1);
                assert(t.drop_last() =~= vs.take(i as int));
                assert(t.last() == inst@);
                assert(code@ =~= body_lines(vals0, level as nat, t));
                match call_target(inst@) {
                    Some(x) => {
                        assert(calls0 + before_calls.push(x) =~= (calls0 + before_calls).push(x));
                    },
                    None => {},
                }
            }
            i = i + 1;
        }
        push_line(&mut code, level, "Ok(Some(ctx.get_register(3)))\n");
        assert(vs.take(instructions@.len() as int) =~= vs);
        Ok(code)
    }

    /// A function body: dead code is removed first, then the remaining
    /// instructions are translated in order.
    fn generate_function_body(&mut self, instructions: &[DecodedInstruction]) -> (r: Result<
        String,
        CodegenError,
    >)
        requires
            old(self).inner_wf(),
        ensures
            final(self).inner_wf(),
            r matches Ok(s) && s@ == body_text(
                old(self).register_values@,
                old(self).indent_level as nat,
                dead_code_free(views(instructions@)),
            ),
            final(self).register_values@ == body_vals(
                old(self).register_values@,
                dead_code_free(views(instructions@)),
            ),
            final(self).function_calls@ == old(self).function_calls@ + body_calls(
                dead_code_free(views(instructions@)),
            ),
            final(self).indent_level == old(self).indent_level,
            final(self).optimize == old(self).optimize,
    {
        let optimized = if instructions.len() > 0 {
            eliminate_dead_code(instructions)
        } else {
            assert(views(instructions@) =~= Seq::<InstructionView>::empty());
            let v: Vec<DecodedInstruction> = Vec::new();
            assert(views(v@) =~= dead_code_free(views(instructions@)));
            v
        };
        self.generate_function_body_impl(optimized.as_slice())
    }

    /// Makes a name into an identifier: space, hyphen and dot become an
    /// underscore, other characters that are neither alphanumeric nor an
    /// underscore are dropped.
    pub fn sanitize_identifier(&self, name: &str) -> (s: String)
        ensures
            s@ == sanitized(name@),
    {
        let n = name.unicode_len();
        let mut out = String::new();
        let mut i: usize = 0;
        assert(name@.take(0) =~= Seq::<char>::empty());
        while i < n
            invariant
                n == name@.len(),
                i <= n,
                out@ == sanitized(name@.take(i as int)),
            decreases n - i,
        {
            let c = name.get_char(i);
            if c == ' ' || c == '-' || c == '.' {
                push_char(&mut out, '_');
            } else if is_alphanumeric(c) || c == '_' {
                push_char(&mut out, c);
            }
            proof {
                let t = name@.take(i as int + 1);
                assert(t.drop_last() =~= name@.take(i as int));
                assert(t.last() == c);
                assert(out@ =~= sanitized(t));
            }
            i = i + 1;
        }
        assert(name@.take(n as int) =~= name@);
        out
    }

    /// Name of the generated function for a function called `name` at
    /// `address`: `func_0x` and the address for unnamed functions and those
    /// named `sub_...`, else the sanitized name, `_` and the address.
    pub fn function_name(&self, name: &str, address: u32) -> (f: String)
        ensures
            f@ == function_name_text(name@, address),
    {
        if name.unicode_len() == 0 || starts_with(name, "sub_") {
            let mut f = String::from_str("func_0x");
            append_hex(&mut f, address, 8);
            f
        } else {
            let mut f = self.sanitize_identifier(name);
            f.append("_");
            append_hex(&mut f, address, 8);
            f
        }
    }

    /// The signature: the function's name and the context and memory
    /// parameters every generated function takes.
    fn generate_function_signature(&self, metadata: &FunctionMetadata) -> (r: Result<String, CodegenError>)
        ensures
            r matches Ok(s) && s@ == signature_text(metadata.name@, metadata.address),
    {
        let func_name = self.function_name(metadata.name.as_str(), metadata.address);
        let mut sig = String::from_str("pub fn ");
        sig.append(func_name.as_str());
        sig.append("(");
        sig.append("ctx: &mut CpuContext, memory: &mut MemoryManager");
        sig.append(") -> Result<Option<u32>>");
        Ok(sig)
    }

    /// Generates a whole function: its signature, then its body one level
    /// deeper, then the closing brace. Register knowledge carries over from
    /// earlier functions, and the calls the body makes are recorded.
    pub fn generate_function(
        &mut self,
        metadata: &FunctionMetadata,
        instructions: &[DecodedInstruction],
    ) -> (r: Result<String, CodegenError>)
        requires
            old(self).wf(),
        ensures
            final(self).wf(),
            r matches Ok(s) && s@ == function_text(
                metadata.name@,
                metadata.address,
                old(self).values(),
                0,
                dead_code_free(views(instructions@)),
            ),
            final(self).values() == body_vals(old(self).values(), dead_code_free(views(instructions@))),
            final(self).calls() == old(self).calls() + body_calls(dead_code_free(views(instructions@))),
            final(self).optimizing() == old(self).optimizing(),
    {
        let mut code = String::new();
        match self.generate_function_signature(metadata) {
            Ok(sig) => {
                code.append(sig.as_str());
            },
            Err(e) => {
                return Err(e);
            },
        }
        code.append(" {\n");
        self.indent_level = self.indent_level + 1;
        match self.generate_function_body(instructions) {
            Ok(body) => {
                code.append(body.as_str());
            },
            Err(_) => {},
        }
        self.indent_level = self.indent_level - 1;
        code.append("}\n");
        assert(code@ =~= function_text(
            metadata.name@,
            metadata.address,
            old(self).values(),
            0,
            dead_code_free(views(instructions@)),
        ));
        Ok(code)
    }

    /// Rust spelling of a recovered type.
    fn type_to_rust(&self, ty: &TypeInfo) -> (s: String)
        ensures
            s@ == rust_type_text(*ty),
        decreases ty,
    {
        match ty {
            TypeInfo::Void => String::from_str("()"),
            TypeInfo::Integer { signed, size } => {
                let signed = *signed;
                let size = *size;
                if signed && size == 8 {
                    String::from_str("i8")
                } else if !signed && size == 8 {
                    String::from_str("u8")
                } else if signed && size == 16 {
                    String::from_str("i16")
                } else if !signed && size == 16 {
                    String::from_str("u16")
                } else if signed && size == 32 {
                    String::from_str("i32")
                } else if !signed && size == 32 {
                    String::from_str("u32")
                } else if signed && size == 64 {
                    String::from_str("i64")
                } else if !signed && size == 64 {
                    String::from_str("u64")
                } else {
                    String::from_str("u32")
                }
            },
            TypeInfo::Pointer { pointee } => {
                let mut s = String::from_str("*mut ");
                let inner = self.type_to_rust(pointee);
                s.append(inner.as_str());
                s
            },
            _ => String::from_str("u32"),
        }
    }

    /// The number of a register operand, as text; other operands are
    /// refused.
    fn get_register_name(&mut self, operand: &Operand) -> (r: Result<String, CodegenError>)
        ensures
            *final(self) == *old(self),
            match *operand {
                Operand::Register(n) => r matches Ok(s) && s@ == dec_nat(n as nat),
                _ => r == Err::<String, CodegenError>(CodegenError::UnexpectedOperand),
            },
    {
        match operand {
            Operand::Register(n) => {
                let mut s = String::new();
                append_dec(&mut s, *n as u64);
                Ok(s)
            },
            _ => Err(CodegenError::UnexpectedOperand),
        }
    }

    /// Splits instructions into blocks, each ending after a branch; the
    /// instructions after the last branch form a final block.
    fn build_basic_blocks<'a>(&self, instructions: &'a [DecodedInstruction]) -> (blocks: Vec<
        Vec<&'a DecodedInstruction>,
    >)
        ensures
            blocks@.map_values(|b: Vec<&DecodedInstruction>| views(b@.map_values(|d: &DecodedInstruction| *d)))
                == split_after_branches(views(instructions@)),
    {
        let ghost vs = views(instructions@);
        let mut blocks: Vec<Vec<&'a DecodedInstruction>> = Vec::new();
        let mut current_block: Vec<&'a DecodedInstruction> = Vec::new();
        let mut i: usize = 0;
        while i < instructions.len()
            invariant
                i <= instructions@.len(),
                vs == views(instructions@),
                split_prefix_state(vs, i as int) == (
                    blocks@.map_values(|b: Vec<&DecodedInstruction>| views(b@.map_values(|d: &DecodedInstruction| *d))),
                    views(current_block@.map_values(|d: &DecodedInstruction| *d)),
                ),
            decreases instructions@.len() - i,
        {
            let inst = &instructions[i];
            assert(vs[i as int] == inst@);
            let ghost cur0 = current_block@;
            current_block.push(inst);
            assert(views(current_block@.map_values(|d: &DecodedInstruction| *d)) =~= views(
                cur0.map_values(|d: &DecodedInstruction| *d),
            ).push(inst@));
            match inst.instruction.instruction_type {
                InstructionType::Branch => {
                    let ghost b0 = blocks@;
                    let mut full: Vec<&'a DecodedInstruction> = Vec::new();
                    std::mem::swap(&mut full, &mut current_block);
                    let ghost fv = views(full@.map_values(|d: &DecodedInstruction| *d));
                    blocks.push(full);
                    assert(blocks@.map_values(|b: Vec<&DecodedInstruction>| views(b@.map_values(|d: &DecodedInstruction| *d)))
                        =~= b0.map_values(|b: Vec<&DecodedInstruction>| views(b@.map_values(|d: &DecodedInstruction| *d))).push(
                        fv,
                    ));
                    assert(views(current_block@.map_values(|d: &DecodedInstruction| *d)) =~= Seq::<InstructionView>::empty());
                },
                _ => {},
            }
            i = i + 1;
        }
        if current_block.len() > 0 {
            let ghost b0 = blocks@;
            let ghost last = views(current_block@.map_values(|d: &DecodedInstruction| *d));
            blocks.push(current_block);
            assert(blocks@.map_values(|b: Vec<&DecodedInstruction>| views(b@.map_values(|d: &DecodedInstruction| *d)))
                =~= b0.map_values(|b: Vec<&DecodedInstruction>| views(b@.map_values(|d: &DecodedInstruction| *d))).push(last));
        }
        blocks
    }
}

/// Blocks closed so far and the open block, after the first `n`
/// instructions: a branch closes the open block.
pub open spec fn split_prefix_state(vs: Seq<InstructionView>, n: int) -> (Seq<Seq<InstructionView>>, Seq<InstructionView>)
    decreases n,
{
    if n <= 0 || n > vs.len() {
        (seq![], seq![])
    } else {
        let (done, cur) = split_prefix_state(vs, n - 1);
        let cur2 = cur.push(vs[n - 1]);
        if vs[n - 1].instruction_type == InstructionType::Branch {
            (done.push(cur2), seq![])
        } else {
            (done, cur2)
        }
    }
}

/// The blocks of a sequence split after each branch, with the trailing
/// instructions as a last block when there are any.
pub open spec fn split_after_branches(vs: Seq<InstructionView>) -> Seq<Seq<InstructionView>> {
    let (done, cur) = split_prefix_state(vs, vs.len() as int);
    if cur.len() > 0 {
        done.push(cur)
    } else {
        done
    }
}

impl Default for CodeGenerator {
    fn default() -> (g: CodeGenerator)
        ensures
            g.wf(),
            g.optimizing(),
            g.values() == Seq::new(REGISTER_SLOTS as nat, |i: int| RegisterValue::Unknown),
            g.calls() == Seq::<u32>::empty(),
    {
        CodeGenerator::new()
    }
}

} // verus!
