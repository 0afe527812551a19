//! Checks on generated Rust code and on the analyses it is built from.
use vstd::prelude::*;
use std::collections::HashMap;
use crate::analysis::TypeInfo;
use crate::chars::{chars_of, contains_chars, has_seq};
use crate::control_flow::ControlFlowGraph;
use crate::decoder::{DecodedInstruction, InstructionType, InstructionView, Operand, views};
use crate::error::RecompilerError;
use crate::text::{append_dec, append_hex, dec_nat, hex_text};

verus! {

/// Number of occurrences of `c` in `s`.
pub open spec fn count_char(s: Seq<char>, c: char) -> nat
    decreases s.len(),
{
    if s.len() == 0 {
        0
    } else {
        count_char(s.drop_last(), c) + if s.last() == c {
            1nat
        } else {
            0nat
        }
    }
}

/// The message for unbalanced delimiters of a kind.
pub open spec fn unbalanced_message(kind: Seq<char>, open: nat, close: nat) -> Seq<char> {
    "Unbalanced "@ + kind + " in generated code: "@ + dec_nat(open) + " open, "@ + dec_nat(close)
        + " close. This indicates a syntax error in code generation."@
}

/// The outcome of checking generated code: it must define a function and
/// balance its braces, parentheses and brackets, checked in that order.
pub open spec fn code_check(code: Seq<char>) -> Result<(), Seq<char>> {
    if !has_seq(code, "fn "@) {
        Err("Generated code must contain at least one function definition"@)
    } else if count_char(code, '{') != count_char(code, '}') {
        Err(unbalanced_message("braces"@, count_char(code, '{'), count_char(code, '}')))
    } else if count_char(code, '(') != count_char(code, ')') {
        Err(unbalanced_message("parentheses"@, count_char(code, '('), count_char(code, ')')))
    } else if count_char(code, '[') != count_char(code, ']') {
        Err(unbalanced_message("brackets"@, count_char(code, '['), count_char(code, ']')))
    } else {
        Ok(())
    }
}

/// Whether an executable result is the stated validation outcome.
pub open spec fn validation_matches(r: Result<(), RecompilerError>, s: Result<(), Seq<char>>) -> bool {
    match (r, s) {
        (Ok(_), Ok(_)) => true,
        (Err(RecompilerError::ValidationError(m)), Err(t)) => m@ == t,
        _ => false,
    }
}

/// Counts of the six delimiter characters.
fn delimiter_counts(code: &Vec<char>) -> (r: [usize; 6])
    ensures
        r[0] == count_char(code@, '{'),
        r[1] == count_char(code@, '}'),
        r[2] == count_char(code@, '('),
        r[3] == count_char(code@, ')'),
        r[4] == count_char(code@, '['),
        r[5] == count_char(code@, ']'),
{
    let mut r: [usize; 6] = [0; 6];
    let mut i: usize = 0;
    while i < code.len()
        invariant
            i <= code@.len(),
            r[0] == count_char(code@.subrange(0, i as int), '{'),
            r[1] == count_char(code@.subrange(0, i as int), '}'),
            r[2] == count_char(code@.subrange(0, i as int), '('),
            r[3] == count_char(code@.subrange(0, i as int), ')'),
            r[4] == count_char(code@.subrange(0, i as int), '['),
            r[5] == count_char(code@.subrange(0, i as int), ']'),
            forall|k: int| 0 <= k < 6 ==> r[k] <= i,
        decreases code@.len() - i,
    {
        let c = code[i];
        assert(code@.subrange(0, i + 1).drop_last() =~= code@.subrange(0, i as int));
        if c == '{' {
            r.set(0, r[0] + 1);
        } else if c == '}' {
            r.set(1, r[1] + 1);
        } else if c == '(' {
            r.set(2, r[2] + 1);
        } else if c == ')' {
            r.set(3, r[3] + 1);
        } else if c == '[' {
            r.set(4, r[4] + 1);
        } else if c == ']' {
            r.set(5, r[5] + 1);
        }
        i = i + 1;
    }
    assert(code@.subrange(0, code@.len() as int) =~= code@);
    r
}

/// The message for unbalanced delimiters.
fn unbalanced(kind: &str, open: usize, close: usize) -> (m: String)
    ensures
        m@ == unbalanced_message(kind@, open as nat, close as nat),
{
    let mut m = String::from_str("Unbalanced ");
    m.append(kind);
    m.append(" in generated code: ");
    append_dec(&mut m, open as u64);
    m.append(" open, ");
    append_dec(&mut m, close as u64);
    m.append(" close. This indicates a syntax error in code generation.");
    m
}

/// Checks of generated code and of analysis results.
pub struct CodeValidator;

impl CodeValidator {
    /// Checks generated code: it must contain a function definition and
    /// balanced braces, parentheses and brackets.
    pub fn validate_rust_code(code: &str) -> (r: Result<(), RecompilerError>)
        ensures
            validation_matches(r, code_check(code@)),
    {
        let text = chars_of(code);
        let fn_word = chars_of("fn ");
        if !contains_chars(text.as_slice(), fn_word.as_slice()) {
            return Err(
                RecompilerError::ValidationError(
                    String::from_str("Generated code must contain at least one function definition"),
                ),
            );
        }
        let counts = delimiter_counts(&text);
        if counts[0] != counts[1] {
            return Err(RecompilerError::ValidationError(unbalanced("braces", counts[0], counts[1])));
        }
        if counts[2] != counts[3] {
            return Err(
                RecompilerError::ValidationError(unbalanced("parentheses", counts[2], counts[3])),
            );
        }
        if counts[4] != counts[5] {
            return Err(
                RecompilerError::ValidationError(unbalanced("brackets", counts[4], counts[5])),
            );
        }
        Ok(())
    }

    /// Checks one generated function as `validate_rust_code` does.
    pub fn validate_function(function_code: &str) -> (r: Result<(), RecompilerError>)
        ensures
            validation_matches(r, code_check(function_code@)),
    {
        Self::validate_rust_code(function_code)
    }
}

/// The message for a CFG index out of bounds.
pub open spec fn bounds_message(what: Seq<char>, index: nat, n: nat) -> Seq<char> {
    "CFG "@ + what + " "@ + dec_nat(index) + " is out of bounds ("@ + dec_nat(n) + " nodes)"@
}

/// The first edge among the first `k` that names a block outside `n` blocks.
pub open spec fn first_bad_edge(edges: Seq<crate::control_flow::Edge>, n: nat, k: nat) -> Option<Seq<char>>
    decreases k,
{
    if k == 0 || k > edges.len() {
        None
    } else {
        match first_bad_edge(edges, n, (k - 1) as nat) {
            Some(m) => Some(m),
            None => {
                let e = edges[k - 1];
                if e.from >= n {
                    Some(bounds_message("edge from node"@, e.from as nat, n))
                } else if e.to >= n {
                    Some(bounds_message("edge to node"@, e.to as nat, n))
                } else {
                    None
                }
            },
        }
    }
}

/// The outcome of checking a graph: its entry block and every edge's ends
/// must be blocks of the graph.
pub open spec fn cfg_check(g: crate::control_flow::GraphView) -> Result<(), Seq<char>> {
    let n = g.nodes.len();
    if g.entry_block >= n {
        Err(bounds_message("entry block index"@, g.entry_block as nat, n))
    } else {
        match first_bad_edge(g.edges, n, g.edges.len()) {
            Some(m) => Err(m),
            None => Ok(()),
        }
    }
}

/// The message for an operand out of range.
pub open spec fn operand_message(what: Seq<char>, value: nat, address: u32, range: Seq<char>) -> Seq<
    char,
> {
    "Invalid "@ + what + " "@ + dec_nat(value) + " at address 0x"@ + hex_text(address as nat, 8)
        + " (must be "@ + range + ")"@
}

/// What is wrong with an operand: a register above 31, a condition field
/// above 7 or a shift amount above 31.
pub open spec fn operand_issue(o: Operand, address: u32) -> Option<Seq<char>> {
    match o {
        Operand::Register(r) => if r > 31 {
            Some(operand_message("register"@, r as nat, address, "0-31"@))
        } else {
            None
        },
        Operand::FpRegister(r) => if r > 31 {
            Some(operand_message("register"@, r as nat, address, "0-31"@))
        } else {
            None
        },
        Operand::Condition(c) => if c > 7 {
            Some(operand_message("condition register field"@, c as nat, address, "0-7"@))
        } else {
            None
        },
        Operand::ShiftAmount(sa) => if sa > 31 {
            Some(operand_message("shift amount"@, sa as nat, address, "0-31"@))
        } else {
            None
        },
        _ => None,
    }
}

/// The first operand issue among the first `k` operands.
pub open spec fn first_operand_issue(ops: Seq<Operand>, address: u32, k: nat) -> Option<Seq<char>>
    decreases k,
{
    if k == 0 || k > ops.len() {
        None
    } else {
        match first_operand_issue(ops, address, (k - 1) as nat) {
            Some(m) => Some(m),
            None => operand_issue(ops[k - 1], address),
        }
    }
}

/// The first operand issue among the first `k` instructions.
pub open spec fn first_register_issue(vs: Seq<InstructionView>, k: nat) -> Option<Seq<char>>
    decreases k,
{
    if k == 0 || k > vs.len() {
        None
    } else {
        match first_register_issue(vs, (k - 1) as nat) {
            Some(m) => Some(m),
            None => first_operand_issue(vs[k - 1].operands, vs[k - 1].address, vs[k - 1].operands.len()),
        }
    }
}

/// The message for a CFG index out of bounds.
fn bounds(what: &str, index: u64, n: u64) -> (m: String)
    ensures
        m@ == bounds_message(what@, index as nat, n as nat),
{
    let mut m = String::from_str("CFG ");
    m.append(what);
    m.append(" ");
    append_dec(&mut m, index);
    m.append(" is out of bounds (");
    append_dec(&mut m, n);
    m.append(" nodes)");
    m
}

/// The message for an operand out of range.
fn operand_error(what: &str, value: u64, address: u32, range: &str) -> (m: String)
    ensures
        m@ == operand_message(what@, value as nat, address, range@),
{
    let mut m = String::from_str("Invalid ");
    m.append(what);
    m.append(" ");
    append_dec(&mut m, value);
    m.append(" at address 0x");
    append_hex(&mut m, address, 8);
    m.append(" (must be ");
    m.append(range);
    m.append(")");
    m
}

/// What is wrong with an operand, if anything.
fn check_operand(o: Operand, address: u32) -> (r: Option<String>)
    ensures
        match (r, operand_issue(o, address)) {
            (Some(m), Some(t)) => m@ == t,
            (None, None) => true,
            _ => false,
        },
{
    match o {
        Operand::Register(r) | Operand::FpRegister(r) => if r > 31 {
            Some(operand_error("register", r as u64, address, "0-31"))
        } else {
            None
        },
        Operand::Condition(c) => if c > 7 {
            Some(operand_error("condition register field", c as u64, address, "0-7"))
        } else {
            None
        },
        Operand::ShiftAmount(sa) => if sa > 31 {
            Some(operand_error("shift amount", sa as u64, address, "0-31"))
        } else {
            None
        },
        _ => None,
    }
}

impl CodeValidator {
    /// Checks that the graph's entry block and every edge's ends are blocks
    /// of the graph.
    pub fn validate_cfg(cfg: &ControlFlowGraph) -> (r: Result<(), RecompilerError>)
        ensures
            validation_matches(r, cfg_check(cfg@)),
    {
        let n = cfg.nodes.len();
        if cfg.entry_block as usize >= n {
            return Err(
                RecompilerError::ValidationError(bounds("entry block index", cfg.entry_block as u64, n as u64)),
            );
        }
        let mut k: usize = 0;
        while k < cfg.edges.len()
            invariant
                k <= cfg.edges@.len(),
                n == cfg@.nodes.len(),
                (cfg@.entry_block as int) < n,
                first_bad_edge(cfg@.edges, n as nat, k as nat) == None::<Seq<char>>,
            decreases cfg.edges@.len() - k,
        {
            let e = cfg.edges[k];
            proof {
                if (e.from as int) >= n || (e.to as int) >= n {
                    lemma_bad_edge_sticks(cfg@.edges, n as nat, (k + 1) as nat);
                }
            }
            if e.from as usize >= n {
                return Err(
                    RecompilerError::ValidationError(bounds("edge from node", e.from as u64, n as u64)),
                );
            }
            if e.to as usize >= n {
                return Err(
                    RecompilerError::ValidationError(bounds("edge to node", e.to as u64, n as u64)),
                );
            }
            k = k + 1;
        }
        Ok(())
    }

    /// Checks every operand: registers 0-31, condition fields 0-7, shift
    /// amounts 0-31; reports the first that is out of range.
    pub fn validate_register_usage(instructions: &[DecodedInstruction]) -> (r: Result<(), RecompilerError>)
        ensures
            validation_matches(
                r,
                match first_register_issue(views(instructions@), instructions@.len()) {
                    Some(m) => Err(m),
                    None => Ok(()),
                },
            ),
    {
        let ghost vs = views(instructions@);
        let mut i: usize = 0;
        while i < instructions.len()
            invariant
                i <= instructions@.len(),
                vs == views(instructions@),
                first_register_issue(vs, i as nat) == None::<Seq<char>>,
            decreases instructions@.len() - i,
        {
            let inst = &instructions[i];
            assert(vs[i as int] == inst@);
            let ops = &inst.instruction.operands;
            let m = ops.len();
            let mut j: usize = 0;
            while j < m
                invariant
                    j <= m,
                    m == inst@.operands.len(),
                    ops@ == inst@.operands,
                    first_operand_issue(inst@.operands, inst@.address, j as nat) == None::<Seq<char>>,
                    i < instructions@.len(),
                    vs == views(instructions@),
                    vs[i as int] == inst@,
                    first_register_issue(vs, i as nat) == None::<Seq<char>>,
                decreases m - j,
            {
                match check_operand(ops.get(j), inst.address) {
                    Some(msg) => {
                        proof {
                            lemma_operand_issue_sticks(inst@.operands, inst@.address, (j + 1) as nat);
                            lemma_register_issue_sticks(vs, (i + 1) as nat);
                        }
                        return Err(RecompilerError::ValidationError(msg));
                    },
                    None => {},
                }
                j = j + 1;
            }
            i = i + 1;
        }
        Ok(())
    }

    /// Checks the address operands of loads and stores; every 32-bit
    /// address is in range, so this always succeeds.
    pub fn validate_memory_accesses(instructions: &[DecodedInstruction]) -> (r: Result<(), RecompilerError>)
        ensures
            r is Ok,
    {
        let mut i: usize = 0;
        while i < instructions.len()
            invariant
                i <= instructions@.len(),
            decreases instructions@.len() - i,
        {
            let inst = &instructions[i];
            match inst.instruction.instruction_type {
                InstructionType::Load | InstructionType::Store => {
                    let ops = &inst.instruction.operands;
                    let mut j: usize = 0;
                    while j < ops.len()
                        invariant
                            j <= ops@.len(),
                        decreases ops@.len() - j,
                    {
                        match ops.get(j) {
                            Operand::Address(addr) => {
                                assert(addr <= 0xFFFF_FFFF);
                            },
                            _ => {},
                        }
                        j = j + 1;
                    }
                },
                _ => {},
            }
            i = i + 1;
        }
        Ok(())
    }

    /// Type consistency of registers; every assignment of types passes.
    pub fn validate_types(
        instructions: &[DecodedInstruction],
        register_types: &HashMap<u8, TypeInfo>,
    ) -> (r: Result<(), RecompilerError>)
        ensures
            r is Ok,
    {
        Ok(())
    }
}

/// Once a bad edge is found, it stays the first one.
proof fn lemma_bad_edge_sticks(edges: Seq<crate::control_flow::Edge>, n: nat, k: nat)
    requires
        k <= edges.len(),
        first_bad_edge(edges, n, k) is Some,
    ensures
        first_bad_edge(edges, n, edges.len()) == first_bad_edge(edges, n, k),
    decreases edges.len() - k,
{
    if k < edges.len() {
        lemma_bad_edge_sticks(edges, n, k + 1);
    }
}

/// Once an operand issue is found, it stays the first one.
proof fn lemma_operand_issue_sticks(ops: Seq<Operand>, address: u32, k: nat)
    requires
        k <= ops.len(),
        first_operand_issue(ops, address, k) is Some,
    ensures
        first_operand_issue(ops, address, ops.len()) == first_operand_issue(ops, address, k),
    decreases ops.len() - k,
{
    if k < ops.len() {
        lemma_operand_issue_sticks(ops, address, k + 1);
    }
}

/// Once a register issue is found, it stays the first one.
proof fn lemma_register_issue_sticks(vs: Seq<InstructionView>, k: nat)
    requires
        k <= vs.len(),
        first_register_issue(vs, k) is Some,
    ensures
        first_register_issue(vs, vs.len()) == first_register_issue(vs, k),
    decreases vs.len() - k,
{
    if k < vs.len() {
        lemma_register_issue_sticks(vs, k + 1);
    }
}

} // verus!
