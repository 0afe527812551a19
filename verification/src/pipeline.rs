//! The recompilation pipeline: decode the text sections of a DOL file, map
//! the decoded instructions to the functions the analysis found, generate a
//! Rust module with one function each and an address dispatcher, and check
//! the result.
use vstd::prelude::*;
use crate::analysis::{FunctionMetadata, ParameterInfo, TypeInfo, VariableInfo, dead_code_free};
use crate::codegen::CodeGenerator;
use crate::codegen::emit::{RegisterValue, body_vals, function_name_text, function_text, hex8};
use crate::codegen::REGISTER_SLOTS;
use crate::decoder::{
    DecodedInstruction,
    Instruction,
    InstructionView,
    classify,
    lemma_layout_registers,
    primary_opcode,
    spec_operands,
    spec_type,
    views,
};
use crate::data_flow::{
    DataFlowAnalyzer,
    def_of,
    distinct_ids,
    graph_registers_in_range,
    lemma_instruction_in_range,
    operand_registers_in_range,
    registers_in_range,
    uses_of,
};
use crate::dol::{DolError, DolFile, Section, parse_error, parsed_as};
use crate::control_flow::{
    ControlFlowAnalyzer,
    ControlFlowGraph,
    GraphView,
    law_cfg_partition,
    lemma_block_instructions,
    spec_cfg,
};
use crate::error::RecompilerError;
use crate::ghidra::{FunctionInfo, GhidraAnalysis};
use crate::memory::be_u32;
use crate::text::{append_hex, push_char};
use crate::validator::{CodeValidator, code_check, validation_matches};

verus! {

/// Size of the address space: addresses wrap modulo this.
pub open spec fn address_space() -> int {
    0x1_0000_0000
}

/// What decoding `word` at `address` yields.
pub open spec fn decoded_view(word: u32, address: u32) -> InstructionView {
    InstructionView {
        raw: word,
        address,
        opcode: primary_opcode(word),
        instruction_type: spec_type(word),
        operands: spec_operands(word),
    }
}

/// Address of the `k`-th word of a section loaded at `base`, wrapping.
pub open spec fn word_address(base: u32, k: int) -> u32 {
    ((base + 4 * k) % address_space()) as u32
}

/// The instructions of a section image: each whole big-endian word, decoded
/// at its address; a trailing partial word is ignored.
pub open spec fn section_words(data: Seq<u8>, base: u32) -> Seq<InstructionView> {
    Seq::new(
        data.len() / 4,
        |k: int| decoded_view(be_u32(data.subrange(4 * k, 4 * k + 4)), word_address(base, k)),
    )
}

/// The instructions of the text sections, section after section.
pub open spec fn text_instructions(sections: Seq<Section>) -> Seq<InstructionView>
    decreases sections.len(),
{
    if sections.len() == 0 {
        seq![]
    } else {
        text_instructions(sections.drop_last()) + section_words(
            sections.last().data@,
            sections.last().address,
        )
    }
}

/// Number of whole words in the text sections.
pub open spec fn text_word_count(sections: Seq<Section>) -> int
    decreases sections.len(),
{
    if sections.len() == 0 {
        0
    } else {
        text_word_count(sections.drop_last()) + sections.last().data@.len() / 4
    }
}

/// End of a function's range: a size of zero counts as one instruction, and
/// the end wraps.
pub open spec fn function_end(address: u32, size: u32) -> u32 {
    let s: int = if size == 0 {
        4
    } else {
        size as int
    };
    ((address + s) % address_space()) as u32
}

/// Whether an instruction address lies in a function's range.
pub open spec fn in_function(address: u32, size: u32, a: u32) -> bool {
    address <= a && a < function_end(address, size)
}

/// The instructions that lie in a function's range, in their order.
pub open spec fn instructions_in(insts: Seq<InstructionView>, address: u32, size: u32) -> Seq<
    InstructionView,
>
    decreases insts.len(),
{
    if insts.len() == 0 {
        seq![]
    } else {
        let rest = instructions_in(insts.drop_last(), address, size);
        if in_function(address, size, insts.last().address) {
            rest.push(insts.last())
        } else {
            rest
        }
    }
}

/// Generated code so far, the register knowledge it leaves, and how many
/// functions were generated and skipped.
pub struct GenState {
    pub text: Seq<char>,
    pub vals: Seq<RegisterValue>,
    pub successful: nat,
    pub failed: nat,
}

/// Code for the functions in order: a function with no instructions is
/// skipped and counted as failed; otherwise its code follows, then an empty
/// line, and the register knowledge carries on to the next function.
pub open spec fn functions_code(
    fs: Seq<FunctionInfo>,
    insts: Seq<InstructionView>,
    vals: Seq<RegisterValue>,
) -> GenState
    decreases fs.len(),
{
    if fs.len() == 0 {
        GenState { text: seq![], vals, successful: 0, failed: 0 }
    } else {
        let prev = functions_code(fs.drop_last(), insts, vals);
        let f = fs.last();
        let mine = instructions_in(insts, f.address, f.size);
        if mine.len() == 0 {
            GenState {
                text: prev.text,
                vals: prev.vals,
                successful: prev.successful,
                failed: prev.failed + 1,
            }
        } else {
            let body = dead_code_free(mine);
            GenState {
                text: prev.text + function_text(f.name@, f.address, prev.vals, 0, body) + "\n"@,
                vals: body_vals(prev.vals, body),
                successful: prev.successful + 1,
                failed: prev.failed,
            }
        }
    }
}

/// Register knowledge of a fresh code generator.
pub open spec fn fresh_values() -> Seq<RegisterValue> {
    Seq::new(REGISTER_SLOTS as nat, |i: int| RegisterValue::Unknown)
}

/// The lines that open a generated module.
pub open spec fn module_header() -> Seq<char> {
    "//! Recompiled GameCube game functions\n"@ + "//! Generated by GCRecomp\n\n"@
        + "use crate::runtime::context::CpuContext;\n"@
        + "use crate::runtime::memory::MemoryManager;\n"@ + "use anyhow::Result;\n\n"@
}

/// The dispatcher arm of a function.
pub open spec fn dispatch_arm(f: FunctionInfo) -> Seq<char> {
    "        0x"@ + hex8(f.address) + "u32 => "@ + function_name_text(f.name@, f.address)
        + "(ctx, memory),\n"@
}

/// The dispatcher arms of the functions in order.
pub open spec fn dispatch_arms(fs: Seq<FunctionInfo>) -> Seq<char>
    decreases fs.len(),
{
    if fs.len() == 0 {
        seq![]
    } else {
        dispatch_arms(fs.drop_last()) + dispatch_arm(fs.last())
    }
}

/// The documented dispatcher that a full recompilation appends.
pub open spec fn full_dispatcher(fs: Seq<FunctionInfo>) -> Seq<char> {
    "\n/// Function dispatcher - calls recompiled functions by address\n"@
        + "/// This is generated automatically to handle indirect function calls\n"@
        + "pub fn call_function_by_address(\n"@ + "    address: u32,\n"@
        + "    ctx: &mut CpuContext,\n"@ + "    memory: &mut MemoryManager,\n"@
        + ") -> Result<Option<u32>> {\n"@ + "    // Static function address mapping\n"@
        + "    match address {\n"@ + dispatch_arms(fs) + "        _ => {\n"@
        + "            log::warn!("@ + seq!['\u{22}'] + "Unknown function address: 0x{:08X}"@
        + seq!['\u{22}'] + ", address);\n"@
        + "            Ok(None)\n"@ + "        }\n"@ + "    }\n"@ + "}\n\n"@
}

/// The short dispatcher that the code-generation stage appends.
pub open spec fn stage_dispatcher(fs: Seq<FunctionInfo>) -> Seq<char> {
    "\npub fn call_function_by_address(\n    address: u32,\n    ctx: &mut CpuContext,\n    memory: &mut MemoryManager,\n) -> Result<Option<u32>> {\n    match address {\n"@
        + dispatch_arms(fs) + "        _ => Ok(None),\n    }\n}\n"@
}

/// The module a full recompilation generates.
pub open spec fn program_text(fs: Seq<FunctionInfo>, insts: Seq<InstructionView>) -> Seq<char> {
    module_header() + functions_code(fs, insts, fresh_values()).text + full_dispatcher(fs)
}

/// The module the code-generation stage generates.
pub open spec fn stage_text(fs: Seq<FunctionInfo>, insts: Seq<InstructionView>) -> Seq<char> {
    module_header() + functions_code(fs, insts, fresh_values()).text + stage_dispatcher(fs)
}

/// Counts gathered while the pipeline runs.
#[derive(Debug, Clone, Copy, PartialEq, Eq, Structural)]
pub struct PipelineStats {
    pub total_functions: usize,
    pub successful_functions: usize,
    pub failed_functions: usize,
    pub total_instructions: usize,
}

impl Default for PipelineStats {
    fn default() -> (s: PipelineStats)
        ensures
            s.total_functions == 0 && s.successful_functions == 0 && s.failed_functions == 0
                && s.total_instructions == 0,
    {
        PipelineStats {
            total_functions: 0,
            successful_functions: 0,
            failed_functions: 0,
            total_instructions: 0,
        }
    }
}

/// Drives the stages of a recompilation.
pub struct RecompilationPipeline;

/// Decodes the text sections and generates code from them; private helpers
/// of the pipeline live here too.
impl RecompilationPipeline {
    /// Decodes every whole word of every text section, in order, at its
    /// load address.
    pub fn decode_all_instructions(dol_file: &DolFile) -> (r: Vec<DecodedInstruction>)
        ensures
            views(r@) == text_instructions(dol_file.text_sections@),
    {
        let mut instructions: Vec<DecodedInstruction> = Vec::new();
        let mut s: usize = 0;
        while s < dol_file.text_sections.len()
            invariant
                s <= dol_file.text_sections@.len(),
                views(instructions@) == text_instructions(dol_file.text_sections@.take(s as int)),
            decreases dol_file.text_sections@.len() - s,
        {
            let section = &dol_file.text_sections[s];
            let ghost before = views(instructions@);
            let ghost words = section_words(section.data@, section.address);
            let len = section.data.len();
            let mut i: usize = 0;
            let mut addr: u32 = section.address;
            while len - i >= 4
                invariant
                    len == section.data@.len(),
                    i <= len,
                    i % 4 == 0,
                    words == section_words(section.data@, section.address),
                    addr == word_address(section.address, i as int / 4),
                    views(instructions@) == before + words.take(i as int / 4),
                decreases len - i,
            {
                let word: u32 = ((section.data[i] as u32) << 24u32) | ((section.data[i + 1] as u32)
                    << 16u32) | ((section.data[i + 2] as u32) << 8u32) | (section.data[i
                    + 3] as u32);
                let ghost k: int = i as int / 4;
                proof {
                    let b = section.data@.subrange(4 * k, 4 * k + 4);
                    assert(b[0] == section.data@[i as int]);
                    assert(b[1] == section.data@[i + 1]);
                    assert(b[2] == section.data@[i + 2]);
                    assert(b[3] == section.data@[i + 3]);
                    assert(word == be_u32(b));
                    assert(k < section.data@.len() / 4);
                }
                match Instruction::decode(word, addr) {
                    Ok(d) => {
                        instructions.push(d);
                        assert(words[k] == d@);
                        assert(before + words.take(k + 1) =~= (before + words.take(k)).push(
                            words[k],
                        ));
                        assert(views(instructions@) =~= views(instructions@.drop_last()).push(d@));
                    },
                    Err(_) => {},
                }
                proof {
                    let x: int = section.address + 4 * k;
                    vstd::arithmetic::div_mod::lemma_add_mod_noop(x, 4, address_space());
                    assert(4int % address_space() == 4);
                }
                addr = addr.wrapping_add(4);
                i = i + 4;
            }
            proof {
                assert(i as int / 4 == section.data@.len() / 4);
                assert(words.take(i as int / 4) =~= words);
                let t = dol_file.text_sections@.take(s + 1);
                assert(t.drop_last() =~= dol_file.text_sections@.take(s as int));
                assert(t.last() == dol_file.text_sections@[s as int]);
            }
            s = s + 1;
        }
        assert(dol_file.text_sections@.take(s as int) =~= dol_file.text_sections@);
        instructions
    }

    /// The instructions whose address lies in the function's range
    /// `address <= a < address + size` (size zero counting as four bytes,
    /// the end wrapping), in their order.
    pub fn map_instructions_to_function(func: &FunctionInfo, instructions: &[DecodedInstruction]) -> (r:
        Vec<DecodedInstruction>)
        ensures
            views(r@) == instructions_in(views(instructions@), func.address, func.size),
    {
        let func_size: u32 = if func.size == 0 {
            4
        } else {
            func.size
        };
        let func_end: u32 = func.address.wrapping_add(func_size);
        assert(func_end == function_end(func.address, func.size));
        let mut out: Vec<DecodedInstruction> = Vec::new();
        let mut i: usize = 0;
        while i < instructions.len()
            invariant
                i <= instructions@.len(),
                func_end == function_end(func.address, func.size),
                views(out@) == instructions_in(
                    views(instructions@.take(i as int)),
                    func.address,
                    func.size,
                ),
            decreases instructions@.len() - i,
        {
            let inst = &instructions[i];
            proof {
                assert(instructions@.take(i + 1).drop_last() =~= instructions@.take(i as int));
                assert(views(instructions@.take(i + 1)).drop_last() =~= views(
                    instructions@.take(i as int),
                ));
            }
            if func.address <= inst.address && inst.address < func_end {
                out.push(inst.duplicate());
                assert(views(out@) =~= views(out@.drop_last()).push(out@.last()@));
            }
            i = i + 1;
        }
        assert(instructions@.take(i as int) =~= instructions@);
        out
    }

    /// The metadata the code generator gets for a function the analysis
    /// found: its address, name, size and calling convention, its
    /// parameters and locals with unknown types.
    fn metadata_for(func: &FunctionInfo) -> (m: FunctionMetadata)
        ensures
            m.name@ == func.name@,
            m.address == func.address,
            m.size == func.size,
    {
        let mut parameters: Vec<ParameterInfo> = Vec::new();
        let mut i: usize = 0;
        while i < func.parameters.len()
            invariant
                i <= func.parameters@.len(),
            decreases func.parameters@.len() - i,
        {
            let p = &func.parameters[i];
            let stack_offset: i32 = match p.offset {
                Some(o) => o,
                None => 0,
            };
            parameters.push(
                ParameterInfo {
                    name: p.name.clone(),
                    type_info: TypeInfo::Unknown,
                    register: None,
                    stack_offset,
                },
            );
            i = i + 1;
        }
        let mut local_variables: Vec<VariableInfo> = Vec::new();
        let mut j: usize = 0;
        while j < func.local_variables.len()
            invariant
                j <= func.local_variables@.len(),
            decreases func.local_variables@.len() - j,
        {
            let v = &func.local_variables[j];
            local_variables.push(
                VariableInfo {
                    name: v.name.clone(),
                    type_info: TypeInfo::Unknown,
                    stack_offset: v.offset,
                    scope_start: 0,
                    scope_end: 0,
                },
            );
            j = j + 1;
        }
        FunctionMetadata {
            address: func.address,
            name: func.name.clone(),
            size: func.size,
            calling_convention: func.calling_convention.clone(),
            parameters,
            return_type: None,
            local_variables,
            basic_blocks: Vec::new(),
        }
    }

    /// Appends the code of each function in turn, as `functions_code`
    /// states, and returns how many were generated and how many skipped.
    fn append_functions(
        codegen: &mut CodeGenerator,
        functions: &[FunctionInfo],
        instructions: &[DecodedInstruction],
        code: &mut String,
    ) -> (counts: (usize, usize))
        requires
            old(codegen).wf(),
        ensures
            final(codegen).wf(),
            ({
                let g = functions_code(functions@, views(instructions@), old(codegen).values());
                &&& final(code)@ == old(code)@ + g.text
                &&& final(codegen).values() == g.vals
                &&& counts.0 == g.successful
                &&& counts.1 == g.failed
            }),
    {
        let ghost vs = views(instructions@);
        let ghost vals0 = codegen.values();
        let ghost code0 = code@;
        let mut successful: usize = 0;
        let mut failed: usize = 0;
        let mut i: usize = 0;
        while i < functions.len()
            invariant
                i <= functions@.len(),
                vs == views(instructions@),
                codegen.wf(),
                ({
                    let g = functions_code(functions@.take(i as int), vs, vals0);
                    &&& code@ == code0 + g.text
                    &&& codegen.values() == g.vals
                    &&& successful == g.successful
                    &&& failed == g.failed
                    &&& g.successful + g.failed == i
                }),
            decreases functions@.len() - i,
        {
            let func = &functions[i];
            proof {
                let t = functions@.take(i + 1);
                assert(t.drop_last() =~= functions@.take(i as int));
                assert(t.last() == functions@[i as int]);
            }
            let func_instructions = Self::map_instructions_to_function(func, instructions);
            if func_instructions.len() == 0 {
                failed = failed + 1;
            } else {
                let metadata = Self::metadata_for(func);
                match codegen.generate_function(&metadata, func_instructions.as_slice()) {
                    Ok(func_code) => {
                        code.append(func_code.as_str());
                        code.append("\n");
                        successful = successful + 1;
                    },
                    Err(_) => {
                        failed = failed + 1;
                    },
                }
            }
            proof {
                let g = functions_code(functions@.take(i + 1), vs, vals0);
                let g0 = functions_code(functions@.take(i as int), vs, vals0);
                assert(code@ =~= code0 + g.text);
            }
            i = i + 1;
        }
        assert(functions@.take(i as int) =~= functions@);
        (successful, failed)
    }

    /// Appends the dispatcher arm of each function in turn.
    fn append_dispatch_arms(codegen: &CodeGenerator, functions: &[FunctionInfo], code: &mut String)
        ensures
            final(code)@ == old(code)@ + dispatch_arms(functions@),
    {
        let ghost code0 = code@;
        let mut i: usize = 0;
        while i < functions.len()
            invariant
                i <= functions@.len(),
                code@ == code0 + dispatch_arms(functions@.take(i as int)),
            decreases functions@.len() - i,
        {
            let func = &functions[i];
            proof {
                let t = functions@.take(i + 1);
                assert(t.drop_last() =~= functions@.take(i as int));
                assert(t.last() == functions@[i as int]);
            }
            code.append("        0x");
            append_hex(code, func.address, 8);
            code.append("u32 => ");
            let name = codegen.function_name(func.name.as_str(), func.address);
            code.append(name.as_str());
            code.append("(ctx, memory),\n");
            assert(code@ =~= code0 + dispatch_arms(functions@.take(i + 1)));
            i = i + 1;
        }
        assert(functions@.take(i as int) =~= functions@);
    }

    /// Appends the lines that open a generated module.
    fn append_header(code: &mut String)
        ensures
            final(code)@ == old(code)@ + module_header(),
    {
        code.append("//! Recompiled GameCube game functions\n");
        code.append("//! Generated by GCRecomp\n\n");
        code.append("use crate::runtime::context::CpuContext;\n");
        code.append("use crate::runtime::memory::MemoryManager;\n");
        code.append("use anyhow::Result;\n\n");
        assert(code@ =~= old(code)@ + module_header());
    }
}

/// The number of decoded instructions is the number of whole words.
pub proof fn lemma_text_len(sections: Seq<Section>)
    ensures
        text_instructions(sections).len() == text_word_count(sections),
    decreases sections.len(),
{
    if sections.len() > 0 {
        lemma_text_len(sections.drop_last());
    }
}

/// Every register operand of a decoded program names one of the 32 GPRs.
proof fn lemma_text_operands(sections: Seq<Section>)
    ensures
        forall|i: int|
            0 <= i < text_instructions(sections).len() ==> operand_registers_in_range(
                #[trigger] text_instructions(sections)[i].operands,
            ),
    decreases sections.len(),
{
    if sections.len() > 0 {
        lemma_text_operands(sections.drop_last());
        let prev = text_instructions(sections.drop_last());
        let last = sections.last();
        let ws = section_words(last.data@, last.address);
        assert(text_instructions(sections) == prev + ws);
        assert forall|i: int| 0 <= i < (prev + ws).len() implies operand_registers_in_range(
            #[trigger] (prev + ws)[i].operands,
        ) by {
            if i >= prev.len() {
                let k = i - prev.len();
                let word = be_u32(last.data@.subrange(4 * k, 4 * k + 4));
                lemma_layout_registers(classify(word).1, word);
                assert((prev + ws)[i].operands == spec_operands(word));
            }
        }
    }
}

/// The graph of a decoded program has distinct block identifiers and
/// tracks every register its blocks write or read.
proof fn lemma_program_graph(sections: Seq<Section>)
    requires
        text_word_count(sections) < 0x4000_0000,
    ensures
        distinct_ids(spec_cfg(text_instructions(sections), 0).nodes),
        graph_registers_in_range(spec_cfg(text_instructions(sections), 0).nodes),
{
    let vs = text_instructions(sections);
    lemma_text_len(sections);
    lemma_text_operands(sections);
    let p = |v: InstructionView|
        (def_of(v) matches Some(r) ==> r < 32) && forall|j: int|
            0 <= j < uses_of(v).len() ==> uses_of(v)[j] < 32;
    assert forall|i: int| 0 <= i < vs.len() implies p(#[trigger] vs[i]) by {
        lemma_instruction_in_range(vs[i]);
        assert(seq![vs[i]][0] == vs[i]);
    }
    lemma_block_instructions(vs, 0, p);
    law_cfg_partition(vs, 0);
    let nodes = spec_cfg(vs, 0).nodes;
    assert forall|q: int| 0 <= q < nodes.len() implies registers_in_range(
        (#[trigger] nodes[q]).instructions,
    ) by {
        assert forall|i: int| 0 <= i < nodes[q].instructions.len() implies p(
            #[trigger] nodes[q].instructions[i],
        ) by {}
    }
}

/// Why a pipeline stage could not run.
#[derive(Debug)]
pub enum PipelineError {
    /// No DOL file has been loaded.
    NoDolFile,
    /// No analysis results are present.
    NoGhidraAnalysis,
    /// No instructions have been decoded.
    NoInstructions,
    /// No control-flow graph has been built.
    NoCfg,
    /// No code has been generated.
    NoCode,
    /// The DOL file was refused.
    Dol(DolError),
    /// The generated code failed validation.
    Invalid(RecompilerError),
}

/// State carried from one pipeline stage to the next.
pub struct PipelineContext {
    pub dol_file: Option<DolFile>,
    pub ghidra_analysis: Option<GhidraAnalysis>,
    pub instructions: Option<Vec<DecodedInstruction>>,
    pub cfg: Option<ControlFlowGraph>,
    pub rust_code: Option<String>,
    pub stats: PipelineStats,
}

impl PipelineContext {
    /// A context before any stage ran.
    pub fn new() -> (c: PipelineContext)
        ensures
            c.dol_file is None,
            c.ghidra_analysis is None,
            c.instructions is None,
            c.cfg is None,
            c.rust_code is None,
            c.stats == (PipelineStats {
                total_functions: 0,
                successful_functions: 0,
                failed_functions: 0,
                total_instructions: 0,
            }),
    {
        PipelineContext {
            dol_file: None,
            ghidra_analysis: None,
            instructions: None,
            cfg: None,
            rust_code: None,
            stats: PipelineStats::default(),
        }
    }
}

/// The outcome of generating `code` and validating it.
pub open spec fn checked_code(r: Result<String, RecompilerError>, code: Seq<char>) -> bool {
    match code_check(code) {
        Ok(_) => r matches Ok(s) && s@ == code,
        Err(m) => r matches Err(RecompilerError::ValidationError(t)) && t@ == m,
    }
}

impl RecompilationPipeline {
    /// Generates the module for the functions of an analysis and the
    /// instructions of a program, with the short dispatcher, and the counts
    /// of generated and skipped functions.
    fn generate_stage_code(functions: &[FunctionInfo], instructions: &[DecodedInstruction]) -> (r: (
        String,
        usize,
        usize,
    ))
        ensures
            r.0@ == stage_text(functions@, views(instructions@)),
            r.1 == functions_code(functions@, views(instructions@), fresh_values()).successful,
            r.2 == functions_code(functions@, views(instructions@), fresh_values()).failed,
    {
        let mut codegen = CodeGenerator::new();
        let mut code = String::new();
        Self::append_header(&mut code);
        let counts = Self::append_functions(&mut codegen, functions, instructions, &mut code);
        code.append("\npub fn call_function_by_address(\n    address: u32,\n    ctx: &mut CpuContext,\n    memory: &mut MemoryManager,\n) -> Result<Option<u32>> {\n    match address {\n");
        Self::append_dispatch_arms(&codegen, functions, &mut code);
        code.append("        _ => Ok(None),\n    }\n}\n");
        assert(code@ =~= stage_text(functions@, views(instructions@)));
        (code, counts.0, counts.1)
    }

    /// Appends the documented dispatcher.
    fn append_full_dispatcher(codegen: &CodeGenerator, functions: &[FunctionInfo], rust_code: &mut String)
        ensures
            final(rust_code)@ == old(rust_code)@ + full_dispatcher(functions@),
    {
        let ghost c0 = rust_code@;
        rust_code.append("\n/// Function dispatcher - calls recompiled functions by address\n");
        rust_code.append("/// This is generated automatically to handle indirect function calls\n");
        rust_code.append("pub fn call_function_by_address(\n");
        rust_code.append("    address: u32,\n");
        rust_code.append("    ctx: &mut CpuContext,\n");
        rust_code.append("    memory: &mut MemoryManager,\n");
        rust_code.append(") -> Result<Option<u32>> {\n");
        rust_code.append("    // Static function address mapping\n");
        rust_code.append("    match address {\n");
        Self::append_dispatch_arms(codegen, functions, rust_code);
        rust_code.append("        _ => {\n");
        rust_code.append("            log::warn!(");
        push_char(rust_code, '\u{22}');
        rust_code.append("Unknown function address: 0x{:08X}");
        push_char(rust_code, '\u{22}');
        rust_code.append(", address);\n");
        rust_code.append("            Ok(None)\n");
        rust_code.append("        }\n");
        rust_code.append("    }\n");
        rust_code.append("}\n\n");
        assert(rust_code@ =~= c0 + full_dispatcher(functions@));
    }

    /// Recompiles a program: decodes its text sections, builds the
    /// control-flow graph, generates a module with one function for each
    /// function of the analysis that has instructions and a documented
    /// address dispatcher, and validates it. The code is returned when it
    /// passes validation, else the validation error.
    pub fn recompile(dol_file: &DolFile, ghidra_analysis: &GhidraAnalysis) -> (r: Result<
        String,
        RecompilerError,
    >)
        requires
            text_word_count(dol_file.text_sections@) < 0x4000_0000,
        ensures
            checked_code(
                r,
                program_text(ghidra_analysis.functions@, text_instructions(dol_file.text_sections@)),
            ),
    {
        let instructions = Self::decode_all_instructions(dol_file);
        proof {
            lemma_text_len(dol_file.text_sections@);
        }
        let cfg = ControlFlowAnalyzer::build_cfg(instructions.as_slice(), 0);
        proof {
            lemma_program_graph(dol_file.text_sections@);
        }
        let _def_use_chains = DataFlowAnalyzer::build_def_use_chains(instructions.as_slice());
        let _live_analysis = DataFlowAnalyzer::live_variable_analysis(&cfg);
        let functions = ghidra_analysis.functions.as_slice();
        let mut codegen = CodeGenerator::new();
        let mut rust_code = String::new();
        Self::append_header(&mut rust_code);
        let _counts = Self::append_functions(&mut codegen, functions, instructions.as_slice(), &mut rust_code);
        Self::append_full_dispatcher(&codegen, functions, &mut rust_code);
        assert(rust_code@ =~= program_text(functions@, views(instructions@)));
        match CodeValidator::validate_rust_code(rust_code.as_str()) {
            Ok(()) => Ok(rust_code),
            Err(e) => Err(e),
        }
    }

    /// Stage: parses a DOL image read from `path` into the context.
    pub fn stage_load_dol(ctx: &mut PipelineContext, data: &[u8], path: &str) -> (r: Result<
        (),
        PipelineError,
    >)
        ensures
            match parse_error(data@) {
                Some(e) => r matches Err(PipelineError::Dol(f)) && f == e && *final(ctx) == *old(ctx),
                None => r is Ok && (final(ctx).dol_file matches Some(d) && parsed_as(d, data@, path@)
                    && final(ctx).ghidra_analysis == old(ctx).ghidra_analysis
                    && final(ctx).instructions == old(ctx).instructions
                    && final(ctx).cfg == old(ctx).cfg && final(ctx).rust_code == old(ctx).rust_code
                    && final(ctx).stats == old(ctx).stats),
            },
    {
        match DolFile::parse(data, path) {
            Ok(dol) => {
                ctx.dol_file = Some(dol);
                Ok(())
            },
            Err(e) => Err(PipelineError::Dol(e)),
        }
    }

    /// Stage: records the analysis of the loaded program. Refused when no
    /// DOL file is loaded.
    pub fn stage_analyze(ctx: &mut PipelineContext, analysis: GhidraAnalysis) -> (r: Result<
        (),
        PipelineError,
    >)
        ensures
            old(ctx).dol_file is None ==> (r matches Err(PipelineError::NoDolFile) && *final(ctx)
                == *old(ctx)),
            old(ctx).dol_file is Some ==> r is Ok && final(ctx).ghidra_analysis == Some(analysis)
                && final(ctx).dol_file == old(ctx).dol_file
                && final(ctx).instructions == old(ctx).instructions
                && final(ctx).cfg == old(ctx).cfg && final(ctx).rust_code == old(ctx).rust_code
                && final(ctx).stats == old(ctx).stats,
    {
        if ctx.dol_file.is_none() {
            return Err(PipelineError::NoDolFile);
        }
        ctx.ghidra_analysis = Some(analysis);
        Ok(())
    }

    /// Stage: decodes the text sections of the loaded program and records
    /// how many instructions there are.
    pub fn stage_decode(ctx: &mut PipelineContext) -> (r: Result<(), PipelineError>)
        ensures
            match old(ctx).dol_file {
                None => r matches Err(PipelineError::NoDolFile) && *final(ctx) == *old(ctx),
                Some(d) => r is Ok && (final(ctx).instructions matches Some(v) && views(v@)
                    == text_instructions(d.text_sections@)
                    && final(ctx).stats.total_instructions == v@.len()
                    && final(ctx).stats.total_functions == old(ctx).stats.total_functions
                    && final(ctx).stats.successful_functions == old(ctx).stats.successful_functions
                    && final(ctx).stats.failed_functions == old(ctx).stats.failed_functions
                    && final(ctx).dol_file == old(ctx).dol_file
                    && final(ctx).ghidra_analysis == old(ctx).ghidra_analysis
                    && final(ctx).cfg == old(ctx).cfg && final(ctx).rust_code == old(ctx).rust_code),
            },
    {
        let instructions = match &ctx.dol_file {
            None => {
                return Err(PipelineError::NoDolFile);
            },
            Some(dol) => Self::decode_all_instructions(dol),
        };
        ctx.stats.total_instructions = instructions.len();
        ctx.instructions = Some(instructions);
        Ok(())
    }

    /// Stage: builds the control-flow graph of the decoded instructions,
    /// with the entry at address 0.
    pub fn stage_build_cfg(ctx: &mut PipelineContext) -> (r: Result<(), PipelineError>)
        requires
            old(ctx).instructions matches Some(v) ==> v@.len() < 0x4000_0000,
        ensures
            match old(ctx).instructions {
                None => r matches Err(PipelineError::NoInstructions) && *final(ctx) == *old(ctx),
                Some(v) => r is Ok && (final(ctx).cfg matches Some(g) && g@ == spec_cfg(views(v@), 0)
                    && final(ctx).dol_file == old(ctx).dol_file
                    && final(ctx).ghidra_analysis == old(ctx).ghidra_analysis
                    && final(ctx).instructions == old(ctx).instructions
                    && final(ctx).rust_code == old(ctx).rust_code
                    && final(ctx).stats == old(ctx).stats),
            },
    {
        let cfg = match &ctx.instructions {
            None => {
                return Err(PipelineError::NoInstructions);
            },
            Some(v) => ControlFlowAnalyzer::build_cfg(v.as_slice(), 0),
        };
        ctx.cfg = Some(cfg);
        Ok(())
    }

    /// Stage: builds the def-use chains of the decoded instructions and the
    /// live registers of the control-flow graph. Needs the instructions,
    /// then the graph; the results are not kept.
    pub fn stage_analyze_data_flow(ctx: &mut PipelineContext) -> (r: Result<(), PipelineError>)
        requires
            old(ctx).cfg matches Some(g) ==> distinct_ids(g@.nodes) && graph_registers_in_range(
                g@.nodes,
            ),
        ensures
            *final(ctx) == *old(ctx),
            old(ctx).instructions is None ==> r matches Err(PipelineError::NoInstructions),
            old(ctx).instructions is Some && old(ctx).cfg is None ==> r matches Err(
                PipelineError::NoCfg,
            ),
            old(ctx).instructions is Some && old(ctx).cfg is Some ==> r is Ok,
    {
        let instructions = match &ctx.instructions {
            None => {
                return Err(PipelineError::NoInstructions);
            },
            Some(v) => v,
        };
        let cfg = match &ctx.cfg {
            None => {
                return Err(PipelineError::NoCfg);
            },
            Some(g) => g,
        };
        let _def_use_chains = DataFlowAnalyzer::build_def_use_chains(instructions.as_slice());
        let _live_analysis = DataFlowAnalyzer::live_variable_analysis(cfg);
        Ok(())
    }

    /// Stage: type inference; nothing is inferred yet.
    pub fn stage_infer_types(ctx: &mut PipelineContext) -> (r: Result<(), PipelineError>)
        ensures
            r is Ok,
            *final(ctx) == *old(ctx),
    {
        Ok(())
    }

    /// Stage: generates the module from the analysis and the decoded
    /// instructions, with the short dispatcher, and records the function
    /// counts. Needs the analysis first, then the instructions.
    pub fn stage_generate_code(ctx: &mut PipelineContext) -> (r: Result<(), PipelineError>)
        ensures
            match (old(ctx).ghidra_analysis, old(ctx).instructions) {
                (None, _) => r matches Err(PipelineError::NoGhidraAnalysis) && *final(ctx)
                    == *old(ctx),
                (Some(_), None) => r matches Err(PipelineError::NoInstructions) && *final(ctx)
                    == *old(ctx),
                (Some(a), Some(v)) => {
                    let g = functions_code(a.functions@, views(v@), fresh_values());
                    &&& r is Ok
                    &&& final(ctx).rust_code matches Some(c) && c@ == stage_text(
                        a.functions@,
                        views(v@),
                    )
                    &&& final(ctx).stats.total_functions == a.functions@.len()
                    &&& final(ctx).stats.successful_functions == g.successful
                    &&& final(ctx).stats.failed_functions == g.failed
                    &&& final(ctx).stats.total_instructions == old(ctx).stats.total_instructions
                    &&& final(ctx).dol_file == old(ctx).dol_file
                    &&& final(ctx).ghidra_analysis == old(ctx).ghidra_analysis
                    &&& final(ctx).instructions == old(ctx).instructions
                    &&& final(ctx).cfg == old(ctx).cfg
                },
            },
    {
        let (code, successful, failed, total) = match &ctx.ghidra_analysis {
            None => {
                return Err(PipelineError::NoGhidraAnalysis);
            },
            Some(a) => match &ctx.instructions {
                None => {
                    return Err(PipelineError::NoInstructions);
                },
                Some(v) => {
                    let (code, successful, failed) = Self::generate_stage_code(
                        a.functions.as_slice(),
                        v.as_slice(),
                    );
                    (code, successful, failed, a.functions.len())
                },
            },
        };
        ctx.stats.total_functions = total;
        ctx.stats.successful_functions = successful;
        ctx.stats.failed_functions = failed;
        ctx.rust_code = Some(code);
        Ok(())
    }

    /// Stage: validates the generated code.
    pub fn stage_validate(ctx: &PipelineContext) -> (r: Result<(), PipelineError>)
        ensures
            match ctx.rust_code {
                None => r matches Err(PipelineError::NoCode),
                Some(c) => match code_check(c@) {
                    Ok(_) => r is Ok,
                    Err(m) => r matches Err(PipelineError::Invalid(RecompilerError::ValidationError(t))) && t@ == m,
                },
            },
    {
        match &ctx.rust_code {
            None => Err(PipelineError::NoCode),
            Some(code) => match CodeValidator::validate_rust_code(code.as_str()) {
                Ok(()) => Ok(()),
                Err(e) => Err(PipelineError::Invalid(e)),
            },
        }
    }
}

} // verus!
