//! Function metadata, type information and the register data-flow facts
//! that the code generator and the optimizers use.
use vstd::prelude::*;
use std::collections::HashMap;
use crate::decoder::{DecodedInstruction, InstructionType, InstructionView, Operand, views};

verus! {

/// Type information for recovered code.
#[derive(Debug)]
pub enum TypeInfo {
    Unknown,
    Void,
    Integer { signed: bool, size: u8 },
    Pointer { pointee: Box<TypeInfo> },
    Float { size: u8 },
    Array { element: Box<TypeInfo>, size: usize },
    Struct { name: String, fields: Vec<(String, TypeInfo)> },
}

/// Metadata of a function.
#[derive(Debug)]
pub struct FunctionMetadata {
    pub address: u32,
    pub name: String,
    pub size: u32,
    pub calling_convention: String,
    pub parameters: Vec<ParameterInfo>,
    pub return_type: Option<TypeInfo>,
    pub local_variables: Vec<VariableInfo>,
    pub basic_blocks: Vec<u32>,
}

/// A function parameter.
#[derive(Debug)]
pub struct ParameterInfo {
    pub name: String,
    pub type_info: TypeInfo,
    pub register: Option<u8>,
    pub stack_offset: i32,
}

/// A local variable.
#[derive(Debug)]
pub struct VariableInfo {
    pub name: String,
    pub type_info: TypeInfo,
    pub stack_offset: i32,
    pub scope_start: u32,
    pub scope_end: u32,
}

/// The register an instruction writes: its first operand, when that is a
/// GPR and the instruction is arithmetic, a load or a move.
pub open spec fn spec_def_register(t: InstructionType, ops: Seq<Operand>) -> Option<u8> {
    if ops.len() > 0 {
        match ops[0] {
            Operand::Register(r) => if t == InstructionType::Arithmetic || t
                == InstructionType::Load || t == InstructionType::Move {
                Some(r)
            } else {
                None
            },
            _ => None,
        }
    } else {
        None
    }
}

/// The GPRs among `ops[..n]` other than `def`, in operand order.
pub open spec fn use_registers_prefix(ops: Seq<Operand>, def: Option<u8>, n: int) -> Seq<u8>
    decreases n,
{
    if n <= 0 || n > ops.len() {
        seq![]
    } else {
        let prev = use_registers_prefix(ops, def, n - 1);
        match ops[n - 1] {
            Operand::Register(r) => if def != Some(r) {
                prev.push(r)
            } else {
                prev
            },
            _ => prev,
        }
    }
}

/// The GPRs an instruction reads: its GPR operands other than the one it writes.
pub open spec fn spec_use_registers(t: InstructionType, ops: Seq<Operand>) -> Seq<u8> {
    use_registers_prefix(ops, spec_def_register(t, ops), ops.len() as int)
}

/// The register that `inst` writes, if any.
pub fn get_definition_register(inst: &DecodedInstruction) -> (r: Option<u8>)
    ensures
        r == spec_def_register(inst.instruction.instruction_type, inst.instruction.operands@),
{
    let ops = &inst.instruction.operands;
    if !ops.is_empty() {
        match ops.get(0) {
            Operand::Register(reg) => {
                match inst.instruction.instruction_type {
                    InstructionType::Arithmetic | InstructionType::Load | InstructionType::Move => {
                        return Some(reg);
                    },
                    _ => {},
                }
            },
            _ => {},
        }
    }
    None
}

/// The registers that `inst` reads, in operand order.
pub fn get_use_registers(inst: &DecodedInstruction) -> (uses: Vec<u8>)
    ensures
        uses@ == spec_use_registers(inst.instruction.instruction_type, inst.instruction.operands@),
{
    let def_reg = get_definition_register(inst);
    let ops = &inst.instruction.operands;
    let n = ops.len();
    let mut uses: Vec<u8> = Vec::new();
    let mut i: usize = 0;
    while i < n
        invariant
            n == ops@.len(),
            i <= n,
            def_reg == spec_def_register(inst.instruction.instruction_type, ops@),
            uses@ == use_registers_prefix(ops@, def_reg, i as int),
        decreases n - i,
    {
        match ops.get(i) {
            Operand::Register(reg) => {
                if def_reg != Some(reg) {
                    uses.push(reg);
                }
            },
            _ => {},
        }
        i = i + 1;
    }
    uses
}

/// Whether some instruction of `insts` reads register `r`.
pub open spec fn register_read_in(insts: Seq<InstructionView>, r: u8) -> bool {
    exists|j: int|
        0 <= j < insts.len() && spec_use_registers(insts[j].instruction_type, insts[j].operands).contains(
            r,
        )
}

/// An instruction survives dead-code elimination when it writes no register,
/// or writes one that some instruction of the sequence reads.
pub open spec fn survives(insts: Seq<InstructionView>, d: InstructionView) -> bool {
    match spec_def_register(d.instruction_type, d.operands) {
        Some(r) => register_read_in(insts, r),
        None => true,
    }
}

/// The instructions of `insts[..n]` that survive dead-code elimination
/// within all of `insts`, in order.
pub open spec fn live_prefix(insts: Seq<InstructionView>, n: int) -> Seq<InstructionView>
    decreases n,
{
    if n <= 0 || n > insts.len() {
        seq![]
    } else if survives(insts, insts[n - 1]) {
        live_prefix(insts, n - 1).push(insts[n - 1])
    } else {
        live_prefix(insts, n - 1)
    }
}

/// The instructions of `insts` that survive dead-code elimination, in order.
pub open spec fn dead_code_free(insts: Seq<InstructionView>) -> Seq<InstructionView> {
    live_prefix(insts, insts.len() as int)
}

fn vec_contains(v: &Vec<u8>, x: u8) -> (b: bool)
    ensures
        b == v@.contains(x),
{
    let mut i: usize = 0;
    while i < v.len()
        invariant
            i <= v@.len(),
            forall|k: int| 0 <= k < i ==> v@[k] != x,
        decreases v@.len() - i,
    {
        if v[i] == x {
            return true;
        }
        i = i + 1;
    }
    false
}

/// Whether any instruction of `insts` reads register `r`.
pub fn is_register_read(insts: &[DecodedInstruction], r: u8) -> (b: bool)
    ensures
        b == register_read_in(views(insts@), r),
{
    let ghost vs = views(insts@);
    let mut j: usize = 0;
    while j < insts.len()
        invariant
            j <= insts@.len(),
            vs == views(insts@),
            forall|k: int|
                0 <= k < j ==> !spec_use_registers(
                    #[trigger] vs[k].instruction_type,
                    vs[k].operands,
                ).contains(r),
        decreases insts@.len() - j,
    {
        let uses = get_use_registers(&insts[j]);
        if vec_contains(&uses, r) {
            assert(vs[j as int] == insts@[j as int]@);
            return true;
        }
        assert(vs[j as int] == insts@[j as int]@);
        j = j + 1;
    }
    false
}

/// Drops every instruction that writes a register which no instruction of
/// the sequence reads; keeps the others in order.
pub fn eliminate_dead_code(instructions: &[DecodedInstruction]) -> (optimized: Vec<DecodedInstruction>)
    ensures
        views(optimized@) == dead_code_free(views(instructions@)),
{
    let ghost vs = views(instructions@);
    let mut optimized: Vec<DecodedInstruction> = Vec::new();
    let mut i: usize = 0;
    while i < instructions.len()
        invariant
            i <= instructions@.len(),
            vs == views(instructions@),
            views(optimized@) == live_prefix(vs, i as int),
        decreases instructions@.len() - i,
    {
        let inst = &instructions[i];
        assert(vs[i as int] == inst@);
        let keep = match get_definition_register(inst) {
            Some(def_reg) => is_register_read(instructions, def_reg),
            None => true,
        };
        if keep {
            let ghost before = optimized@;
            let d = inst.duplicate();
            optimized.push(d);
            assert(views(optimized@) =~= views(before).push(d@));
        }
        i = i + 1;
    }
    optimized
}

/// Per-register kind inferred from how the register is used.
#[derive(Debug, PartialEq, Eq, Hash)]
pub enum InferredType {
    Integer { signed: bool, size: u8 },
    Float { size: u8 },
    Pointer { pointee: Box<InferredType> },
    Unknown,
}

/// Spec form of `type_from_string`.
pub open spec fn spec_type_from_info(ty: TypeInfo) -> InferredType
    decreases ty,
{
    match ty {
        TypeInfo::Integer { signed, size } => InferredType::Integer { signed, size },
        TypeInfo::Pointer { pointee } => InferredType::Pointer {
            pointee: Box::new(spec_type_from_info(*pointee)),
        },
        _ => InferredType::Unknown,
    }
}

/// Types after the parameters: each parameter with a register gets its
/// declared type, later parameters replacing earlier ones.
pub open spec fn param_types(ps: Seq<ParameterInfo>) -> Map<u8, InferredType>
    decreases ps.len(),
{
    if ps.len() == 0 {
        Map::empty()
    } else {
        let m = param_types(ps.drop_last());
        match ps.last().register {
            Some(r) => m.insert(r, spec_type_from_info(ps.last().type_info)),
            None => m,
        }
    }
}

/// What an instruction says of the register its first operand names: a
/// floating-point instruction makes an FPR a 64-bit float, a load makes a
/// GPR an unsigned 32-bit integer, arithmetic a signed one.
pub open spec fn infer_step(m: Map<u8, InferredType>, v: InstructionView) -> Map<u8, InferredType> {
    if v.operands.len() == 0 {
        m
    } else {
        match (v.instruction_type, v.operands[0]) {
            (InstructionType::FloatingPoint, Operand::FpRegister(f)) => m.insert(
                f,
                InferredType::Float { size: 64 },
            ),
            (InstructionType::Load, Operand::Register(r)) => m.insert(
                r,
                InferredType::Integer { signed: false, size: 32 },
            ),
            (InstructionType::Arithmetic, Operand::Register(r)) => m.insert(
                r,
                InferredType::Integer { signed: true, size: 32 },
            ),
            _ => m,
        }
    }
}

/// The types after the instructions, in order.
pub open spec fn infer_all(m: Map<u8, InferredType>, vs: Seq<InstructionView>) -> Map<u8, InferredType>
    decreases vs.len(),
{
    if vs.len() == 0 {
        m
    } else {
        infer_step(infer_all(m, vs.drop_last()), vs.last())
    }
}

/// Type recovery: integers and pointers carry over, everything else is unknown.
pub struct TypeInferenceEngine;

impl TypeInferenceEngine {
    /// Converts metadata type information to an inferred type.
    pub fn type_from_string(ty: &TypeInfo) -> (r: InferredType)
        ensures
            r == spec_type_from_info(*ty),
        decreases ty,
    {
        match ty {
            TypeInfo::Integer { signed, size } => InferredType::Integer { signed: *signed, size: *size },
            TypeInfo::Pointer { pointee } => InferredType::Pointer {
                pointee: Box::new(Self::type_from_string(pointee)),
            },
            _ => InferredType::Unknown,
        }
    }

    /// Records what an instruction says of its first operand's register.
    fn infer_from_instruction(inst: &DecodedInstruction, register_types: &mut HashMap<u8, InferredType>)
        ensures
            final(register_types)@ == infer_step(old(register_types)@, inst@),
    {
        let ops = &inst.instruction.operands;
        match ops.first() {
            Some(first) => match (inst.instruction.instruction_type, first) {
                (InstructionType::FloatingPoint, Operand::FpRegister(frt)) => {
                    register_types.insert(frt, InferredType::Float { size: 64 });
                },
                (InstructionType::Load, Operand::Register(rt)) => {
                    register_types.insert(rt, InferredType::Integer { signed: false, size: 32 });
                },
                (InstructionType::Arithmetic, Operand::Register(rt)) => {
                    register_types.insert(rt, InferredType::Integer { signed: true, size: 32 });
                },
                _ => {},
            },
            None => {},
        }
    }

    /// Types of registers: the declared types of parameters passed in
    /// registers, then what each instruction says, in order.
    pub fn infer_types(instructions: &[DecodedInstruction], metadata: &FunctionMetadata) -> (r: HashMap<
        u8,
        InferredType,
    >)
        ensures
            r@ == infer_all(param_types(metadata.parameters@), views(instructions@)),
    {
        let mut register_types: HashMap<u8, InferredType> = HashMap::new();
        let mut i: usize = 0;
        while i < metadata.parameters.len()
            invariant
                i <= metadata.parameters@.len(),
                register_types@ == param_types(metadata.parameters@.take(i as int)),
            decreases metadata.parameters@.len() - i,
        {
            let param = &metadata.parameters[i];
            assert(metadata.parameters@.take(i + 1).drop_last() =~= metadata.parameters@.take(i as int));
            match param.register {
                Some(reg) => {
                    register_types.insert(reg, Self::type_from_string(&param.type_info));
                },
                None => {},
            }
            i = i + 1;
        }
        assert(metadata.parameters@.take(i as int) =~= metadata.parameters@);
        let ghost m0 = register_types@;
        let ghost vs = views(instructions@);
        let mut j: usize = 0;
        while j < instructions.len()
            invariant
                j <= instructions@.len(),
                vs == views(instructions@),
                register_types@ == infer_all(m0, vs.take(j as int)),
            decreases instructions@.len() - j,
        {
            assert(vs.take(j + 1).drop_last() =~= vs.take(j as int));
            assert(vs[j as int] == instructions@[j as int]@);
            Self::infer_from_instruction(&instructions[j], &mut register_types);
            j = j + 1;
        }
        assert(vs.take(j as int) =~= vs);
        register_types
    }
}

} // verus!
