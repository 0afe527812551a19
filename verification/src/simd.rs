//! AltiVec-style vector instructions: finding them, and the Rust that
//! stands for the common kinds.
use vstd::prelude::*;
use crate::decoder::{DecodedInstruction, InstructionView, views};

verus! {

/// Kind of vector operation.
#[derive(Debug, Clone, Copy, PartialEq, Eq, Structural)]
pub enum SimdInstructionType {
    VecAdd,
    VecMul,
    VecDivide,
    VecCompare,
    VecAnd,
    VecOr,
    VecXor,
    VecShiftLeft,
    VecShiftRight,
    VecRotate,
    VecLoad,
    VecStore,
    VecPermute,
}

/// A vector instruction found in a sequence.
#[derive(Debug, Clone, Copy, PartialEq, Eq, Structural)]
pub struct SimdOpportunity {
    pub instruction_index: usize,
    pub instruction_address: u32,
    pub simd_type: SimdInstructionType,
}

/// The extended opcode (bits 1 to 10) of a word.
pub open spec fn simd_ext(raw: u32) -> u32 {
    (raw >> 1) & 0x3FF
}

/// The kind of an extended opcode, by blocks of four; `VecAdd` outside
/// them.
pub open spec fn simd_kind(ext: u32) -> Option<SimdInstructionType> {
    if 0x100 <= ext <= 0x103 {
        Some(SimdInstructionType::VecAdd)
    } else if 0x110 <= ext <= 0x113 {
        Some(SimdInstructionType::VecMul)
    } else if 0x120 <= ext <= 0x123 {
        Some(SimdInstructionType::VecDivide)
    } else if 0x130 <= ext <= 0x133 {
        Some(SimdInstructionType::VecCompare)
    } else if 0x140 <= ext <= 0x143 {
        Some(SimdInstructionType::VecAnd)
    } else if 0x144 <= ext <= 0x147 {
        Some(SimdInstructionType::VecOr)
    } else if 0x148 <= ext <= 0x14B {
        Some(SimdInstructionType::VecXor)
    } else if 0x150 <= ext <= 0x153 {
        Some(SimdInstructionType::VecShiftLeft)
    } else if 0x154 <= ext <= 0x157 {
        Some(SimdInstructionType::VecShiftRight)
    } else if 0x158 <= ext <= 0x15B {
        Some(SimdInstructionType::VecRotate)
    } else if 0x040 <= ext <= 0x043 {
        Some(SimdInstructionType::VecLoad)
    } else if 0x044 <= ext <= 0x047 {
        Some(SimdInstructionType::VecStore)
    } else if 0x060 <= ext <= 0x063 {
        Some(SimdInstructionType::VecPermute)
    } else {
        None
    }
}

/// Whether a word is a vector instruction: primary opcode 4 and an
/// extended opcode of a known kind.
pub open spec fn is_altivec(raw: u32) -> bool {
    (raw >> 26) & 0x3F == 4 && simd_kind(simd_ext(raw)) is Some
}

/// The kind of a word's vector operation.
pub open spec fn simd_type_of(raw: u32) -> SimdInstructionType {
    match simd_kind(simd_ext(raw)) {
        Some(t) => t,
        None => SimdInstructionType::VecAdd,
    }
}

/// The vector instructions among the first `n` of `vs`, in order.
pub open spec fn opportunities(vs: Seq<InstructionView>, n: int) -> Seq<SimdOpportunity>
    decreases n,
{
    if n <= 0 || n > vs.len() {
        seq![]
    } else if is_altivec(vs[n - 1].raw) {
        opportunities(vs, n - 1).push(
            SimdOpportunity {
                instruction_index: (n - 1) as usize,
                instruction_address: vs[n - 1].address,
                simd_type: simd_type_of(vs[n - 1].raw),
            },
        )
    } else {
        opportunities(vs, n - 1)
    }
}

/// The kind of an extended opcode.
fn kind_of(ext: u32) -> (r: Option<SimdInstructionType>)
    ensures
        r == simd_kind(ext),
{
    if 0x100 <= ext && ext <= 0x103 {
        Some(SimdInstructionType::VecAdd)
    } else if 0x110 <= ext && ext <= 0x113 {
        Some(SimdInstructionType::VecMul)
    } else if 0x120 <= ext && ext <= 0x123 {
        Some(SimdInstructionType::VecDivide)
    } else if 0x130 <= ext && ext <= 0x133 {
        Some(SimdInstructionType::VecCompare)
    } else if 0x140 <= ext && ext <= 0x143 {
        Some(SimdInstructionType::VecAnd)
    } else if 0x144 <= ext && ext <= 0x147 {
        Some(SimdInstructionType::VecOr)
    } else if 0x148 <= ext && ext <= 0x14B {
        Some(SimdInstructionType::VecXor)
    } else if 0x150 <= ext && ext <= 0x153 {
        Some(SimdInstructionType::VecShiftLeft)
    } else if 0x154 <= ext && ext <= 0x157 {
        Some(SimdInstructionType::VecShiftRight)
    } else if 0x158 <= ext && ext <= 0x15B {
        Some(SimdInstructionType::VecRotate)
    } else if 0x040 <= ext && ext <= 0x043 {
        Some(SimdInstructionType::VecLoad)
    } else if 0x044 <= ext && ext <= 0x047 {
        Some(SimdInstructionType::VecStore)
    } else if 0x060 <= ext && ext <= 0x063 {
        Some(SimdInstructionType::VecPermute)
    } else {
        None
    }
}

/// Whether an instruction is a vector instruction.
pub fn is_altivec_instruction(inst: &DecodedInstruction) -> (b: bool)
    ensures
        b == is_altivec(inst.raw),
{
    let opcode_prefix = (inst.raw >> 26) & 0x3F;
    if opcode_prefix != 0x04 {
        return false;
    }
    let ext_opcode = (inst.raw >> 1) & 0x3FF;
    kind_of(ext_opcode).is_some()
}

/// The kind of an instruction's vector operation.
pub fn detect_simd_type(inst: &DecodedInstruction) -> (t: SimdInstructionType)
    ensures
        t == simd_type_of(inst.raw),
{
    match kind_of((inst.raw >> 1) & 0x3FF) {
        Some(t) => t,
        None => SimdInstructionType::VecAdd,
    }
}

/// The vector instructions of a sequence, with their index, address and
/// kind, in order.
pub fn detect_simd_opportunities(instructions: &[DecodedInstruction]) -> (r: Vec<SimdOpportunity>)
    ensures
        r@ == opportunities(views(instructions@), instructions@.len() as int),
{
    let ghost vs = views(instructions@);
    let mut r: Vec<SimdOpportunity> = Vec::new();
    let mut i: usize = 0;
    while i < instructions.len()
        invariant
            i <= instructions@.len(),
            vs == views(instructions@),
            r@ == opportunities(vs, i as int),
        decreases instructions@.len() - i,
    {
        let inst = &instructions[i];
        assert(vs[i as int] == inst@);
        if is_altivec_instruction(inst) {
            r.push(
                SimdOpportunity {
                    instruction_index: i,
                    instruction_address: inst.address,
                    simd_type: detect_simd_type(inst),
                },
            );
        }
        i = i + 1;
    }
    r
}

/// The Rust for a vector operation: an `x86_64` intrinsic sequence, with a
/// scalar fallback for multiply, load, store and permute; other kinds have
/// no code.
pub open spec fn simd_code_text(t: SimdInstructionType) -> Seq<char> {
    match t {
        SimdInstructionType::VecAdd => "// SIMD vector add\n#[cfg(target_arch = \"x86_64\")]\nunsafe {\nuse std::arch::x86_64::*;\nlet a = _mm_loadu_si128(ptr as *const __m128i);\nlet b = _mm_loadu_si128(ptr2 as *const __m128i);\nlet result = _mm_add_epi32(a, b);\n_mm_storeu_si128(dest as *mut __m128i, result);\n}"@,
        SimdInstructionType::VecMul => "// SIMD vector multiply\n#[cfg(target_arch = \"x86_64\")]\nunsafe {\nuse std::arch::x86_64::*;\nlet a = _mm_loadu_si128(ptr as *const __m128i);\nlet b = _mm_loadu_si128(ptr2 as *const __m128i);\nlet result = _mm_mullo_epi32(a, b);\n_mm_storeu_si128(dest as *mut __m128i, result);\n}\n#[cfg(not(target_arch = \"x86_64\"))]\n{\n// Fallback to scalar code\n// Process vector elements one by one\nfor i in 0..4 {\nlet a_val = *ptr.add(i);\nlet b_val = *ptr2.add(i);\n*dest.add(i) = a_val.wrapping_add(b_val);\n}\n}"@,
        SimdInstructionType::VecLoad => "// SIMD vector load\n#[cfg(target_arch = \"x86_64\")]\nunsafe {\nuse std::arch::x86_64::*;\nlet vec = _mm_loadu_si128(ptr as *const __m128i);\n// Store to destination register\n}\n#[cfg(not(target_arch = \"x86_64\"))]\n{\n// Fallback to scalar load\nfor i in 0..4 {\n*dest.add(i) = *ptr.add(i);\n}\n}"@,
        SimdInstructionType::VecStore => "// SIMD vector store\n#[cfg(target_arch = \"x86_64\")]\nunsafe {\nuse std::arch::x86_64::*;\nlet vec = _mm_loadu_si128(src_ptr as *const __m128i);\n_mm_storeu_si128(dest_ptr as *mut __m128i, vec);\n}\n#[cfg(not(target_arch = \"x86_64\"))]\n{\n// Fallback to scalar store\nfor i in 0..4 {\n*dest_ptr.add(i) = *src_ptr.add(i);\n}\n}"@,
        SimdInstructionType::VecPermute => "// SIMD vector permute\n#[cfg(target_arch = \"x86_64\")]\nunsafe {\nuse std::arch::x86_64::*;\nlet a = _mm_loadu_si128(ptr as *const __m128i);\nlet b = _mm_loadu_si128(ptr2 as *const __m128i);\nlet mask = _mm_set_epi8(15, 14, 13, 12, 11, 10, 9, 8, 7, 6, 5, 4, 3, 2, 1, 0);\nlet result = _mm_shuffle_epi8(a, mask);\n_mm_storeu_si128(dest as *mut __m128i, result);\n}\n#[cfg(not(target_arch = \"x86_64\"))]\n{\n// Fallback to scalar permute\n// Simple byte-wise permutation\nlet temp = [*ptr, *ptr.add(1), *ptr.add(2), *ptr.add(3)];\n*dest = temp[3];\n*dest.add(1) = temp[2];\n*dest.add(2) = temp[1];\n*dest.add(3) = temp[0];\n}"@,
        _ => seq![],
    }
}

/// The Rust for a vector operation.
pub fn generate_simd_code(inst: &DecodedInstruction, simd_type: SimdInstructionType) -> (s: String)
    ensures
        s@ == simd_code_text(simd_type),
{
    match simd_type {
        SimdInstructionType::VecAdd => String::from_str("// SIMD vector add\n#[cfg(target_arch = \"x86_64\")]\nunsafe {\nuse std::arch::x86_64::*;\nlet a = _mm_loadu_si128(ptr as *const __m128i);\nlet b = _mm_loadu_si128(ptr2 as *const __m128i);\nlet result = _mm_add_epi32(a, b);\n_mm_storeu_si128(dest as *mut __m128i, result);\n}"),
        SimdInstructionType::VecMul => String::from_str("// SIMD vector multiply\n#[cfg(target_arch = \"x86_64\")]\nunsafe {\nuse std::arch::x86_64::*;\nlet a = _mm_loadu_si128(ptr as *const __m128i);\nlet b = _mm_loadu_si128(ptr2 as *const __m128i);\nlet result = _mm_mullo_epi32(a, b);\n_mm_storeu_si128(dest as *mut __m128i, result);\n}\n#[cfg(not(target_arch = \"x86_64\"))]\n{\n// Fallback to scalar code\n// Process vector elements one by one\nfor i in 0..4 {\nlet a_val = *ptr.add(i);\nlet b_val = *ptr2.add(i);\n*dest.add(i) = a_val.wrapping_add(b_val);\n}\n}"),
        SimdInstructionType::VecLoad => String::from_str("// SIMD vector load\n#[cfg(target_arch = \"x86_64\")]\nunsafe {\nuse std::arch::x86_64::*;\nlet vec = _mm_loadu_si128(ptr as *const __m128i);\n// Store to destination register\n}\n#[cfg(not(target_arch = \"x86_64\"))]\n{\n// Fallback to scalar load\nfor i in 0..4 {\n*dest.add(i) = *ptr.add(i);\n}\n}"),
        SimdInstructionType::VecStore => String::from_str("// SIMD vector store\n#[cfg(target_arch = \"x86_64\")]\nunsafe {\nuse std::arch::x86_64::*;\nlet vec = _mm_loadu_si128(src_ptr as *const __m128i);\n_mm_storeu_si128(dest_ptr as *mut __m128i, vec);\n}\n#[cfg(not(target_arch = \"x86_64\"))]\n{\n// Fallback to scalar store\nfor i in 0..4 {\n*dest_ptr.add(i) = *src_ptr.add(i);\n}\n}"),
        SimdInstructionType::VecPermute => String::from_str("// SIMD vector permute\n#[cfg(target_arch = \"x86_64\")]\nunsafe {\nuse std::arch::x86_64::*;\nlet a = _mm_loadu_si128(ptr as *const __m128i);\nlet b = _mm_loadu_si128(ptr2 as *const __m128i);\nlet mask = _mm_set_epi8(15, 14, 13, 12, 11, 10, 9, 8, 7, 6, 5, 4, 3, 2, 1, 0);\nlet result = _mm_shuffle_epi8(a, mask);\n_mm_storeu_si128(dest as *mut __m128i, result);\n}\n#[cfg(not(target_arch = \"x86_64\"))]\n{\n// Fallback to scalar permute\n// Simple byte-wise permutation\nlet temp = [*ptr, *ptr.add(1), *ptr.add(2), *ptr.add(3)];\n*dest = temp[3];\n*dest.add(1) = temp[2];\n*dest.add(2) = temp[1];\n*dest.add(3) = temp[0];\n}"),
        _ => String::new(),
    }
}

} // verus!
