//! Memory-access code generation hooks.
use vstd::prelude::*;
use crate::decoder::{DecodedInstruction, views};

verus! {

/// Generates memory accesses; loads and stores produce no code of their
/// own here.
pub struct MemoryCodegen;

impl MemoryCodegen {
    /// Code for a load: none.
    pub fn generate_load(inst: &DecodedInstruction) -> (s: String)
        ensures
            s@.len() == 0,
    {
        String::new()
    }

    /// Code for a store: none.
    pub fn generate_store(inst: &DecodedInstruction) -> (s: String)
        ensures
            s@.len() == 0,
    {
        String::new()
    }

    /// Memory accesses as they are.
    pub fn optimize_memory_access(instructions: &[DecodedInstruction]) -> (r: Vec<DecodedInstruction>)
        ensures
            views(r@) == views(instructions@),
    {
        let mut r: Vec<DecodedInstruction> = Vec::new();
        let mut i: usize = 0;
        while i < instructions.len()
            invariant
                i <= instructions@.len(),
                views(r@) == views(instructions@.take(i as int)),
            decreases instructions@.len() - i,
        {
            let d = instructions[i].duplicate();
            let ghost before = r@;
            r.push(d);
            assert(views(r@) =~= views(before).push(d@));
            assert(views(instructions@.take(i + 1)) =~= views(instructions@.take(i as int)).push(
                instructions@[i as int]@,
            ));
            i = i + 1;
        }
        assert(instructions@.take(i as int) =~= instructions@);
        r
    }
}

} // verus!
