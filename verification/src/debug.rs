//! Debugging support: where generated Rust code came from, and a trace of
//! executed instructions.
use vstd::prelude::*;
use std::collections::HashMap;

verus! {

broadcast use vstd::std_specs::hash::group_hash_axioms;

/// A place in generated Rust code.
pub struct SourceLocation {
    pub original_address: u32,
    pub rust_file: String,
    pub rust_line: usize,
    pub rust_column: usize,
}

/// The data of a source location.
pub struct LocationView {
    pub original_address: u32,
    pub rust_file: Seq<char>,
    pub rust_line: usize,
    pub rust_column: usize,
}

impl View for SourceLocation {
    type V = LocationView;

    open spec fn view(&self) -> LocationView {
        LocationView {
            original_address: self.original_address,
            rust_file: self.rust_file@,
            rust_line: self.rust_line,
            rust_column: self.rust_column,
        }
    }
}

/// Where each original address went in the generated code, and the
/// breakpoints set.
pub struct DebugInfo {
    pub source_mapping: HashMap<u32, SourceLocation>,
    pub breakpoints: Vec<u32>,
}

/// The locations of a mapping, by original address.
pub open spec fn location_map(m: Map<u32, SourceLocation>) -> Map<u32, LocationView> {
    m.map_values(|l: SourceLocation| l@)
}

impl DebugInfo {
    /// No mappings and no breakpoints.
    pub fn new() -> (d: DebugInfo)
        ensures
            d.source_mapping@ == Map::<u32, SourceLocation>::empty(),
            d.breakpoints@ == Seq::<u32>::empty(),
    {
        DebugInfo { source_mapping: HashMap::new(), breakpoints: Vec::new() }
    }

    /// Records that `original_addr` went to line `line`, column `col` of
    /// `rust_file`, replacing any earlier record for that address.
    pub fn add_mapping(&mut self, original_addr: u32, rust_file: String, line: usize, col: usize)
        ensures
            location_map(final(self).source_mapping@) == location_map(old(self).source_mapping@).insert(
                original_addr,
                LocationView {
                    original_address: original_addr,
                    rust_file: rust_file@,
                    rust_line: line,
                    rust_column: col,
                },
            ),
            final(self).breakpoints@ == old(self).breakpoints@,
    {
        let ghost file = rust_file@;
        self.source_mapping.insert(
            original_addr,
            SourceLocation {
                original_address: original_addr,
                rust_file,
                rust_line: line,
                rust_column: col,
            },
        );
        assert(location_map(self.source_mapping@) =~= location_map(old(self).source_mapping@).insert(
            original_addr,
            LocationView {
                original_address: original_addr,
                rust_file: file,
                rust_line: line,
                rust_column: col,
            },
        ));
    }

    /// Where `original_addr` went, if it was recorded.
    pub fn get_rust_location(&self, original_addr: u32) -> (r: Option<&SourceLocation>)
        ensures
            match r {
                Some(l) => self.source_mapping@.contains_key(original_addr) && l@ == location_map(
                    self.source_mapping@,
                )[original_addr],
                None => !self.source_mapping@.contains_key(original_addr),
            },
    {
        self.source_mapping.get(&original_addr)
    }
}

/// A memory access made by an instruction.
#[derive(Debug, Clone, Copy, PartialEq, Eq, Structural)]
pub struct MemoryAccess {
    pub address: u32,
    pub value: u32,
    pub is_write: bool,
}

/// One executed instruction.
pub struct TraceEntry {
    pub address: u32,
    pub instruction: String,
    pub register_state: HashMap<u8, u32>,
    pub memory_accesses: Vec<MemoryAccess>,
}

/// The executed instructions, in order.
pub struct ExecutionTracer {
    pub trace_log: Vec<TraceEntry>,
}

/// The address and text of a trace entry.
pub open spec fn entry_summary(e: TraceEntry) -> (u32, Seq<char>) {
    (e.address, e.instruction@)
}

impl ExecutionTracer {
    /// An empty trace.
    pub fn new() -> (t: ExecutionTracer)
        ensures
            t.trace_log@ == Seq::<TraceEntry>::empty(),
    {
        ExecutionTracer { trace_log: Vec::new() }
    }

    /// Appends an entry for the instruction `inst` at `addr`, with no
    /// register state or memory accesses recorded.
    pub fn trace_instruction(&mut self, addr: u32, inst: &str)
        ensures
            final(self).trace_log@.len() == old(self).trace_log@.len() + 1,
            forall|i: int|
                0 <= i < old(self).trace_log@.len() ==> entry_summary(#[trigger] final(self).trace_log@[i])
                    == entry_summary(old(self).trace_log@[i]),
            ({
                let e = final(self).trace_log@.last();
                &&& e.address == addr
                &&& e.instruction@ == inst@
                &&& e.register_state@ == Map::<u8, u32>::empty()
                &&& e.memory_accesses@ == Seq::<MemoryAccess>::empty()
            }),
    {
        self.trace_log.push(
            TraceEntry {
                address: addr,
                instruction: inst.to_string(),
                register_state: HashMap::new(),
                memory_accesses: Vec::new(),
            },
        );
    }
}

} // verus!
