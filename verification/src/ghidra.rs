//! What Ghidra reports about a program: functions, symbols, decompiled code
//! and instructions.
use vstd::prelude::*;
use std::collections::HashMap;
use crate::chars::chars_of;
use crate::linker::parse_address_spec;
use crate::error::RecompilerError;
use crate::json::{
    JsonValue,
    as_array,
    as_i64,
    as_str,
    as_u64,
    field,
    field_array,
    field_i64,
    field_str,
    field_str_or,
    field_u64,
    str_or,
};

verus! {

/// A function found by the analysis.
pub struct FunctionInfo {
    pub address: u32,
    pub name: String,
    pub size: u32,
    pub calling_convention: String,
    pub parameters: Vec<ParameterInfo>,
    pub return_type: Option<String>,
    pub local_variables: Vec<LocalVariableInfo>,
    pub basic_blocks: Vec<BasicBlockInfo>,
}

/// A parameter of a function.
pub struct ParameterInfo {
    pub name: String,
    pub param_type: String,
    pub offset: Option<i32>,
}

/// A local variable of a function.
pub struct LocalVariableInfo {
    pub name: String,
    pub var_type: String,
    pub offset: i32,
    pub address: String,
}

/// A basic block of a function.
pub struct BasicBlockInfo {
    pub address: String,
    pub size: u32,
    pub instructions: Vec<String>,
}

/// Kind of a symbol.
#[derive(Debug, Clone, Copy, PartialEq, Eq, Structural)]
pub enum SymbolType {
    Function,
    Data,
    Label,
    Unknown,
}

/// A named address.
pub struct SymbolInfo {
    pub address: u32,
    pub name: String,
    pub symbol_type: SymbolType,
    pub namespace: Option<String>,
}

/// Decompiled source of a function.
pub struct DecompiledFunction {
    pub c_code: String,
    pub high_function: String,
}

/// One instruction as the analysis lists it.
pub struct InstructionData {
    pub address: u32,
    pub mnemonic: String,
    pub operands: Vec<String>,
    pub raw_bytes: Vec<u8>,
}

/// How to run the analysis.
#[derive(Debug, Clone, Copy, PartialEq, Eq, Structural)]
pub enum GhidraBackend {
    ReOxide,
    HeadlessCli,
}

/// The results of an analysis.
pub struct GhidraAnalysis {
    pub functions: Vec<FunctionInfo>,
    pub symbols: Vec<SymbolInfo>,
    pub decompiled_code: HashMap<u32, DecompiledFunction>,
    pub instructions: HashMap<u32, Vec<InstructionData>>,
}

/// The data of a parameter: name, type and stack offset.
pub type ParameterView = (Seq<char>, Seq<char>, Option<i32>);

impl View for ParameterInfo {
    type V = ParameterView;

    open spec fn view(&self) -> ParameterView {
        (self.name@, self.param_type@, self.offset)
    }
}

/// The data of a local variable: name, type, offset and address text.
pub type LocalView = (Seq<char>, Seq<char>, i32, Seq<char>);

impl View for LocalVariableInfo {
    type V = LocalView;

    open spec fn view(&self) -> LocalView {
        (self.name@, self.var_type@, self.offset, self.address@)
    }
}

/// The data of a basic block: address text, size and instruction texts.
pub type BlockInfoView = (Seq<char>, u32, Seq<Seq<char>>);

impl View for BasicBlockInfo {
    type V = BlockInfoView;

    open spec fn view(&self) -> BlockInfoView {
        (self.address@, self.size, self.instructions@.map_values(|t: String| t@))
    }
}

/// The data of a function.
pub struct FunctionView {
    pub address: u32,
    pub name: Seq<char>,
    pub size: u32,
    pub calling_convention: Seq<char>,
    pub parameters: Seq<ParameterView>,
    pub return_type: Option<Seq<char>>,
    pub local_variables: Seq<LocalView>,
    pub basic_blocks: Seq<BlockInfoView>,
}

impl View for FunctionInfo {
    type V = FunctionView;

    open spec fn view(&self) -> FunctionView {
        FunctionView {
            address: self.address,
            name: self.name@,
            size: self.size,
            calling_convention: self.calling_convention@,
            parameters: self.parameters@.map_values(|p: ParameterInfo| p@),
            return_type: match self.return_type {
                Some(t) => Some(t@),
                None => None,
            },
            local_variables: self.local_variables@.map_values(|l: LocalVariableInfo| l@),
            basic_blocks: self.basic_blocks@.map_values(|b: BasicBlockInfo| b@),
        }
    }
}

impl ParameterInfo {
    /// A copy.
    pub fn duplicate(&self) -> (r: ParameterInfo)
        ensures
            r.name@ == self.name@,
            r.param_type@ == self.param_type@,
            r.offset == self.offset,
            r@ == self@,
    {
        ParameterInfo { name: self.name.clone(), param_type: self.param_type.clone(), offset: self.offset }
    }
}

impl LocalVariableInfo {
    /// A copy.
    pub fn duplicate(&self) -> (r: LocalVariableInfo)
        ensures
            r.name@ == self.name@,
            r.var_type@ == self.var_type@,
            r.offset == self.offset,
            r.address@ == self.address@,
            r@ == self@,
    {
        LocalVariableInfo {
            name: self.name.clone(),
            var_type: self.var_type.clone(),
            offset: self.offset,
            address: self.address.clone(),
        }
    }
}

impl BasicBlockInfo {
    /// A copy.
    pub fn duplicate(&self) -> (r: BasicBlockInfo)
        ensures
            r.address@ == self.address@,
            r.size == self.size,
            r.instructions@.len() == self.instructions@.len(),
            forall|i: int| 0 <= i < self.instructions@.len() ==> r.instructions@[i]@ == self.instructions@[i]@,
            r@ == self@,
    {
        let mut instructions: Vec<String> = Vec::new();
        let mut i: usize = 0;
        while i < self.instructions.len()
            invariant
                i <= self.instructions@.len(),
                instructions@.len() == i,
                forall|k: int| 0 <= k < i ==> instructions@[k]@ == self.instructions@[k]@,
            decreases self.instructions@.len() - i,
        {
            instructions.push(self.instructions[i].clone());
            i = i + 1;
        }
        let r = BasicBlockInfo { address: self.address.clone(), size: self.size, instructions };
        assert(r.instructions@.map_values(|t: String| t@) =~= self.instructions@.map_values(|t: String| t@));
        r
    }
}

impl FunctionInfo {
    /// A copy.
    pub fn duplicate(&self) -> (r: FunctionInfo)
        ensures
            r.address == self.address,
            r.name@ == self.name@,
            r.size == self.size,
            r.calling_convention@ == self.calling_convention@,
            r.parameters@.len() == self.parameters@.len(),
            r.local_variables@.len() == self.local_variables@.len(),
            r.basic_blocks@.len() == self.basic_blocks@.len(),
            r@ == self@,
    {
        let mut parameters: Vec<ParameterInfo> = Vec::new();
        let mut i: usize = 0;
        while i < self.parameters.len()
            invariant
                i <= self.parameters@.len(),
                parameters@.len() == i,
                forall|t: int| 0 <= t < i ==> (#[trigger] parameters@[t])@ == self.parameters@[t]@,
            decreases self.parameters@.len() - i,
        {
            parameters.push(self.parameters[i].duplicate());
            i = i + 1;
        }
        let mut local_variables: Vec<LocalVariableInfo> = Vec::new();
        let mut j: usize = 0;
        while j < self.local_variables.len()
            invariant
                j <= self.local_variables@.len(),
                local_variables@.len() == j,
                forall|t: int| 0 <= t < j ==> (#[trigger] local_variables@[t])@ == self.local_variables@[t]@,
            decreases self.local_variables@.len() - j,
        {
            local_variables.push(self.local_variables[j].duplicate());
            j = j + 1;
        }
        let mut basic_blocks: Vec<BasicBlockInfo> = Vec::new();
        let mut k: usize = 0;
        while k < self.basic_blocks.len()
            invariant
                k <= self.basic_blocks@.len(),
                basic_blocks@.len() == k,
                forall|t: int| 0 <= t < k ==> (#[trigger] basic_blocks@[t])@ == self.basic_blocks@[t]@,
            decreases self.basic_blocks@.len() - k,
        {
            basic_blocks.push(self.basic_blocks[k].duplicate());
            k = k + 1;
        }
        let return_type = match &self.return_type {
            Some(t) => Some(t.clone()),
            None => None,
        };
        let r = FunctionInfo {
            address: self.address,
            name: self.name.clone(),
            size: self.size,
            calling_convention: self.calling_convention.clone(),
            parameters,
            return_type,
            local_variables,
            basic_blocks,
        };
        assert(r@.parameters =~= self@.parameters);
        assert(r@.local_variables =~= self@.local_variables);
        assert(r@.basic_blocks =~= self@.basic_blocks);
        r
    }
}

/// Whether `address` lies in the function that starts at `start` and is
/// `size` bytes long.
pub open spec fn within(start: u32, size: u32, address: u32) -> bool {
    start <= address && address < start + size
}

/// Index of the first of the first `n` functions that holds `address`.
pub open spec fn function_holding(fs: Seq<FunctionInfo>, address: u32, n: nat) -> Option<int>
    decreases n,
{
    if n == 0 || n > fs.len() {
        None
    } else {
        match function_holding(fs, address, (n - 1) as nat) {
            Some(i) => Some(i),
            None => if within(fs[n - 1].address, fs[n - 1].size, address) {
                Some(n - 1)
            } else {
                None
            },
        }
    }
}

/// A function address as the analysis writes it: hexadecimal after any
/// `0x` and `0X` prefixes, else decimal.
pub fn parse_address(addr_str: &str) -> (r: Option<u32>)
    ensures
        r == parse_address_spec(addr_str@),
{
    let s = chars_of(addr_str);
    let p1 = chars_of("0x");
    let p2 = chars_of("0X");
    let a = crate::chars::strip_all_chars(s.as_slice(), p1.as_slice());
    let cleaned = crate::chars::strip_all_chars(a.as_slice(), p2.as_slice());
    match crate::chars::parse_u32(cleaned.as_slice(), 16) {
        Some(v) => Some(v),
        None => crate::chars::parse_u32(cleaned.as_slice(), 10),
    }
}

impl GhidraAnalysis {
    /// The first function whose range holds `address`. Requires every
    /// function to end within the 32-bit address space.
    pub fn get_function_at_address(&self, address: u32) -> (r: Option<&FunctionInfo>)
        requires
            forall|i: int|
                0 <= i < self.functions@.len() ==> self.functions@[i].address + self.functions@[i].size
                    <= u32::MAX,
        ensures
            match function_holding(self.functions@, address, self.functions@.len()) {
                Some(i) => r == Some(&self.functions@[i]),
                None => r is None,
            },
    {
        let mut i: usize = 0;
        while i < self.functions.len()
            invariant
                i <= self.functions@.len(),
                forall|k: int|
                    0 <= k < self.functions@.len() ==> self.functions@[k].address
                        + self.functions@[k].size <= u32::MAX,
                function_holding(self.functions@, address, i as nat) == None::<int>,
            decreases self.functions@.len() - i,
        {
            let f = &self.functions[i];
            if f.address <= address && address < f.address + f.size {
                proof {
                    lemma_holding_prefix(self.functions@, address, (i + 1) as nat);
                }
                return Some(f);
            }
            i = i + 1;
        }
        None
    }
}

proof fn lemma_holding_prefix(fs: Seq<FunctionInfo>, address: u32, n: nat)
    requires
        n <= fs.len(),
    ensures
        function_holding(fs, address, n) is Some ==> function_holding(fs, address, fs.len())
            == function_holding(fs, address, n),
    decreases fs.len() - n,
{
    if n < fs.len() {
        lemma_holding_prefix(fs, address, n + 1);
    }
}

/// Whether a parameter is the one an exported entry describes: name (empty
/// by default), type (`u32` by default) and offset (cut to 32 bits).
pub open spec fn parameter_from(p: ParameterInfo, v: JsonValue) -> bool {
    &&& p.name@ == str_or(field(v, "name"@), ""@)
    &&& p.param_type@ == str_or(field(v, "type"@), "u32"@)
    &&& p.offset == match as_i64(field(v, "offset"@)) {
        Some(o) => Some(o as i32),
        None => None,
    }
}

/// Whether a local variable is the one an exported entry describes.
pub open spec fn local_from(l: LocalVariableInfo, v: JsonValue) -> bool {
    &&& l.name@ == str_or(field(v, "name"@), ""@)
    &&& l.var_type@ == str_or(field(v, "type"@), "u32"@)
    &&& l.offset == (match as_i64(field(v, "offset"@)) {
        Some(o) => o,
        None => 0,
    }) as i32
    &&& l.address@ == str_or(field(v, "address"@), ""@)
}

/// Whether a block is the one an exported entry describes.
pub open spec fn block_from(b: BasicBlockInfo, v: JsonValue) -> bool {
    let insts = as_array(field(v, "instructions"@));
    &&& b.address@ == str_or(field(v, "address"@), ""@)
    &&& b.size == (match as_u64(field(v, "size"@)) {
        Some(n) => n,
        None => 0,
    }) as u32
    &&& b.instructions@.len() == insts.len()
    &&& forall|i: int| 0 <= i < insts.len() ==> (#[trigger] b.instructions@[i])@ == str_or(insts[i], ""@)
}

/// Whether a function is the one an exported entry describes, at the
/// address the entry gives.
pub open spec fn function_from(f: FunctionInfo, v: JsonValue, address: u32) -> bool {
    let ps = as_array(field(v, "parameters"@));
    let ls = as_array(field(v, "local_variables"@));
    let bs = as_array(field(v, "basic_blocks"@));
    &&& f.address == address
    &&& f.name@ == str_or(field(v, "name"@), "unknown"@)
    &&& f.size == (match as_u64(field(v, "size"@)) {
        Some(n) => n,
        None => 0,
    }) as u32
    &&& f.calling_convention@ == str_or(field(v, "calling_convention"@), "default"@)
    &&& f.parameters@.len() == ps.len()
    &&& (forall|i: int| 0 <= i < ps.len() ==> parameter_from(#[trigger] f.parameters@[i], ps[i]))
    &&& match as_str(field(v, "return_type"@)) {
        Some(t) => f.return_type matches Some(r) && r@ == t,
        None => f.return_type is None,
    }
    &&& f.local_variables@.len() == ls.len()
    &&& (forall|i: int| 0 <= i < ls.len() ==> local_from(#[trigger] f.local_variables@[i], ls[i]))
    &&& f.basic_blocks@.len() == bs.len()
    &&& (forall|i: int| 0 <= i < bs.len() ==> block_from(#[trigger] f.basic_blocks@[i], bs[i]))
}

/// Whether a function is the one an exported entry with a usable address
/// describes.
pub open spec fn function_entry(f: FunctionInfo, v: JsonValue) -> bool {
    match entry_address(v, "function"@) {
        Ok(a) => function_from(f, v, a),
        Err(_) => false,
    }
}

/// The address an exported entry gives, or why it gives none.
pub open spec fn entry_address(v: JsonValue, what: Seq<char>) -> Result<u32, Seq<char>> {
    match as_str(field(v, "address"@)) {
        None => Err("Missing address in "@ + what),
        Some(s) => match parse_address_spec(s) {
            Some(a) => Ok(a),
            None => Err("Failed to parse address: "@ + s),
        },
    }
}

/// The first error among the addresses of the first `n` entries.
pub open spec fn first_address_error(vs: Seq<JsonValue>, what: Seq<char>, n: int) -> Option<Seq<char>>
    decreases n,
{
    if n <= 0 || n > vs.len() {
        None
    } else {
        match first_address_error(vs, what, n - 1) {
            Some(e) => Some(e),
            None => match entry_address(vs[n - 1], what) {
                Err(e) => Some(e),
                Ok(_) => None,
            },
        }
    }
}

/// The address of an exported entry, or the error message.
fn address_of_entry(v: &JsonValue, what: &str) -> (r: Result<u32, String>)
    ensures
        match entry_address(*v, what@) {
            Ok(a) => r == Ok::<u32, String>(a),
            Err(m) => r matches Err(t) && t@ == m,
        },
{
    match field_str(v, "address") {
        None => {
            let mut m = String::from_str("Missing address in ");
            m.append(what);
            Err(m)
        },
        Some(s) => match parse_address(s.as_str()) {
            Some(a) => Ok(a),
            None => {
                let mut m = String::from_str("Failed to parse address: ");
                m.append(s.as_str());
                Err(m)
            },
        },
    }
}

/// The parameters an exported function lists.
fn parameters_from(v: &JsonValue) -> (r: Vec<ParameterInfo>)
    ensures
        r@.len() == as_array(field(*v, "parameters"@)).len(),
        forall|i: int|
            0 <= i < r@.len() ==> parameter_from(#[trigger] r@[i], as_array(field(*v, "parameters"@))[i]),
{
    let ps = field_array(v, "parameters");
    let mut r: Vec<ParameterInfo> = Vec::new();
    let mut i: usize = 0;
    while i < ps.len()
        invariant
            ps@ == as_array(field(*v, "parameters"@)),
            i <= ps@.len(),
            r@.len() == i,
            forall|k: int| 0 <= k < i ==> parameter_from(#[trigger] r@[k], ps@[k]),
        decreases ps@.len() - i,
    {
        let p = &ps[i];
        let offset = match field_i64(p, "offset") {
            Some(o) => Some(o as i32),
            None => None,
        };
        r.push(
            ParameterInfo {
                name: field_str_or(p, "name", ""),
                param_type: field_str_or(p, "type", "u32"),
                offset,
            },
        );
        i = i + 1;
    }
    r
}

/// The local variables an exported function lists.
fn locals_from(v: &JsonValue) -> (r: Vec<LocalVariableInfo>)
    ensures
        r@.len() == as_array(field(*v, "local_variables"@)).len(),
        forall|i: int|
            0 <= i < r@.len() ==> local_from(#[trigger] r@[i], as_array(field(*v, "local_variables"@))[i]),
{
    let ls = field_array(v, "local_variables");
    let mut r: Vec<LocalVariableInfo> = Vec::new();
    let mut i: usize = 0;
    while i < ls.len()
        invariant
            ls@ == as_array(field(*v, "local_variables"@)),
            i <= ls@.len(),
            r@.len() == i,
            forall|k: int| 0 <= k < i ==> local_from(#[trigger] r@[k], ls@[k]),
        decreases ls@.len() - i,
    {
        let l = &ls[i];
        let offset: i64 = match field_i64(l, "offset") {
            Some(o) => o,
            None => 0,
        };
        r.push(
            LocalVariableInfo {
                name: field_str_or(l, "name", ""),
                var_type: field_str_or(l, "type", "u32"),
                offset: offset as i32,
                address: field_str_or(l, "address", ""),
            },
        );
        i = i + 1;
    }
    r
}

/// The text of a value, empty when it is not a string.
fn text_or_empty(v: &JsonValue) -> (s: String)
    ensures
        s@ == str_or(*v, ""@),
{
    proof {
        reveal_strlit("");
    }
    match v {
        JsonValue::Str(s) => s.clone(),
        _ => String::new(),
    }
}

/// The basic blocks an exported function lists.
fn blocks_from(v: &JsonValue) -> (r: Vec<BasicBlockInfo>)
    ensures
        r@.len() == as_array(field(*v, "basic_blocks"@)).len(),
        forall|i: int|
            0 <= i < r@.len() ==> block_from(#[trigger] r@[i], as_array(field(*v, "basic_blocks"@))[i]),
{
    let bs = field_array(v, "basic_blocks");
    let mut r: Vec<BasicBlockInfo> = Vec::new();
    let mut i: usize = 0;
    while i < bs.len()
        invariant
            bs@ == as_array(field(*v, "basic_blocks"@)),
            i <= bs@.len(),
            r@.len() == i,
            forall|k: int| 0 <= k < i ==> block_from(#[trigger] r@[k], bs@[k]),
        decreases bs@.len() - i,
    {
        let b = &bs[i];
        let insts = field_array(b, "instructions");
        let mut instructions: Vec<String> = Vec::new();
        let mut j: usize = 0;
        while j < insts.len()
            invariant
                insts@ == as_array(field(*b, "instructions"@)),
                j <= insts@.len(),
                instructions@.len() == j,
                forall|k: int| 0 <= k < j ==> (#[trigger] instructions@[k])@ == str_or(insts@[k], ""@),
            decreases insts@.len() - j,
        {
            instructions.push(text_or_empty(&insts[j]));
            j = j + 1;
        }
        let size: u64 = match field_u64(b, "size") {
            Some(n) => n,
            None => 0,
        };
        r.push(
            BasicBlockInfo { address: field_str_or(b, "address", ""), size: size as u32, instructions },
        );
        i = i + 1;
    }
    r
}

/// The functions of an analysis export, one per entry in order: each entry
/// needs an address (hexadecimal, or decimal); other fields default (name
/// `unknown`, size 0, calling convention `default`, no parameters, locals
/// or blocks). The first entry without a usable address is reported.
pub fn functions_from_json(raw: &[JsonValue]) -> (r: Result<Vec<FunctionInfo>, RecompilerError>)
    ensures
        match first_address_error(raw@, "function"@, raw@.len() as int) {
            Some(m) => r matches Err(RecompilerError::GhidraError(t)) && t@ == m,
            None => r matches Ok(fs) && fs@.len() == raw@.len() && forall|i: int|
                0 <= i < raw@.len() ==> function_entry(#[trigger] fs@[i], raw@[i]),
        },
{
    let mut functions: Vec<FunctionInfo> = Vec::new();
    let mut i: usize = 0;
    while i < raw.len()
        invariant
            i <= raw@.len(),
            first_address_error(raw@, "function"@, i as int) is None,
            functions@.len() == i,
            forall|k: int| 0 <= k < i ==> function_entry(#[trigger] functions@[k], raw@[k]),
        decreases raw@.len() - i,
    {
        let v = &raw[i];
        let address = match address_of_entry(v, "function") {
            Ok(a) => a,
            Err(m) => {
                proof {
                    lemma_first_error_stays(raw@, "function"@, i as int, raw@.len() as int);
                }
                return Err(RecompilerError::GhidraError(m));
            },
        };
        let return_type = field_str(v, "return_type");
        let size: u64 = match field_u64(v, "size") {
            Some(n) => n,
            None => 0,
        };
        let f = FunctionInfo {
            address,
            name: field_str_or(v, "name", "unknown"),
            size: size as u32,
            calling_convention: field_str_or(v, "calling_convention", "default"),
            parameters: parameters_from(v),
            return_type,
            local_variables: locals_from(v),
            basic_blocks: blocks_from(v),
        };
        assert(entry_address(raw@[i as int], "function"@) == Ok::<u32, Seq<char>>(address));
        assert(f.address == address);
        assert(f.name@ == str_or(field(*v, "name"@), "unknown"@));
        assert(f.calling_convention@ == str_or(field(*v, "calling_convention"@), "default"@));
        assert(function_from(f, *v, address));
        assert(function_entry(f, raw@[i as int]));
        functions.push(f);
        assert(first_address_error(raw@, "function"@, i + 1) is None);
        i = i + 1;
    }
    Ok(functions)
}

/// A first address error among a prefix stays the first of longer ones.
proof fn lemma_first_error_stays(vs: Seq<JsonValue>, what: Seq<char>, i: int, n: int)
    requires
        0 <= i < n <= vs.len(),
        first_address_error(vs, what, i) is None,
        entry_address(vs[i], what) is Err,
    ensures
        first_address_error(vs, what, n) == Some(entry_address(vs[i], what)->Err_0),
    decreases n,
{
    if n > i + 1 {
        lemma_first_error_stays(vs, what, i, n - 1);
    }
}

/// The kind a symbol's type text names.
pub open spec fn symbol_type_of(t: Seq<char>) -> SymbolType {
    if t == "Function"@ {
        SymbolType::Function
    } else if t == "Data"@ {
        SymbolType::Data
    } else if t == "Label"@ {
        SymbolType::Label
    } else {
        SymbolType::Unknown
    }
}

/// Whether a symbol is the one an exported entry describes.
pub open spec fn symbol_from(s: SymbolInfo, v: JsonValue, address: u32) -> bool {
    &&& s.address == address
    &&& s.name@ == str_or(field(v, "name"@), "unknown"@)
    &&& s.symbol_type == symbol_type_of(str_or(field(v, "type"@), "Unknown"@))
    &&& match as_str(field(v, "namespace"@)) {
        Some(n) => s.namespace matches Some(x) && x@ == n,
        None => s.namespace is None,
    }
}

/// Whether a symbol is the one an exported entry with a usable address
/// describes.
pub open spec fn symbol_entry(s: SymbolInfo, v: JsonValue) -> bool {
    match entry_address(v, "symbol"@) {
        Ok(a) => symbol_from(s, v, a),
        Err(_) => false,
    }
}

/// The kind a symbol's type text names.
fn symbol_type_from(t: &String) -> (k: SymbolType)
    ensures
        k == symbol_type_of(t@),
{
    let function = String::from_str("Function");
    let data = String::from_str("Data");
    let label = String::from_str("Label");
    if *t == function {
        SymbolType::Function
    } else if *t == data {
        SymbolType::Data
    } else if *t == label {
        SymbolType::Label
    } else {
        SymbolType::Unknown
    }
}

/// The symbols of an analysis export, one per entry in order; the first
/// entry without a usable address is reported.
pub fn symbols_from_json(raw: &[JsonValue]) -> (r: Result<Vec<SymbolInfo>, RecompilerError>)
    ensures
        match first_address_error(raw@, "symbol"@, raw@.len() as int) {
            Some(m) => r matches Err(RecompilerError::GhidraError(t)) && t@ == m,
            None => r matches Ok(ss) && ss@.len() == raw@.len() && forall|i: int|
                0 <= i < raw@.len() ==> symbol_entry(#[trigger] ss@[i], raw@[i]),
        },
{
    let mut symbols: Vec<SymbolInfo> = Vec::new();
    let mut i: usize = 0;
    while i < raw.len()
        invariant
            i <= raw@.len(),
            first_address_error(raw@, "symbol"@, i as int) is None,
            symbols@.len() == i,
            forall|k: int| 0 <= k < i ==> symbol_entry(#[trigger] symbols@[k], raw@[k]),
        decreases raw@.len() - i,
    {
        let v = &raw[i];
        let address = match address_of_entry(v, "symbol") {
            Ok(a) => a,
            Err(m) => {
                proof {
                    lemma_first_error_stays(raw@, "symbol"@, i as int, raw@.len() as int);
                }
                return Err(RecompilerError::GhidraError(m));
            },
        };
        let type_text = field_str_or(v, "type", "Unknown");
        let sym = SymbolInfo {
            address,
            name: field_str_or(v, "name", "unknown"),
            symbol_type: symbol_type_from(&type_text),
            namespace: field_str(v, "namespace"),
        };
        assert(symbol_entry(sym, raw@[i as int]));
        symbols.push(sym);
        assert(first_address_error(raw@, "symbol"@, i + 1) is None);
        i = i + 1;
    }
    Ok(symbols)
}

/// The decompiled code of the first `n` entries by address, a later entry
/// for an address replacing an earlier one, or the first unusable address.
pub open spec fn decompiled_map(entries: Seq<(String, JsonValue)>, n: int) -> Result<Map<u32, (Seq<char>, Seq<char>)>, Seq<char>>
    decreases n,
{
    if n <= 0 || n > entries.len() {
        Ok(Map::empty())
    } else {
        match decompiled_map(entries, n - 1) {
            Err(e) => Err(e),
            Ok(m) => match parse_address_spec(entries[n - 1].0@) {
                None => Err("Failed to parse address: "@ + entries[n - 1].0@),
                Some(a) => Ok(
                    m.insert(
                        a,
                        (
                            str_or(field(entries[n - 1].1, "c_code"@), ""@),
                            str_or(field(entries[n - 1].1, "high_function"@), ""@),
                        ),
                    ),
                ),
            },
        }
    }
}

/// The decompiled functions of an analysis export, keyed by address
/// (hexadecimal, or decimal); code texts default to empty. The first
/// unusable address is reported.
pub fn decompiled_from_json(entries: &[(String, JsonValue)]) -> (r: Result<HashMap<u32, DecompiledFunction>, RecompilerError>)
    ensures
        match decompiled_map(entries@, entries@.len() as int) {
            Err(m) => r matches Err(RecompilerError::GhidraError(t)) && t@ == m,
            Ok(m) => r matches Ok(d) && d@.map_values(|f: DecompiledFunction| (f.c_code@, f.high_function@)) == m,
        },
{
    let mut decompiled: HashMap<u32, DecompiledFunction> = HashMap::new();
    assert(decompiled@.map_values(|f: DecompiledFunction| (f.c_code@, f.high_function@)) =~= Map::<
        u32,
        (Seq<char>, Seq<char>),
    >::empty());
    let mut i: usize = 0;
    while i < entries.len()
        invariant
            i <= entries@.len(),
            decompiled_map(entries@, i as int) == Ok::<Map<u32, (Seq<char>, Seq<char>)>, Seq<char>>(
                decompiled@.map_values(|f: DecompiledFunction| (f.c_code@, f.high_function@)),
            ),
        decreases entries@.len() - i,
    {
        let (addr_str, data) = &entries[i];
        match parse_address(addr_str.as_str()) {
            None => {
                let mut m = String::from_str("Failed to parse address: ");
                m.append(addr_str.as_str());
                proof {
                    lemma_decompiled_error_stays(entries@, i as int, entries@.len() as int);
                }
                return Err(RecompilerError::GhidraError(m));
            },
            Some(address) => {
                let f = DecompiledFunction {
                    c_code: field_str_or(data, "c_code", ""),
                    high_function: field_str_or(data, "high_function", ""),
                };
                let ghost before = decompiled@;
                decompiled.insert(address, f);
                assert(decompiled@.map_values(|f: DecompiledFunction| (f.c_code@, f.high_function@))
                    =~= before.map_values(|f: DecompiledFunction| (f.c_code@, f.high_function@)).insert(
                    address,
                    (f.c_code@, f.high_function@),
                ));
            },
        }
        i = i + 1;
    }
    Ok(decompiled)
}

/// An error among a prefix of the entries stays the outcome.
proof fn lemma_decompiled_error_stays(entries: Seq<(String, JsonValue)>, i: int, n: int)
    requires
        0 <= i < n <= entries.len(),
        decompiled_map(entries, i) is Ok,
        parse_address_spec(entries[i].0@) is None,
    ensures
        decompiled_map(entries, n) == Err::<Map<u32, (Seq<char>, Seq<char>)>, Seq<char>>(
            "Failed to parse address: "@ + entries[i].0@,
        ),
    decreases n,
{
    if n > i + 1 {
        lemma_decompiled_error_stays(entries, i, n - 1);
    }
}

} // verus!
