//! Organizing recompiled functions into a tree of modules: each function
//! goes to the module the linker script gives its name (`unknown` when
//! none does), each module lists its submodules, and a module's `mod.rs`
//! declares them and re-exports its functions.
use vstd::prelude::*;
use crate::chars::{chars_of, split, split_chars, starts_with, starts_with_chars, string_of, strip_all_end, strip_all_end_chars};
use crate::codegen::emit::hex8;
use crate::ghidra::{FunctionInfo, FunctionView, SymbolInfo};
use crate::linker::{LinkerScript, first_rule};
use crate::text::append_hex;

verus! {

/// A function with the place it goes to.
pub struct OrganizedFunction {
    pub function: FunctionInfo,
    pub module: String,
    pub namespace_path: Vec<String>,
    pub file_name: String,
}

/// A module: its path, its functions and the names of its submodules.
pub struct ModuleInfo {
    pub path: String,
    pub functions: Vec<OrganizedFunction>,
    pub submodules: Vec<String>,
}

/// The data of an organized function that places it.
pub struct PlacedView {
    pub address: u32,
    pub name: Seq<char>,
    pub function: FunctionView,
    pub module: Seq<char>,
    pub namespace_path: Seq<Seq<char>>,
    pub file_name: Seq<char>,
}

impl View for OrganizedFunction {
    type V = PlacedView;

    open spec fn view(&self) -> PlacedView {
        PlacedView {
            address: self.function.address,
            name: self.function.name@,
            function: self.function@,
            module: self.module@,
            namespace_path: self.namespace_path@.map_values(|s: String| s@),
            file_name: self.file_name@,
        }
    }
}

/// The data of a module.
pub struct ModuleView {
    pub path: Seq<char>,
    pub functions: Seq<PlacedView>,
    pub submodules: Seq<Seq<char>>,
}

impl View for ModuleInfo {
    type V = ModuleView;

    open spec fn view(&self) -> ModuleView {
        ModuleView {
            path: self.path@,
            functions: self.functions@.map_values(|f: OrganizedFunction| f@),
            submodules: self.submodules@.map_values(|s: String| s@),
        }
    }
}

/// The views of a list of modules by path.
pub open spec fn module_views(ms: Seq<(String, ModuleInfo)>) -> Seq<(Seq<char>, ModuleView)> {
    ms.map_values(|e: (String, ModuleInfo)| (e.0@, e.1@))
}

/// `s` with every `::` (left to right) replaced by `_`, and every space,
/// `-` and `.` by `_`.
pub open spec fn identifier_text(s: Seq<char>) -> Seq<char>
    decreases s.len(),
{
    if s.len() == 0 {
        seq![]
    } else if s.len() >= 2 && s[0] == ':' && s[1] == ':' {
        seq!['_'] + identifier_text(s.skip(2))
    } else if s[0] == ' ' || s[0] == '-' || s[0] == '.' {
        seq!['_'] + identifier_text(s.skip(1))
    } else {
        seq![s[0]] + identifier_text(s.skip(1))
    }
}

/// Whether a name is a placeholder: empty, or starting `sub_` or `FUN_`.
pub open spec fn placeholder_name(name: Seq<char>) -> bool {
    name.len() == 0 || starts_with(name, "sub_"@) || starts_with(name, "FUN_"@)
}

/// The identifier of a function: `func_0x` and its address for a
/// placeholder name, else its name with separators made underscores.
pub open spec fn identifier_of(name: Seq<char>, address: u32) -> Seq<char> {
    if placeholder_name(name) {
        "func_0x"@ + hex8(address)
    } else {
        identifier_text(name)
    }
}

/// The file a function goes to.
pub open spec fn file_name_of(name: Seq<char>, address: u32) -> Seq<char> {
    if placeholder_name(name) {
        "func_0x"@ + hex8(address) + ".rs"@
    } else {
        identifier_text(name) + "_"@ + hex8(address) + ".rs"@
    }
}

/// The paths joined with `/`.
pub open spec fn join_path(parts: Seq<Seq<char>>) -> Seq<char>
    decreases parts.len(),
{
    if parts.len() == 0 {
        seq![]
    } else if parts.len() == 1 {
        parts[0]
    } else {
        join_path(parts.drop_last()) + "/"@ + parts.last()
    }
}

/// Index of the module with path `p`.
pub open spec fn module_index(ms: Seq<(Seq<char>, ModuleView)>, p: Seq<char>) -> Option<int>
    decreases ms.len(),
{
    if ms.len() == 0 {
        None
    } else {
        match module_index(ms.drop_last(), p) {
            Some(i) => Some(i),
            None => if ms.last().0 == p {
                Some(ms.len() - 1)
            } else {
                None
            },
        }
    }
}

/// The function added to the module of its path, a new module made when
/// there is none.
pub open spec fn add_function(ms: Seq<(Seq<char>, ModuleView)>, f: PlacedView) -> Seq<(Seq<char>, ModuleView)> {
    match module_index(ms, f.module) {
        Some(k) => ms.update(
            k,
            (
                ms[k].0,
                ModuleView {
                    path: ms[k].1.path,
                    functions: ms[k].1.functions.push(f),
                    submodules: ms[k].1.submodules,
                },
            ),
        ),
        None => ms.push(
            (f.module, ModuleView { path: f.module, functions: seq![f], submodules: seq![] }),
        ),
    }
}

/// The modules of a list of functions, in order of first appearance.
pub open spec fn grouped(fs: Seq<PlacedView>) -> Seq<(Seq<char>, ModuleView)>
    decreases fs.len(),
{
    if fs.len() == 0 {
        seq![]
    } else {
        add_function(grouped(fs.drop_last()), fs.last())
    }
}

/// `child` recorded under `parent`, a new parent made when there is none.
pub open spec fn add_child(ms: Seq<(Seq<char>, ModuleView)>, parent: Seq<char>, child: Seq<char>) -> Seq<
    (Seq<char>, ModuleView),
> {
    match module_index(ms, parent) {
        Some(k) => if ms[k].1.submodules.contains(child) {
            ms
        } else {
            ms.update(
                k,
                (
                    ms[k].0,
                    ModuleView {
                        path: ms[k].1.path,
                        functions: ms[k].1.functions,
                        submodules: ms[k].1.submodules.push(child),
                    },
                ),
            )
        },
        None => ms.push(
            (parent, ModuleView { path: parent, functions: seq![], submodules: seq![child] }),
        ),
    }
}

/// Each part from the second on recorded under the path of the parts
/// before it, over the first `n` parts.
pub open spec fn add_ancestors(ms: Seq<(Seq<char>, ModuleView)>, parts: Seq<Seq<char>>, n: int) -> Seq<
    (Seq<char>, ModuleView),
>
    decreases n,
{
    if n <= 1 || n > parts.len() {
        ms
    } else {
        add_child(add_ancestors(ms, parts, n - 1), join_path(parts.take(n - 1)), parts[n - 1])
    }
}

/// The hierarchy over the first `n` of the given paths.
pub open spec fn with_hierarchy(ms: Seq<(Seq<char>, ModuleView)>, paths: Seq<Seq<char>>, n: int) -> Seq<
    (Seq<char>, ModuleView),
>
    decreases n,
{
    if n <= 0 || n > paths.len() {
        ms
    } else {
        let parts = split(paths[n - 1], '/');
        add_ancestors(with_hierarchy(ms, paths, n - 1), parts, parts.len() as int)
    }
}

/// The text of a module's `mod.rs`.
pub open spec fn mod_rs_text(m: ModuleView) -> Seq<char> {
    "//! Auto-generated module\n"@ + "//! Generated by GCRecomp\n\n"@ + submodule_lines(m.submodules)
        + if m.functions.len() == 0 {
        seq![]
    } else {
        "\n// Function exports\n"@ + export_lines(m.functions)
    }
}

/// `pub mod` lines for submodules.
pub open spec fn submodule_lines(subs: Seq<Seq<char>>) -> Seq<char>
    decreases subs.len(),
{
    if subs.len() == 0 {
        seq![]
    } else {
        submodule_lines(subs.drop_last()) + "pub mod "@ + subs.last() + ";\n"@
    }
}

/// `pub use` lines for functions.
pub open spec fn export_lines(fs: Seq<PlacedView>) -> Seq<char>
    decreases fs.len(),
{
    if fs.len() == 0 {
        seq![]
    } else {
        export_lines(fs.drop_last()) + "pub use super::"@ + strip_all_end(fs.last().file_name, ".rs"@)
            + "::"@ + identifier_of(fs.last().name, fs.last().address) + ";\n"@
    }
}

/// Places functions into modules and writes their `mod.rs` files.
pub struct StructureGenerator {
    pub linker_script: Option<LinkerScript>,
    pub base_dir: String,
}

impl StructureGenerator {
    /// The module of a function named `name`.
    pub open spec fn module_for(&self, name: Seq<char>) -> Seq<char> {
        match self.linker_script {
            Some(l) => match first_rule(l@.namespaces, name, l@.namespaces.len()) {
                Some(i) => l@.namespaces[i].1.module,
                None => "unknown"@,
            },
            None => "unknown"@,
        }
    }

    /// Where a function goes.
    pub open spec fn placed(&self, f: FunctionInfo) -> PlacedView {
        let m = self.module_for(f.name@);
        PlacedView {
            address: f.address,
            name: f.name@,
            function: f@,
            module: m,
            namespace_path: split(m, '/'),
            file_name: file_name_of(f.name@, f.address),
        }
    }

    /// A generator with an optional linker script, writing under
    /// `base_dir`.
    pub fn new(linker_script: Option<LinkerScript>, base_dir: String) -> (g: StructureGenerator)
        ensures
            g.linker_script == linker_script,
            g.base_dir == base_dir,
    {
        StructureGenerator { linker_script, base_dir }
    }

    /// The module the linker script gives a name, else `unknown`.
    fn determine_module_from_name(&self, name: &str) -> (m: String)
        ensures
            m@ == self.module_for(name@),
    {
        match &self.linker_script {
            Some(linker) => match linker.get_module_for_symbol(name) {
                Some(module) => module,
                None => String::from_str("unknown"),
            },
            None => String::from_str("unknown"),
        }
    }

    /// The parts of a module path.
    fn determine_namespace_from_module(&self, module: &str) -> (r: Vec<String>)
        ensures
            r@.map_values(|s: String| s@) == split(module@, '/'),
    {
        let chars = chars_of(module);
        let parts = split_chars(chars.as_slice(), '/');
        let mut r: Vec<String> = Vec::new();
        let mut i: usize = 0;
        while i < parts.len()
            invariant
                i <= parts@.len(),
                r@.map_values(|s: String| s@) == parts@.map_values(|p: Vec<char>| p@).take(i as int),
            decreases parts@.len() - i,
        {
            let s = string_of(parts[i].as_slice());
            let ghost before = r@;
            r.push(s);
            assert(r@.map_values(|s: String| s@) =~= before.map_values(|s: String| s@).push(parts@[i as int]@));
            assert(r@.map_values(|s: String| s@) =~= parts@.map_values(|p: Vec<char>| p@).take(i + 1));
            i = i + 1;
        }
        assert(parts@.map_values(|p: Vec<char>| p@).take(i as int) =~= parts@.map_values(|p: Vec<char>| p@));
        r
    }

    /// Whether a name is a placeholder.
    fn is_placeholder(name: &str) -> (b: bool)
        ensures
            b == placeholder_name(name@),
    {
        let chars = chars_of(name);
        let sub = chars_of("sub_");
        let fun = chars_of("FUN_");
        chars.len() == 0 || starts_with_chars(chars.as_slice(), sub.as_slice()) || starts_with_chars(
            chars.as_slice(),
            fun.as_slice(),
        )
    }

    /// A name with separators made underscores.
    fn identifier(name: &str) -> (s: String)
        ensures
            s@ == identifier_text(name@),
    {
        let chars = chars_of(name);
        let n = chars.len();
        let mut out: Vec<char> = Vec::new();
        let mut i: usize = 0;
        assert(chars@.skip(0) =~= chars@);
        assert(out@ + identifier_text(chars@) =~= identifier_text(chars@));
        while i < n
            invariant
                n == chars@.len(),
                i <= n,
                out@ + identifier_text(chars@.skip(i as int)) == identifier_text(chars@),
            decreases n - i,
        {
            let ghost rest = chars@.skip(i as int);
            if i + 1 < n && chars[i] == ':' && chars[i + 1] == ':' {
                out.push('_');
                assert(rest.skip(2) =~= chars@.skip(i + 2));
                i = i + 2;
            } else {
                let c = chars[i];
                if c == ' ' || c == '-' || c == '.' {
                    out.push('_');
                } else {
                    out.push(c);
                }
                assert(rest.skip(1) =~= chars@.skip(i + 1));
                i = i + 1;
            }
        }
        assert(chars@.skip(n as int) =~= Seq::<char>::empty());
        assert(out@ =~= identifier_text(chars@));
        string_of(out.as_slice())
    }

    /// The file a function goes to.
    fn generate_file_name(&self, func: &FunctionInfo) -> (s: String)
        ensures
            s@ == file_name_of(func.name@, func.address),
    {
        if Self::is_placeholder(func.name.as_str()) {
            let mut s = String::from_str("func_0x");
            append_hex(&mut s, func.address, 8);
            s.append(".rs");
            s
        } else {
            let mut s = Self::identifier(func.name.as_str());
            s.append("_");
            append_hex(&mut s, func.address, 8);
            s.append(".rs");
            s
        }
    }

    /// The identifier of a function.
    fn get_function_identifier(&self, func: &FunctionInfo) -> (s: String)
        ensures
            s@ == identifier_of(func.name@, func.address),
    {
        if Self::is_placeholder(func.name.as_str()) {
            let mut s = String::from_str("func_0x");
            append_hex(&mut s, func.address, 8);
            s
        } else {
            Self::identifier(func.name.as_str())
        }
    }

    /// Where a function goes: its module, the parts of that path, and its
    /// file.
    fn organize_function(&self, func: &FunctionInfo) -> (o: OrganizedFunction)
        ensures
            o@ == self.placed(*func),
    {
        let module = self.determine_module_from_name(func.name.as_str());
        let namespace_path = self.determine_namespace_from_module(module.as_str());
        let file_name = self.generate_file_name(func);
        OrganizedFunction { function: func.duplicate(), module, namespace_path, file_name }
    }

    /// Index of the module with path `p`.
    fn find_module(modules: &Vec<(String, ModuleInfo)>, p: &String) -> (r: Option<usize>)
        ensures
            match module_index(module_views(modules@), p@) {
                Some(k) => r == Some(k as usize),
                None => r is None,
            },
            r matches Some(k) ==> k < modules@.len() && module_index(module_views(modules@), p@) == Some(
                k as int,
            ),
    {
        let ghost mv = module_views(modules@);
        let mut i: usize = 0;
        while i < modules.len()
            invariant
                i <= modules@.len(),
                mv == module_views(modules@),
                module_index(mv.take(i as int), p@) is None,
            decreases modules@.len() - i,
        {
            assert(mv.take(i + 1).drop_last() =~= mv.take(i as int));
            assert(mv[i as int] == (modules@[i as int].0@, modules@[i as int].1@));
            if modules[i].0 == *p {
                proof {
                    lemma_module_index_stays(mv, p@, i as int, mv.len() as int);
                    assert(mv.take(mv.len() as int) =~= mv);
                }
                return Some(i);
            }
            i = i + 1;
        }
        assert(mv.take(i as int) =~= mv);
        None
    }

    /// Adds a placed function to its module.
    fn add_to_module(modules: &mut Vec<(String, ModuleInfo)>, o: OrganizedFunction)
        ensures
            module_views(final(modules)@) == add_function(module_views(old(modules)@), o@),
    {
        let ghost mv = module_views(modules@);
        let ghost ov = o@;
        match Self::find_module(modules, &o.module) {
            Some(k) => {
                let ghost old_vec = modules@;
                let (key, mut m) = modules.remove(k);
                let ghost m0 = m@;
                m.functions.push(o);
                assert(m@.functions =~= m0.functions.push(ov));
                let ghost kv = key@;
                let ghost newm = m@;
                modules.insert(k, (key, m));
                assert(modules@ =~= old_vec.update(k as int, modules@[k as int]));
                assert(module_views(modules@) =~= mv.update(k as int, (kv, newm)));
                assert(mv[k as int] == (old_vec[k as int].0@, old_vec[k as int].1@));
                assert(kv == mv[k as int].0);
                assert(newm == ModuleView {
                    path: mv[k as int].1.path,
                    functions: mv[k as int].1.functions.push(ov),
                    submodules: mv[k as int].1.submodules,
                });
                assert(module_views(modules@) =~= add_function(mv, ov));
            },
            None => {
                let path = o.module.clone();
                let mut functions: Vec<OrganizedFunction> = Vec::new();
                functions.push(o);
                let m = ModuleInfo { path: path.clone(), functions, submodules: Vec::new() };
                assert(m@.functions =~= seq![ov]);
                assert(m@.submodules =~= Seq::<Seq<char>>::empty());
                modules.push((path, m));
                assert(module_views(modules@) =~= add_function(mv, ov));
            },
        }
    }

    /// Records `child` under `parent`.
    fn add_child_module(modules: &mut Vec<(String, ModuleInfo)>, parent: &String, child: &String)
        ensures
            module_views(final(modules)@) == add_child(module_views(old(modules)@), parent@, child@),
    {
        let ghost mv = module_views(modules@);
        match Self::find_module(modules, parent) {
            Some(k) => {
                let mut present = false;
                let mut j: usize = 0;
                while j < modules[k].1.submodules.len()
                    invariant
                        k < modules@.len(),
                        j <= modules@[k as int].1.submodules@.len(),
                        present == exists|t: int| 0 <= t < j && modules@[k as int].1.submodules@[t]@ == child@,
                    decreases modules@[k as int].1.submodules@.len() - j,
                {
                    if modules[k].1.submodules[j] == *child {
                        present = true;
                    }
                    j = j + 1;
                }
                assert(mv[k as int].1.submodules == modules@[k as int].1@.submodules);
                if present {
                    assert(mv[k as int].1.submodules.contains(child@)) by {
                        let t = choose|t: int| 0 <= t < j && modules@[k as int].1.submodules@[t]@ == child@;
                        assert(mv[k as int].1.submodules[t] == child@);
                    }
                } else {
                    assert(!mv[k as int].1.submodules.contains(child@)) by {
                        if mv[k as int].1.submodules.contains(child@) {
                            let t = choose|t: int| 0 <= t < mv[k as int].1.submodules.len() && mv[k as int].1.submodules[t] == child@;
                            assert(modules@[k as int].1.submodules@[t]@ == child@);
                        }
                    }
                    let ghost old_vec = modules@;
                    let (key, mut m) = modules.remove(k);
                    let ghost m0 = m@;
                    m.submodules.push(child.clone());
                    assert(m@.submodules =~= m0.submodules.push(child@));
                    let ghost kv = key@;
                    let ghost newm = m@;
                    modules.insert(k, (key, m));
                    assert(modules@ =~= old_vec.update(k as int, modules@[k as int]));
                    assert(module_views(modules@) =~= mv.update(k as int, (kv, newm)));
                    assert(mv[k as int] == (old_vec[k as int].0@, old_vec[k as int].1@));
                    assert(newm == ModuleView {
                        path: mv[k as int].1.path,
                        functions: mv[k as int].1.functions,
                        submodules: mv[k as int].1.submodules.push(child@),
                    });
                }
                assert(module_views(modules@) =~= add_child(mv, parent@, child@));
            },
            None => {
                let mut submodules: Vec<String> = Vec::new();
                submodules.push(child.clone());
                let m = ModuleInfo { path: parent.clone(), functions: Vec::new(), submodules };
                assert(m@.functions =~= Seq::<PlacedView>::empty());
                assert(m@.submodules =~= seq![child@]);
                modules.push((parent.clone(), m));
                assert(module_views(modules@) =~= add_child(mv, parent@, child@));
            },
        }
    }

    /// Records each module path's parts under their parent paths, for the
    /// paths present before any is added.
    fn build_submodule_hierarchy(&self, modules: &mut Vec<(String, ModuleInfo)>)
        ensures
            module_views(final(modules)@) == with_hierarchy(
                module_views(old(modules)@),
                module_views(old(modules)@).map_values(|e: (Seq<char>, ModuleView)| e.0),
                old(modules)@.len() as int,
            ),
    {
        let ghost m0 = module_views(modules@);
        let ghost paths = m0.map_values(|e: (Seq<char>, ModuleView)| e.0);
        let mut module_list: Vec<String> = Vec::new();
        let mut i: usize = 0;
        while i < modules.len()
            invariant
                i <= modules@.len(),
                m0 == module_views(modules@),
                paths == m0.map_values(|e: (Seq<char>, ModuleView)| e.0),
                module_list@.map_values(|s: String| s@) == paths.take(i as int),
            decreases modules@.len() - i,
        {
            let ghost before = module_list@;
            module_list.push(modules[i].0.clone());
            assert(m0[i as int] == (modules@[i as int].0@, modules@[i as int].1@));
            assert(module_list@.map_values(|s: String| s@) =~= before.map_values(|s: String| s@).push(paths[i as int]));
            assert(module_list@.map_values(|s: String| s@) =~= paths.take(i + 1));
            i = i + 1;
        }
        assert(paths.take(i as int) =~= paths);
        let n = module_list.len();
        let mut p: usize = 0;
        while p < n
            invariant
                n == module_list@.len(),
                n == paths.len(),
                module_list@.map_values(|s: String| s@) == paths,
                p <= n,
                module_views(modules@) == with_hierarchy(m0, paths, p as int),
            decreases n - p,
        {
            assert(paths[p as int] == module_list@[p as int]@);
            let chars = chars_of(module_list[p].as_str());
            let parts_chars = split_chars(chars.as_slice(), '/');
            let ghost parts = parts_chars@.map_values(|v: Vec<char>| v@);
            assert(parts == split(paths[p as int], '/'));
            let ghost base = module_views(modules@);
            if parts_chars.len() > 0 {
                let mut parent = string_of(parts_chars[0].as_slice());
                assert(parts.take(1) =~= seq![parts[0]]);
                let mut k: usize = 1;
                while k < parts_chars.len()
                    invariant
                        parts == parts_chars@.map_values(|v: Vec<char>| v@),
                        1 <= k <= parts.len(),
                        parent@ == join_path(parts.take(k as int)),
                        module_views(modules@) == add_ancestors(base, parts, k as int),
                    decreases parts.len() - k,
                {
                    let child = string_of(parts_chars[k].as_slice());
                    Self::add_child_module(modules, &parent, &child);
                    parent.append("/");
                    parent.append(child.as_str());
                    assert(parts.take(k + 1).drop_last() =~= parts.take(k as int));
                    k = k + 1;
                }
            }
            p = p + 1;
        }
    }

    /// Places each function into the module of its path, in order, then
    /// records the module hierarchy.
    pub fn organize_functions(&self, functions: &[FunctionInfo], symbols: &[SymbolInfo]) -> (r: Vec<
        (String, ModuleInfo),
    >)
        ensures
            ({
                let g = grouped(functions@.map_values(|f: FunctionInfo| self.placed(f)));
                module_views(r@) == with_hierarchy(
                    g,
                    g.map_values(|e: (Seq<char>, ModuleView)| e.0),
                    g.len() as int,
                )
            }),
    {
        let ghost placed = functions@.map_values(|f: FunctionInfo| self.placed(f));
        let mut modules: Vec<(String, ModuleInfo)> = Vec::new();
        let mut i: usize = 0;
        while i < functions.len()
            invariant
                i <= functions@.len(),
                placed == functions@.map_values(|f: FunctionInfo| self.placed(f)),
                module_views(modules@) == grouped(placed.take(i as int)),
            decreases functions@.len() - i,
        {
            let organized = self.organize_function(&functions[i]);
            assert(placed.take(i + 1).drop_last() =~= placed.take(i as int));
            Self::add_to_module(&mut modules, organized);
            i = i + 1;
        }
        assert(placed.take(i as int) =~= placed);
        assert(module_views(modules@) =~= grouped(placed));
        self.build_submodule_hierarchy(&mut modules);
        modules
    }

    /// The `mod.rs` of a module: a header, a `pub mod` line per submodule,
    /// and, when it has functions, a `pub use` line per function naming its
    /// file (without `.rs`) and identifier.
    pub fn generate_mod_rs(&self, module_info: &ModuleInfo) -> (s: String)
        ensures
            s@ == mod_rs_text(module_info@),
    {
        let ghost mv = module_info@;
        let mut content = String::from_str("//! Auto-generated module\n");
        content.append("//! Generated by GCRecomp\n\n");
        let ghost head = content@;
        let mut i: usize = 0;
        while i < module_info.submodules.len()
            invariant
                mv == module_info@,
                i <= module_info.submodules@.len(),
                content@ == head + submodule_lines(mv.submodules.take(i as int)),
            decreases module_info.submodules@.len() - i,
        {
            assert(mv.submodules.take(i + 1).drop_last() =~= mv.submodules.take(i as int));
            assert(mv.submodules[i as int] == module_info.submodules@[i as int]@);
            content.append("pub mod ");
            content.append(module_info.submodules[i].as_str());
            content.append(";\n");
            i = i + 1;
        }
        assert(mv.submodules.take(i as int) =~= mv.submodules);
        if module_info.functions.len() > 0 {
            content.append("\n// Function exports\n");
            let ghost head2 = content@;
            let rs = chars_of(".rs");
            let mut j: usize = 0;
            while j < module_info.functions.len()
                invariant
                    mv == module_info@,
                    rs@ == ".rs"@,
                    j <= module_info.functions@.len(),
                    content@ == head2 + export_lines(mv.functions.take(j as int)),
                decreases module_info.functions@.len() - j,
            {
                let f = &module_info.functions[j];
                assert(mv.functions.take(j + 1).drop_last() =~= mv.functions.take(j as int));
                assert(mv.functions[j as int] == f@);
                let func_name = self.get_function_identifier(&f.function);
                let file = chars_of(f.file_name.as_str());
                let stem = strip_all_end_chars(file.as_slice(), rs.as_slice());
                content.append("pub use super::");
                content.append(string_of(stem.as_slice()).as_str());
                content.append("::");
                content.append(func_name.as_str());
                content.append(";\n");
                j = j + 1;
            }
            assert(mv.functions.take(j as int) =~= mv.functions);
        }
        content
    }

    /// The file of an organized function: the base directory, its module
    /// path and its file name, joined with `/`.
    pub fn get_function_path(&self, organized_func: &OrganizedFunction) -> (p: String)
        ensures
            p@ == self.base_dir@ + "/"@ + organized_func.module@ + "/"@ + organized_func.file_name@,
    {
        let mut p = self.base_dir.clone();
        p.append("/");
        p.append(organized_func.module.as_str());
        p.append("/");
        p.append(organized_func.file_name.as_str());
        p
    }
}

/// A first match among a prefix stays the first of longer prefixes.
proof fn lemma_module_index_stays(ms: Seq<(Seq<char>, ModuleView)>, p: Seq<char>, i: int, n: int)
    requires
        0 <= i < n <= ms.len(),
        module_index(ms.take(i), p) is None,
        ms[i].0 == p,
    ensures
        module_index(ms.take(n), p) == Some(i),
    decreases n,
{
    if n > i + 1 {
        lemma_module_index_stays(ms, p, i, n - 1);
        assert(ms.take(n).drop_last() =~= ms.take(n - 1));
    } else {
        assert(ms.take(n).drop_last() =~= ms.take(i));
    }
}

} // verus!
