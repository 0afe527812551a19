//! Linker scripts: memory regions, section placement and the namespace
//! rules that place functions in modules.
//!
//! A script is read line by line; each line is trimmed first. Empty lines
//! and lines starting with `#` or `//` are skipped. A line starting with
//! `MEMORY`, `SECTIONS` or `NAMESPACES` opens a block that runs to the next
//! line that is `}` (for namespaces: that starts with `}`).
//!
//! ```text
//! MEMORY {
//!     TEXT : ORIGIN = 0x80003100, LENGTH = 0x1000000
//! }
//! SECTIONS {
//!     .text : { *(.text.*) } > TEXT
//! }
//! NAMESPACES {
//!     "gx" : {
//!         pattern: "GX*",
//!         module: "graphics/gx",
//!         namespace: ["graphics"]
//!     }
//! }
//! ```
use vstd::prelude::*;
use crate::text::push_char;
use crate::chars::{
    chars_of,
    contains_char,
    contains_chars,
    eq_chars,
    find_char,
    find_char_in,
    has_char,
    has_seq,
    parse_u32,
    parse_u32_radix,
    slice_chars,
    split,
    split_chars,
    starts_with,
    starts_with_chars,
    string_of,
    strip_all,
    strip_all_chars,
    trim,
    trim_char,
    trim_chars,
    trim_matches_char,
};

verus! {

/// A memory region.
#[derive(Debug, Clone, Copy, PartialEq, Eq, Structural)]
pub struct MemoryRegion {
    pub origin: u32,
    pub length: u32,
}

/// Where a section goes.
pub struct SectionDefinition {
    pub name: String,
    pub input_pattern: String,
    pub memory_region: Option<String>,
}

/// Where functions whose names match a pattern go.
pub struct NamespaceRule {
    pub pattern: String,
    pub module: String,
    pub namespace: Option<Vec<String>>,
}

/// A parsed linker script. Regions and rules are kept by name, in the order
/// their names first appear; a later entry with the same name replaces the
/// earlier one.
pub struct LinkerScript {
    pub memory: Vec<(String, MemoryRegion)>,
    pub sections: Vec<SectionDefinition>,
    pub namespaces: Vec<(String, NamespaceRule)>,
}

/// Why a script could not be parsed.
#[derive(Debug, Clone, Copy, PartialEq, Eq, Structural)]
pub enum LinkerError {
    /// An `ORIGIN` or `LENGTH` value is neither hexadecimal nor decimal.
    InvalidAddress,
}

/// The data of a section definition.
pub struct SectionView {
    pub name: Seq<char>,
    pub input_pattern: Seq<char>,
    pub memory_region: Option<Seq<char>>,
}

/// The data of a namespace rule.
pub struct RuleView {
    pub pattern: Seq<char>,
    pub module: Seq<char>,
    pub namespace: Option<Seq<Seq<char>>>,
}

/// The data of a linker script.
pub struct ScriptView {
    pub memory: Seq<(Seq<char>, MemoryRegion)>,
    pub sections: Seq<SectionView>,
    pub namespaces: Seq<(Seq<char>, RuleView)>,
}

/// The views of a list of strings.
pub open spec fn string_views(v: Seq<String>) -> Seq<Seq<char>> {
    v.map_values(|s: String| s@)
}

impl View for SectionDefinition {
    type V = SectionView;

    open spec fn view(&self) -> SectionView {
        SectionView {
            name: self.name@,
            input_pattern: self.input_pattern@,
            memory_region: match self.memory_region {
                Some(r) => Some(r@),
                None => None,
            },
        }
    }
}

impl View for NamespaceRule {
    type V = RuleView;

    open spec fn view(&self) -> RuleView {
        RuleView {
            pattern: self.pattern@,
            module: self.module@,
            namespace: match self.namespace {
                Some(v) => Some(string_views(v@)),
                None => None,
            },
        }
    }
}

impl View for LinkerScript {
    type V = ScriptView;

    open spec fn view(&self) -> ScriptView {
        ScriptView {
            memory: memory_views(self.memory@),
            sections: section_views(self.sections@),
            namespaces: rule_views(self.namespaces@),
        }
    }
}

// ------------------------------------------------------------ keyed lists

/// Index of the first key equal to `k`.
pub open spec fn key_find(keys: Seq<Seq<char>>, k: Seq<char>) -> Option<int>
    decreases keys.len(),
{
    if keys.len() == 0 {
        None
    } else {
        match key_find(keys.drop_last(), k) {
            Some(i) => Some(i),
            None => if keys.last() == k {
                Some(keys.len() - 1)
            } else {
                None
            },
        }
    }
}

/// Index of the first entry named `k`.
pub open spec fn assoc_find<V>(m: Seq<(Seq<char>, V)>, k: Seq<char>) -> Option<int> {
    key_find(m.map_values(|e: (Seq<char>, V)| e.0), k)
}

/// `m` with the entry named `k` set to `v`: replaced where it is, else added
/// at the end.
pub open spec fn assoc_insert<V>(m: Seq<(Seq<char>, V)>, k: Seq<char>, v: V) -> Seq<(Seq<char>, V)> {
    match assoc_find(m, k) {
        Some(i) => m.update(i, (k, v)),
        None => m.push((k, v)),
    }
}

// ------------------------------------------------------------------ values

/// An address or length: hexadecimal after any leading `0x` and `0X`
/// prefixes are removed, else decimal.
pub open spec fn parse_address_spec(s: Seq<char>) -> Option<u32> {
    let cleaned = strip_all(strip_all(s, "0x"@), "0X"@);
    match parse_u32_radix(cleaned, 16) {
        Some(v) => Some(v),
        None => parse_u32_radix(cleaned, 10),
    }
}

/// The value after the first `=` of a `KEY = value` part.
pub open spec fn assigned_value(part: Seq<char>) -> Option<Seq<char>> {
    let eq = split(part, '=');
    if eq.len() > 1 {
        Some(trim(eq[1]))
    } else {
        None
    }
}

/// Origin and length read from the first `k` comma-separated parts of a
/// region line; `None` when a value does not parse.
pub open spec fn region_parts(parts: Seq<Seq<char>>, k: nat) -> Option<(u32, u32)>
    decreases k,
{
    if k == 0 || k > parts.len() {
        Some((0, 0))
    } else {
        match region_parts(parts, (k - 1) as nat) {
            None => None,
            Some((origin, length)) => {
                let part = trim(parts[k - 1]);
                if starts_with(part, "ORIGIN"@) {
                    match assigned_value(part) {
                        Some(a) => match parse_address_spec(a) {
                            Some(v) => Some((v, length)),
                            None => None,
                        },
                        None => Some((origin, length)),
                    }
                } else if starts_with(part, "LENGTH"@) {
                    match assigned_value(part) {
                        Some(a) => match parse_address_spec(a) {
                            Some(v) => Some((origin, v)),
                            None => None,
                        },
                        None => Some((origin, length)),
                    }
                } else {
                    Some((origin, length))
                }
            },
        }
    }
}

/// A `NAME : ORIGIN = .., LENGTH = ..` line: `Some(None)` when the line is
/// not a region, `None` when a value does not parse.
pub open spec fn region_line(line: Seq<char>) -> Option<Option<(Seq<char>, MemoryRegion)>> {
    if has_char(line, ':') && has_seq(line, "ORIGIN"@) {
        let parts = split(line, ':');
        if parts.len() == 2 {
            let fields = split(parts[1], ',');
            match region_parts(fields, fields.len()) {
                Some((origin, length)) => Some(
                    Some((trim(parts[0]), MemoryRegion { origin, length })),
                ),
                None => None,
            }
        } else {
            Some(None)
        }
    } else {
        Some(None)
    }
}

/// A MEMORY block from line `i`: the index of its closing line (or the
/// number of lines) and the regions; `None` when a value does not parse.
pub open spec fn memory_block(
    lines: Seq<Seq<char>>,
    i: nat,
    mem: Seq<(Seq<char>, MemoryRegion)>,
) -> Option<(nat, Seq<(Seq<char>, MemoryRegion)>)>
    decreases lines.len() - i,
{
    if i >= lines.len() {
        Some((i, mem))
    } else {
        let line = trim(lines[i as int]);
        if line == "}"@ {
            Some((i, mem))
        } else {
            match region_line(line) {
                None => None,
                Some(None) => memory_block(lines, i + 1, mem),
                Some(Some((name, region))) => memory_block(lines, i + 1, assoc_insert(mem, name, region)),
            }
        }
    }
}

/// `s` from the character after `i`.
pub open spec fn after(s: Seq<char>, i: int) -> Seq<char> {
    s.subrange(i + 1, s.len() as int)
}

/// A `.name : { pattern } > REGION` line. The pattern defaults to
/// `*(.name)`.
pub open spec fn section_line(line: Seq<char>) -> Option<SectionView> {
    if line.len() > 0 && line[0] == '.' && has_char(line, ':') {
        let parts = split(line, ':');
        let name = trim(parts[0]);
        let rest = after(line, find_char(line, ':')->Some_0);
        if parts.len() < 2 {
            None
        } else {
        let input = match find_char(rest, '{') {
            Some(sb) => match find_char(rest.subrange(sb, rest.len() as int), '}') {
                Some(eb) => trim(rest.subrange(sb + 1, sb + eb)),
                None => seq![],
            },
            None => seq![],
        };
        let region = match find_char(rest, '>') {
            Some(gt) => Some(trim(after(rest, gt))),
            None => None,
        };
        Some(
            SectionView {
                name,
                input_pattern: if input.len() == 0 {
                    "*("@ + name + ")"@
                } else {
                    input
                },
                memory_region: region,
            },
        )
        }
    } else {
        None
    }
}

/// A SECTIONS block from line `i`: the index of its closing line (or the
/// number of lines) and the sections.
pub open spec fn sections_block(lines: Seq<Seq<char>>, i: nat, secs: Seq<SectionView>) -> (
    nat,
    Seq<SectionView>,
)
    decreases lines.len() - i,
{
    if i >= lines.len() {
        (i, secs)
    } else {
        let line = trim(lines[i as int]);
        if line == "}"@ {
            (i, secs)
        } else {
            match section_line(line) {
                Some(s) => sections_block(lines, i + 1, secs.push(s)),
                None => sections_block(lines, i + 1, secs),
            }
        }
    }
}

/// The quoted value of a `key: "value",` line.
pub open spec fn field_value(line: Seq<char>) -> Seq<char> {
    trim_char(trim_char(trim(split(line, ':')[1]), ','), '"')
}

/// The names of a `namespace: ["a", "b"]` line.
pub open spec fn namespace_list(line: Seq<char>) -> Seq<Seq<char>> {
    split(trim_char(trim_char(trim(split(line, ':')[1]), '['), ']'), ',').map_values(
        |p: Seq<char>| trim_char(trim(p), '"'),
    )
}

/// Pattern, module and namespace of a rule under construction.
pub type RuleFields = (Seq<char>, Seq<char>, Option<Seq<Seq<char>>>);

/// The fields after reading one line of a rule.
pub open spec fn rule_field(line: Seq<char>, f: RuleFields) -> RuleFields {
    let has_value = split(line, ':').len() > 1;
    if starts_with(line, "pattern:"@) {
        if has_value {
            (field_value(line), f.1, f.2)
        } else {
            f
        }
    } else if starts_with(line, "module:"@) {
        if has_value {
            (f.0, field_value(line), f.2)
        } else {
            f
        }
    } else if starts_with(line, "namespace:"@) {
        if has_value {
            (f.0, f.1, Some(namespace_list(line)))
        } else {
            f
        }
    } else {
        f
    }
}

/// The lines of a rule from line `j` up to the next line starting with `}`:
/// where they end and the fields read.
pub open spec fn rule_lines(lines: Seq<Seq<char>>, j: nat, f: RuleFields) -> (nat, RuleFields)
    decreases lines.len() - j,
{
    if j >= lines.len() || starts_with(trim(lines[j as int]), "}"@) {
        (j, f)
    } else {
        rule_lines(lines, j + 1, rule_field(trim(lines[j as int]), f))
    }
}

/// End of the quoted name that opens a rule line, when the name is closed.
pub open spec fn name_end(line: Seq<char>) -> Option<int> {
    match find_char(line.subrange(1, line.len() as int), '"') {
        Some(p) => Some(p + 1),
        None => None,
    }
}

/// A NAMESPACES block from line `i`: the index where it stops and the rules.
/// A rule is kept when both its pattern and module are nonempty. `None`
/// for a rule line whose quoted name is not closed.
pub open spec fn namespaces_block(
    lines: Seq<Seq<char>>,
    i: nat,
    ns: Seq<(Seq<char>, RuleView)>,
) -> Option<(nat, Seq<(Seq<char>, RuleView)>)>
    decreases lines.len() - i,
{
    if i >= lines.len() {
        Some((i, ns))
    } else {
        let line = trim(lines[i as int]);
        if line == "}"@ {
            Some((i, ns))
        } else if line.len() > 0 && line[0] == '"' && has_char(line, ':') {
            match name_end(line) {
                None => None,
                Some(e) => {
                    let name = line.subrange(1, e);
                    let (j, f) = rule_lines(lines, i, (seq![], seq![], None));
                    let ns2 = if f.0.len() > 0 && f.1.len() > 0 {
                        assoc_insert(ns, name, RuleView { pattern: f.0, module: f.1, namespace: f.2 })
                    } else {
                        ns
                    };
                    namespaces_block(
                        lines,
                        if i < j && j <= lines.len() {
                            j
                        } else {
                            lines.len()
                        },
                        ns2,
                    )
                },
            }
        } else {
            namespaces_block(lines, i + 1, ns)
        }
    }
}

/// The line after a block that opened at line `i` and closed at line `j`.
pub open spec fn next_after_block(i: nat, j: nat, n: nat) -> nat {
    if i < j && j < n {
        j + 1
    } else {
        n
    }
}

/// The script from line `i` on; `None` where a rule name is not closed.
pub open spec fn script_from(lines: Seq<Seq<char>>, i: nat, st: ScriptView) -> Option<
    Result<ScriptView, LinkerError>,
>
    decreases lines.len() - i,
{
    if i >= lines.len() {
        Some(Ok(st))
    } else {
        let line = trim(lines[i as int]);
        if line.len() == 0 || starts_with(line, "#"@) || starts_with(line, "//"@) {
            script_from(lines, i + 1, st)
        } else if starts_with(line, "MEMORY"@) {
            match memory_block(lines, i + 1, st.memory) {
                None => Some(Err(LinkerError::InvalidAddress)),
                Some((j, m)) => script_from(
                    lines,
                    next_after_block(i, j, lines.len()),
                    ScriptView { memory: m, ..st },
                ),
            }
        } else if starts_with(line, "SECTIONS"@) {
            let (j, s) = sections_block(lines, i + 1, st.sections);
            script_from(
                lines,
                next_after_block(i, j, lines.len()),
                ScriptView { sections: s, ..st },
            )
        } else if starts_with(line, "NAMESPACES"@) {
            match namespaces_block(lines, i + 1, st.namespaces) {
                None => None,
                Some((j, n)) => script_from(
                    lines,
                    next_after_block(i, j, lines.len()),
                    ScriptView { namespaces: n, ..st },
                ),
            }
        } else {
            script_from(lines, i + 1, st)
        }
    }
}

/// The script of `content`; `None` where a rule name is not closed.
pub open spec fn parse_script(content: Seq<char>) -> Option<Result<ScriptView, LinkerError>> {
    script_from(
        split(content, '\n'),
        0,
        ScriptView { memory: seq![], sections: seq![], namespaces: seq![] },
    )
}

// ------------------------------------------------------------------ lookup

/// What `regex::Regex::new(pattern)` and `Regex::is_match(text)` answer:
/// `None` when the pattern does not compile.
pub uninterp spec fn regex_full_match(pattern: Seq<char>, text: Seq<char>) -> Option<bool>;

/// Compiles `pattern` with `regex::Regex::new` and, when it compiles, tests
/// `text` with `Regex::is_match`; `None` when it does not compile.
#[verifier::external_body]
fn regex_matches(pattern: &str, text: &str) -> (r: Option<bool>)
    ensures
        r == regex_full_match(pattern@, text@),
{
    match regex::Regex::new(pattern) {
        Ok(re) => Some(re.is_match(text)),
        Err(_) => None,
    }
}

/// A wildcard pattern as a regular expression: `*` becomes `.*` and `?`
/// becomes `.`.
pub open spec fn wildcard_regex(p: Seq<char>) -> Seq<char>
    decreases p.len(),
{
    if p.len() == 0 {
        seq![]
    } else {
        wildcard_regex(p.drop_last()) + if p.last() == '*' {
            ".*"@
        } else if p.last() == '?' {
            seq!['.']
        } else {
            seq![p.last()]
        }
    }
}

/// The anchored regular expression of a wildcard pattern.
pub open spec fn anchored_regex(p: Seq<char>) -> Seq<char> {
    "^"@ + wildcard_regex(p) + "$"@
}

/// How a match is decided once the regular expression has answered: a
/// pattern with `*` matches as the expression says when it compiles;
/// otherwise the pattern must equal the name.
pub open spec fn match_decision(pattern: Seq<char>, symbol: Seq<char>, answer: Option<bool>) -> bool {
    if has_char(pattern, '*') {
        match answer {
            Some(b) => b,
            None => pattern == symbol,
        }
    } else {
        pattern == symbol
    }
}

/// Whether a wildcard pattern matches a symbol name.
pub open spec fn pattern_matches(pattern: Seq<char>, symbol: Seq<char>) -> bool {
    match_decision(pattern, symbol, regex_full_match(anchored_regex(pattern), symbol))
}

/// Index of the first rule among the first `n` whose pattern matches.
pub open spec fn first_rule(ns: Seq<(Seq<char>, RuleView)>, symbol: Seq<char>, n: nat) -> Option<int>
    decreases n,
{
    if n == 0 || n > ns.len() {
        None
    } else {
        match first_rule(ns, symbol, (n - 1) as nat) {
            Some(i) => Some(i),
            None => if pattern_matches(ns[n - 1].1.pattern, symbol) {
                Some(n - 1)
            } else {
                None
            },
        }
    }
}

/// The views of the lines of a script.
pub open spec fn line_views(lines: Seq<Vec<char>>) -> Seq<Seq<char>> {
    lines.map_values(|l: Vec<char>| l@)
}

/// The views of a list of regions.
pub open spec fn memory_views(m: Seq<(String, MemoryRegion)>) -> Seq<(Seq<char>, MemoryRegion)> {
    m.map_values(|e: (String, MemoryRegion)| (e.0@, e.1))
}

/// The views of a list of rules.
pub open spec fn rule_views(m: Seq<(String, NamespaceRule)>) -> Seq<(Seq<char>, RuleView)> {
    m.map_values(|e: (String, NamespaceRule)| (e.0@, e.1@))
}

/// The views of a list of sections.
pub open spec fn section_views(m: Seq<SectionDefinition>) -> Seq<SectionView> {
    m.map_values(|e: SectionDefinition| e@)
}

/// Index of the first region named `k`.
fn find_region(m: &Vec<(String, MemoryRegion)>, k: &[char]) -> (r: Option<usize>)
    ensures
        match r {
            Some(i) => assoc_find(memory_views(m@), k@) == Some(i as int) && i < m@.len(),
            None => assoc_find(memory_views(m@), k@) == None::<int>,
        },
{
    let ghost keys = memory_views(m@).map_values(|e: (Seq<char>, MemoryRegion)| e.0);
    let mut i: usize = 0;
    while i < m.len()
        invariant
            i <= m@.len(),
            keys == memory_views(m@).map_values(|e: (Seq<char>, MemoryRegion)| e.0),
            key_find(keys.subrange(0, i as int), k@) == None::<int>,
        decreases m@.len() - i,
    {
        let key = chars_of(m[i].0.as_str());
        assert(keys.subrange(0, i + 1).drop_last() =~= keys.subrange(0, i as int));
        assert(keys[i as int] == key@);
        if eq_chars(key.as_slice(), k) {
            proof {
                lemma_key_find_prefix(keys, k@, (i + 1) as nat);
            }
            return Some(i);
        }
        i = i + 1;
    }
    proof {
        lemma_key_find_prefix(keys, k@, m@.len());
    }
    None
}

/// Index of the first rule named `k`.
fn find_rule(m: &Vec<(String, NamespaceRule)>, k: &[char]) -> (r: Option<usize>)
    ensures
        match r {
            Some(i) => assoc_find(rule_views(m@), k@) == Some(i as int) && i < m@.len(),
            None => assoc_find(rule_views(m@), k@) == None::<int>,
        },
{
    let ghost keys = rule_views(m@).map_values(|e: (Seq<char>, RuleView)| e.0);
    let mut i: usize = 0;
    while i < m.len()
        invariant
            i <= m@.len(),
            keys == rule_views(m@).map_values(|e: (Seq<char>, RuleView)| e.0),
            key_find(keys.subrange(0, i as int), k@) == None::<int>,
        decreases m@.len() - i,
    {
        let key = chars_of(m[i].0.as_str());
        assert(keys.subrange(0, i + 1).drop_last() =~= keys.subrange(0, i as int));
        assert(keys[i as int] == key@);
        if eq_chars(key.as_slice(), k) {
            proof {
                lemma_key_find_prefix(keys, k@, (i + 1) as nat);
            }
            return Some(i);
        }
        i = i + 1;
    }
    proof {
        lemma_key_find_prefix(keys, k@, m@.len());
    }
    None
}

/// A first match within a prefix is the first match of the whole list.
proof fn lemma_key_find_prefix(keys: Seq<Seq<char>>, k: Seq<char>, n: nat)
    requires
        n <= keys.len(),
    ensures
        key_find(keys.subrange(0, n as int), k) is Some ==> key_find(keys, k) == key_find(
            keys.subrange(0, n as int),
            k,
        ),
        n == keys.len() ==> key_find(keys.subrange(0, n as int), k) == key_find(keys, k),
    decreases keys.len() - n,
{
    if n < keys.len() {
        lemma_key_find_prefix(keys, k, n + 1);
        assert(keys.subrange(0, n as int + 1).drop_last() =~= keys.subrange(0, n as int));
    } else {
        assert(keys.subrange(0, n as int) =~= keys);
    }
}

/// Sets the region named `name`.
fn insert_region(m: &mut Vec<(String, MemoryRegion)>, name: &[char], region: MemoryRegion)
    ensures
        memory_views(final(m)@) == assoc_insert(memory_views(old(m)@), name@, region),
{
    let key = string_of(name);
    match find_region(m, name) {
        Some(i) => {
            m.set(i, (key, region));
            assert(memory_views(m@) =~= memory_views(old(m)@).update(i as int, (name@, region)));
        },
        None => {
            m.push((key, region));
            assert(memory_views(m@) =~= memory_views(old(m)@).push((name@, region)));
        },
    }
}

/// Sets the rule named `name`.
fn insert_rule(m: &mut Vec<(String, NamespaceRule)>, name: &[char], rule: NamespaceRule)
    ensures
        rule_views(final(m)@) == assoc_insert(rule_views(old(m)@), name@, rule@),
{
    let key = string_of(name);
    let ghost rv = rule@;
    match find_rule(m, name) {
        Some(i) => {
            m.set(i, (key, rule));
            assert(rule_views(m@) =~= rule_views(old(m)@).update(i as int, (name@, rv)));
        },
        None => {
            m.push((key, rule));
            assert(rule_views(m@) =~= rule_views(old(m)@).push((name@, rv)));
        },
    }
}

/// An address or length value.
fn parse_address(addr: &[char]) -> (r: Result<u32, LinkerError>)
    ensures
        match r {
            Ok(v) => parse_address_spec(addr@) == Some(v),
            Err(e) => parse_address_spec(addr@) == None::<u32> && e == LinkerError::InvalidAddress,
        },
{
    let p1 = chars_of("0x");
    let p2 = chars_of("0X");
    let a = strip_all_chars(addr, p1.as_slice());
    let cleaned = strip_all_chars(a.as_slice(), p2.as_slice());
    match parse_u32(cleaned.as_slice(), 16) {
        Some(v) => Ok(v),
        None => match parse_u32(cleaned.as_slice(), 10) {
            Some(v) => Ok(v),
            None => Err(LinkerError::InvalidAddress),
        },
    }
}

/// The value after the first `=` of a part.
fn assigned(part: &[char]) -> (r: Option<Vec<char>>)
    ensures
        match r {
            Some(v) => assigned_value(part@) == Some(v@),
            None => assigned_value(part@) == None::<Seq<char>>,
        },
{
    let eq = split_chars(part, '=');
    if eq.len() > 1 {
        assert(eq@.map_values(|p: Vec<char>| p@)[1] == eq@[1]@);
        Some(trim_chars(eq[1].as_slice()))
    } else {
        None
    }
}

/// A region line.
fn region_line_of(line: &[char]) -> (r: Result<Option<(Vec<char>, MemoryRegion)>, LinkerError>)
    ensures
        match r {
            Ok(Some((n, reg))) => region_line(line@) == Some(Some((n@, reg))),
            Ok(None) => region_line(line@) == Some(None::<(Seq<char>, MemoryRegion)>),
            Err(e) => region_line(line@) is None && e == LinkerError::InvalidAddress,
        },
{
    let origin_word = chars_of("ORIGIN");
    let length_word = chars_of("LENGTH");
    if !(contains_char(line, ':') && contains_chars(line, origin_word.as_slice())) {
        return Ok(None);
    }
    let parts = split_chars(line, ':');
    let ghost pv = parts@.map_values(|p: Vec<char>| p@);
    if parts.len() != 2 {
        return Ok(None);
    }
    assert(pv[0] == parts@[0]@ && pv[1] == parts@[1]@);
    let fields = split_chars(parts[1].as_slice(), ',');
    let ghost fv = fields@.map_values(|p: Vec<char>| p@);
    let mut origin: u32 = 0;
    let mut length: u32 = 0;
    let mut k: usize = 0;
    while k < fields.len()
        invariant
            k <= fields@.len(),
            fv == fields@.map_values(|p: Vec<char>| p@),
            origin_word@ == "ORIGIN"@,
            length_word@ == "LENGTH"@,
            region_parts(fv, k as nat) == Some((origin, length)),
            pv == parts@.map_values(|p: Vec<char>| p@),
            pv == split(line@, ':'),
            pv.len() == 2,
            fv == split(pv[1], ','),
            has_char(line@, ':') && has_seq(line@, "ORIGIN"@),
        decreases fields@.len() - k,
    {
        let part = trim_chars(fields[k].as_slice());
        assert(fv[k as int] == fields@[k as int]@);
        if starts_with_chars(part.as_slice(), origin_word.as_slice()) {
            if let Some(a) = assigned(part.as_slice()) {
                match parse_address(a.as_slice()) {
                    Ok(v) => {
                        origin = v;
                    },
                    Err(e) => {
                        proof {
                            assert(fv[k as int] == fields@[k as int]@);
                            assert(region_parts(fv, (k + 1) as nat) is None);
                            lemma_region_parts_error(fv, (k + 1) as nat);
                            assert(fv == split(pv[1], ','));
                            assert(region_line(line@) is None);
                        }
                        return Err(e);
                    },
                }
            }
        } else if starts_with_chars(part.as_slice(), length_word.as_slice()) {
            if let Some(a) = assigned(part.as_slice()) {
                match parse_address(a.as_slice()) {
                    Ok(v) => {
                        length = v;
                    },
                    Err(e) => {
                        proof {
                            assert(fv[k as int] == fields@[k as int]@);
                            assert(region_parts(fv, (k + 1) as nat) is None);
                            lemma_region_parts_error(fv, (k + 1) as nat);
                            assert(fv == split(pv[1], ','));
                            assert(region_line(line@) is None);
                        }
                        return Err(e);
                    },
                }
            }
        }
        k = k + 1;
    }
    let name = trim_chars(parts[0].as_slice());
    Ok(Some((name, MemoryRegion { origin, length })))
}

/// The lines of a rule end at or after where they start, within the script.
proof fn lemma_rule_lines_range(lines: Seq<Seq<char>>, j: nat, f: RuleFields)
    requires
        j <= lines.len(),
    ensures
        j <= rule_lines(lines, j, f).0 <= lines.len(),
        j < lines.len() && !starts_with(trim(lines[j as int]), "}"@) ==> rule_lines(lines, j, f).0 > j,
    decreases lines.len() - j,
{
    if j < lines.len() && !starts_with(trim(lines[j as int]), "}"@) {
        lemma_rule_lines_range(lines, j + 1, rule_field(trim(lines[j as int]), f));
    }
}

/// Once a value fails to parse, the whole line fails.
proof fn lemma_region_parts_error(parts: Seq<Seq<char>>, k: nat)
    requires
        k <= parts.len(),
        region_parts(parts, k) is None,
    ensures
        region_parts(parts, parts.len()) is None,
    decreases parts.len() - k,
{
    if k < parts.len() {
        lemma_region_parts_error(parts, k + 1);
    }
}

impl LinkerScript {
    /// A MEMORY block from line `start`: where it ends.
    fn parse_memory_block(
        lines: &Vec<Vec<char>>,
        start: usize,
        memory: &mut Vec<(String, MemoryRegion)>,
    ) -> (r: Result<usize, LinkerError>)
        ensures
            match (r, memory_block(line_views(lines@), start as nat, memory_views(old(memory)@))) {
                (Ok(j), Some((sj, m))) => j == sj && memory_views(final(memory)@) == m,
                (Err(e), None) => e == LinkerError::InvalidAddress,
                _ => false,
            },
    {
        let ghost lv = line_views(lines@);
        let ghost target = memory_block(lv, start as nat, memory_views(memory@));
        let mut i = start;
        while i < lines.len()
            invariant
                lv == line_views(lines@),
                target == memory_block(lv, start as nat, memory_views(old(memory)@)),
                memory_block(lv, i as nat, memory_views(memory@)) == target,
            decreases lines@.len() - i,
        {
            let line = trim_chars(lines[i].as_slice());
            assert(lv[i as int] == lines@[i as int]@);
            let close = chars_of("}");
            if eq_chars(line.as_slice(), close.as_slice()) {
                assert(line@ == trim(lv[i as int]));
                assert(memory_block(lv, i as nat, memory_views(memory@)) == Some((i as nat, memory_views(memory@))));
                return Ok(i);
            }
            match region_line_of(line.as_slice()) {
                Ok(Some((name, region))) => {
                    insert_region(memory, name.as_slice(), region);
                },
                Ok(None) => {},
                Err(e) => {
                    return Err(e);
                },
            }
            i = i + 1;
        }
        Ok(i)
    }
}

/// A section line.
fn section_line_of(line: &[char]) -> (r: Option<SectionDefinition>)
    ensures
        match r {
            Some(d) => section_line(line@) == Some(d@),
            None => section_line(line@) == None::<SectionView>,
        },
{
    if !(line.len() > 0 && line[0] == '.' && contains_char(line, ':')) {
        return None;
    }
    let parts = split_chars(line, ':');
    let ghost pv = parts@.map_values(|p: Vec<char>| p@);
    let colon = match find_char_in(line, ':') {
        Some(c) => c,
        None => {
            return None;
        },
    };
    if parts.len() < 2 {
        return None;
    }
    assert(pv[0] == parts@[0]@);
    let name = trim_chars(parts[0].as_slice());
    let rest = slice_chars(line, colon + 1, line.len());
    let mut input: Vec<char> = Vec::new();
    match find_char_in(rest.as_slice(), '{') {
        Some(sb) => {
            let tail = slice_chars(rest.as_slice(), sb, rest.len());
            match find_char_in(tail.as_slice(), '}') {
                Some(eb) => {
                    assert(tail@[0] == '{');
                    assert(eb > 0);
                    let inner = slice_chars(rest.as_slice(), sb + 1, sb + eb);
                    input = trim_chars(inner.as_slice());
                },
                None => {},
            }
        },
        None => {},
    }
    let memory_region = match find_char_in(rest.as_slice(), '>') {
        Some(gt) => {
            let after_gt = slice_chars(rest.as_slice(), gt + 1, rest.len());
            let t = trim_chars(after_gt.as_slice());
            Some(string_of(t.as_slice()))
        },
        None => None,
    };
    let name_string = string_of(name.as_slice());
    let input_pattern = if input.len() == 0 {
        let mut p = String::from_str("*(");
        p.append(name_string.as_str());
        p.append(")");
        p
    } else {
        string_of(input.as_slice())
    };
    let d = SectionDefinition { name: name_string, input_pattern, memory_region };
    assert(d@ == section_line(line@)->Some_0);
    Some(d)
}

/// The value of a `key: value` line after trimming and dropping commas and
/// quotes.
fn field_value_of(line: &[char], parts: &Vec<Vec<char>>) -> (r: String)
    requires
        parts@.map_values(|p: Vec<char>| p@) == split(line@, ':'),
        parts@.len() > 1,
    ensures
        r@ == field_value(line@),
{
    assert(parts@.map_values(|p: Vec<char>| p@)[1] == parts@[1]@);
    let a = trim_chars(parts[1].as_slice());
    let b = trim_matches_char(a.as_slice(), ',');
    let c = trim_matches_char(b.as_slice(), '"');
    string_of(c.as_slice())
}

/// The names of a `namespace: [..]` line.
fn namespace_list_of(line: &[char], parts: &Vec<Vec<char>>) -> (r: Vec<String>)
    requires
        parts@.map_values(|p: Vec<char>| p@) == split(line@, ':'),
        parts@.len() > 1,
    ensures
        string_views(r@) == namespace_list(line@),
{
    assert(parts@.map_values(|p: Vec<char>| p@)[1] == parts@[1]@);
    let a = trim_chars(parts[1].as_slice());
    let b = trim_matches_char(a.as_slice(), '[');
    let c = trim_matches_char(b.as_slice(), ']');
    let pieces = split_chars(c.as_slice(), ',');
    let ghost pv = pieces@.map_values(|p: Vec<char>| p@);
    let mut out: Vec<String> = Vec::new();
    let mut k: usize = 0;
    while k < pieces.len()
        invariant
            k <= pieces@.len(),
            pv == pieces@.map_values(|p: Vec<char>| p@),
            string_views(out@) == pv.subrange(0, k as int).map_values(
                |p: Seq<char>| trim_char(trim(p), '"'),
            ),
        decreases pieces@.len() - k,
    {
        assert(pv[k as int] == pieces@[k as int]@);
        let t = trim_chars(pieces[k].as_slice());
        let u = trim_matches_char(t.as_slice(), '"');
        let ghost before = out@;
        let ghost prev = pv.subrange(0, k as int).map_values(|p: Seq<char>| trim_char(trim(p), '"'));
        out.push(string_of(u.as_slice()));
        assert(pv.subrange(0, k + 1) =~= pv.subrange(0, k as int).push(pv[k as int]));
        assert(pv.subrange(0, k + 1).map_values(|p: Seq<char>| trim_char(trim(p), '"')) =~= prev.push(
            trim_char(trim(pv[k as int]), '"'),
        ));
        assert(string_views(out@) =~= prev.push(u@));
        k = k + 1;
    }
    assert(pv.subrange(0, pv.len() as int) =~= pv);
    out
}

impl LinkerScript {
    /// A SECTIONS block from line `start`: where it ends.
    fn parse_sections_block(
        lines: &Vec<Vec<char>>,
        start: usize,
        sections: &mut Vec<SectionDefinition>,
    ) -> (r: usize)
        ensures
            (r as nat, section_views(final(sections)@)) == sections_block(
                line_views(lines@),
                start as nat,
                section_views(old(sections)@),
            ),
    {
        let ghost lv = line_views(lines@);
        let ghost target = sections_block(lv, start as nat, section_views(sections@));
        let mut i = start;
        while i < lines.len()
            invariant
                lv == line_views(lines@),
                target == sections_block(lv, start as nat, section_views(old(sections)@)),
                sections_block(lv, i as nat, section_views(sections@)) == target,
            decreases lines@.len() - i,
        {
            let line = trim_chars(lines[i].as_slice());
            assert(lv[i as int] == lines@[i as int]@);
            let close = chars_of("}");
            if eq_chars(line.as_slice(), close.as_slice()) {
                return i;
            }
            match section_line_of(line.as_slice()) {
                Some(d) => {
                    let ghost before = section_views(sections@);
                    let ghost dv = d@;
                    sections.push(d);
                    assert(section_views(sections@) =~= before.push(dv));
                },
                None => {},
            }
            i = i + 1;
        }
        i
    }

    /// The lines of one rule from `j`: where they end, and the fields read.
    fn parse_rule_lines(lines: &Vec<Vec<char>>, start: usize) -> (r: (usize, String, String, Option<Vec<String>>))
        ensures
            ({
                let (j, f) = rule_lines(line_views(lines@), start as nat, (seq![], seq![], None));
                &&& r.0 == j
                &&& r.1@ == f.0
                &&& r.2@ == f.1
                &&& match r.3 {
                    Some(v) => f.2 == Some(string_views(v@)),
                    None => f.2 == None::<Seq<Seq<char>>>,
                }
            }),
    {
        let ghost lv = line_views(lines@);
        let ghost target = rule_lines(lv, start as nat, (seq![], seq![], None));
        let mut pattern = String::new();
        let mut module = String::new();
        let mut namespace: Option<Vec<String>> = None;
        let pattern_word = chars_of("pattern:");
        let module_word = chars_of("module:");
        let namespace_word = chars_of("namespace:");
        let close = chars_of("}");
        let mut j = start;
        proof {
            assert(pattern@ =~= Seq::<char>::empty());
            assert(module@ =~= Seq::<char>::empty());
        }
        while j < lines.len()
            invariant
                lv == line_views(lines@),
                target == rule_lines(lv, start as nat, (seq![], seq![], None)),
                pattern_word@ == "pattern:"@,
                module_word@ == "module:"@,
                namespace_word@ == "namespace:"@,
                close@ == "}"@,
                rule_lines(
                    lv,
                    j as nat,
                    (
                        pattern@,
                        module@,
                        match namespace {
                            Some(v) => Some(string_views(v@)),
                            None => None,
                        },
                    ),
                ) == target,
            ensures
                j >= lv.len() || starts_with(trim(lv[j as int]), "}"@),
            decreases lines@.len() - j,
        {
            let block_line = trim_chars(lines[j].as_slice());
            assert(lv[j as int] == lines@[j as int]@);
            if starts_with_chars(block_line.as_slice(), close.as_slice()) {
                break;
            }
            let parts = split_chars(block_line.as_slice(), ':');
            if starts_with_chars(block_line.as_slice(), pattern_word.as_slice()) {
                if parts.len() > 1 {
                    pattern = field_value_of(block_line.as_slice(), &parts);
                }
            } else if starts_with_chars(block_line.as_slice(), module_word.as_slice()) {
                if parts.len() > 1 {
                    module = field_value_of(block_line.as_slice(), &parts);
                }
            } else if starts_with_chars(block_line.as_slice(), namespace_word.as_slice()) {
                if parts.len() > 1 {
                    namespace = Some(namespace_list_of(block_line.as_slice(), &parts));
                }
            }
            j = j + 1;
        }
        (j, pattern, module, namespace)
    }

    /// The rule whose first line, trimmed, is `line` at index `i`: where the
    /// block goes on; `None` when its quoted name is not closed.
    fn parse_rule_at(
        lines: &Vec<Vec<char>>,
        i: usize,
        line: &Vec<char>,
        namespaces: &mut Vec<(String, NamespaceRule)>,
    ) -> (r: Option<usize>)
        requires
            i < lines@.len(),
            line@ == trim(line_views(lines@)[i as int]),
            line@.len() > 0,
            line@[0] == '"',
            has_char(line@, ':'),
            line@ != "}"@,
        ensures
            match r {
                Some(j) => i < j <= lines@.len() && namespaces_block(
                    line_views(lines@),
                    i as nat,
                    rule_views(old(namespaces)@),
                ) == namespaces_block(line_views(lines@), j as nat, rule_views(final(namespaces)@)),
                None => namespaces_block(line_views(lines@), i as nat, rule_views(old(namespaces)@))
                    is None,
            },
    {
        let ghost lv = line_views(lines@);
        let after_quote = slice_chars(line.as_slice(), 1, line.len());
        let end = match find_char_in(after_quote.as_slice(), '"') {
            Some(p) => p + 1,
            None => {
                return None;
            },
        };
        let name = slice_chars(line.as_slice(), 1, end);
        assert(name_end(line@) == Some(end as int));
        let (j, pattern, module, namespace) = Self::parse_rule_lines(lines, i);
        proof {
            lemma_rule_lines_range(lv, i as nat, (seq![], seq![], None));
            assert(!starts_with(line@, "}"@)) by {
                reveal_strlit("}");
                assert(line@.subrange(0, 1)[0] == line@[0]);
            }
        }
        if pattern.as_str().unicode_len() > 0 && module.as_str().unicode_len() > 0 {
            let rule = NamespaceRule { pattern, module, namespace };
            insert_rule(namespaces, name.as_slice(), rule);
        }
        Some(j)
    }

    /// A NAMESPACES block from line `start`: where it stops; `None` for a
    /// rule line whose quoted name is not closed.
    fn parse_namespaces_block(
        lines: &Vec<Vec<char>>,
        start: usize,
        namespaces: &mut Vec<(String, NamespaceRule)>,
    ) -> (r: Option<usize>)
        ensures
            match (r, namespaces_block(line_views(lines@), start as nat, rule_views(old(namespaces)@))) {
                (Some(j), Some((sj, n))) => j == sj && rule_views(final(namespaces)@) == n,
                (None, None) => true,
                _ => false,
            },
    {
        let ghost lv = line_views(lines@);
        let ghost target = namespaces_block(lv, start as nat, rule_views(namespaces@));
        let close = chars_of("}");
        let mut i = start;
        while i < lines.len()
            invariant
                lv == line_views(lines@),
                close@ == "}"@,
                target == namespaces_block(lv, start as nat, rule_views(old(namespaces)@)),
                namespaces_block(lv, i as nat, rule_views(namespaces@)) == target,
            decreases lines@.len() - i,
        {
            let line = trim_chars(lines[i].as_slice());
            assert(lv[i as int] == lines@[i as int]@);
            if eq_chars(line.as_slice(), close.as_slice()) {
                return Some(i);
            }
            if line.len() > 0 && line[0] == '"' && contains_char(line.as_slice(), ':') {
                match Self::parse_rule_at(lines, i, &line, namespaces) {
                    Some(j) => {
                        i = j;
                    },
                    None => {
                        return None;
                    },
                }
            } else {
                i = i + 1;
            }
        }
        Some(i)
    }
}

/// A MEMORY block ends at or after where it starts, within the script.
proof fn lemma_memory_block_range(lines: Seq<Seq<char>>, i: nat, mem: Seq<(Seq<char>, MemoryRegion)>)
    requires
        i <= lines.len(),
    ensures
        memory_block(lines, i, mem) matches Some((j, m)) ==> i <= j <= lines.len(),
    decreases lines.len() - i,
{
    if i < lines.len() {
        let line = trim(lines[i as int]);
        if line != "}"@ {
            match region_line(line) {
                None => {},
                Some(None) => lemma_memory_block_range(lines, i + 1, mem),
                Some(Some((name, region))) => lemma_memory_block_range(
                    lines,
                    i + 1,
                    assoc_insert(mem, name, region),
                ),
            }
        }
    }
}

/// A SECTIONS block ends at or after where it starts, within the script.
proof fn lemma_sections_block_range(lines: Seq<Seq<char>>, i: nat, secs: Seq<SectionView>)
    requires
        i <= lines.len(),
    ensures
        i <= sections_block(lines, i, secs).0 <= lines.len(),
    decreases lines.len() - i,
{
    if i < lines.len() {
        let line = trim(lines[i as int]);
        if line != "}"@ {
            match section_line(line) {
                Some(s) => lemma_sections_block_range(lines, i + 1, secs.push(s)),
                None => lemma_sections_block_range(lines, i + 1, secs),
            }
        }
    }
}

/// A NAMESPACES block ends at or after where it starts, within the script.
proof fn lemma_namespaces_block_range(lines: Seq<Seq<char>>, i: nat, ns: Seq<(Seq<char>, RuleView)>)
    requires
        i <= lines.len(),
    ensures
        namespaces_block(lines, i, ns) matches Some((j, n)) ==> i <= j <= lines.len(),
    decreases lines.len() - i,
{
    if i < lines.len() {
        let line = trim(lines[i as int]);
        if line != "}"@ {
            if line.len() > 0 && line[0] == '"' && has_char(line, ':') {
                match name_end(line) {
                    None => {},
                    Some(e) => {
                        let name = line.subrange(1, e);
                        let (j, f) = rule_lines(lines, i, (seq![], seq![], None));
                        let ns2 = if f.0.len() > 0 && f.1.len() > 0 {
                            assoc_insert(
                                ns,
                                name,
                                RuleView { pattern: f.0, module: f.1, namespace: f.2 },
                            )
                        } else {
                            ns
                        };
                        let next = if i < j && j <= lines.len() {
                            j
                        } else {
                            lines.len()
                        };
                        lemma_namespaces_block_range(lines, next, ns2);
                    },
                }
            } else {
                lemma_namespaces_block_range(lines, i + 1, ns);
            }
        }
    }
}

impl LinkerScript {
    /// Parses a script; `None` where a rule line's quoted name is not closed.
    fn parse_lines(content: &str) -> (r: Option<Result<LinkerScript, LinkerError>>)
        ensures
            match (r, parse_script(content@)) {
                (Some(Ok(s)), Some(Ok(v))) => s@ == v,
                (Some(Err(e)), Some(Err(f))) => e == f,
                (None, None) => true,
                _ => false,
            },
    {
        let text = chars_of(content);
        let lines = split_chars(text.as_slice(), '\n');
        let ghost lv = line_views(lines@);
        assert(lv == split(content@, '\n'));
        let ghost target = parse_script(content@);
        let mut memory: Vec<(String, MemoryRegion)> = Vec::new();
        let mut sections: Vec<SectionDefinition> = Vec::new();
        let mut namespaces: Vec<(String, NamespaceRule)> = Vec::new();
        let hash = chars_of("#");
        let slashes = chars_of("//");
        let memory_word = chars_of("MEMORY");
        let sections_word = chars_of("SECTIONS");
        let namespaces_word = chars_of("NAMESPACES");
        proof {
            assert(memory_views(memory@) =~= Seq::<(Seq<char>, MemoryRegion)>::empty());
            assert(section_views(sections@) =~= Seq::<SectionView>::empty());
            assert(rule_views(namespaces@) =~= Seq::<(Seq<char>, RuleView)>::empty());
        }
        let mut i: usize = 0;
        while i < lines.len()
            invariant
                lv == line_views(lines@),
                target == parse_script(content@),
                lv == split(content@, '\n'),
                hash@ == "#"@,
                slashes@ == "//"@,
                memory_word@ == "MEMORY"@,
                sections_word@ == "SECTIONS"@,
                namespaces_word@ == "NAMESPACES"@,
                script_from(
                    lv,
                    i as nat,
                    ScriptView {
                        memory: memory_views(memory@),
                        sections: section_views(sections@),
                        namespaces: rule_views(namespaces@),
                    },
                ) == target,
            decreases lines@.len() - i,
        {
            let line = trim_chars(lines[i].as_slice());
            assert(lv[i as int] == lines@[i as int]@);
            let ghost st = ScriptView {
                memory: memory_views(memory@),
                sections: section_views(sections@),
                namespaces: rule_views(namespaces@),
            };
            if line.len() == 0 || starts_with_chars(line.as_slice(), hash.as_slice())
                || starts_with_chars(line.as_slice(), slashes.as_slice()) {
                i = i + 1;
            } else if starts_with_chars(line.as_slice(), memory_word.as_slice()) {
                proof {
                    lemma_memory_block_range(lv, (i + 1) as nat, st.memory);
                }
                match Self::parse_memory_block(&lines, i + 1, &mut memory) {
                    Ok(j) => {
                        i = if j < lines.len() {
                            j + 1
                        } else {
                            lines.len()
                        };
                    },
                    Err(e) => {
                        return Some(Err(e));
                    },
                }
            } else if starts_with_chars(line.as_slice(), sections_word.as_slice()) {
                proof {
                    lemma_sections_block_range(lv, (i + 1) as nat, st.sections);
                }
                let j = Self::parse_sections_block(&lines, i + 1, &mut sections);
                i = if j < lines.len() {
                    j + 1
                } else {
                    lines.len()
                };
            } else if starts_with_chars(line.as_slice(), namespaces_word.as_slice()) {
                proof {
                    lemma_namespaces_block_range(lv, (i + 1) as nat, st.namespaces);
                }
                match Self::parse_namespaces_block(&lines, i + 1, &mut namespaces) {
                    Some(j) => {
                        i = if j < lines.len() {
                            j + 1
                        } else {
                            lines.len()
                        };
                    },
                    None => {
                        return None;
                    },
                }
            } else {
                i = i + 1;
            }
        }
        let script = LinkerScript { memory, sections, namespaces };
        Some(Ok(script))
    }

    /// Parses a linker script. Requires every rule line in a NAMESPACES
    /// block to close its quoted name.
    pub fn from_str(content: &str) -> (r: Result<LinkerScript, LinkerError>)
        requires
            parse_script(content@) is Some,
        ensures
            match (r, parse_script(content@)) {
                (Ok(s), Some(Ok(v))) => s@ == v,
                (Err(e), Some(Err(f))) => e == f,
                _ => false,
            },
    {
        match Self::parse_lines(content) {
            Some(r) => r,
            None => Err(LinkerError::InvalidAddress),
        }
    }

    /// Parses a linker script; `None` when a rule line in a NAMESPACES
    /// block does not close its quoted name.
    pub fn parse(content: &str) -> (r: Option<Result<LinkerScript, LinkerError>>)
        ensures
            match (r, parse_script(content@)) {
                (Some(Ok(s)), Some(Ok(v))) => s@ == v,
                (Some(Err(e)), Some(Err(f))) => e == f,
                (None, None) => true,
                _ => false,
            },
    {
        match Self::parse_lines(content) {
            Some(_) => Some(Self::from_str(content)),
            None => None,
        }
    }
}

/// A wildcard pattern as an anchored regular expression.
fn anchored_regex_of(pattern: &[char]) -> (s: String)
    ensures
        s@ == anchored_regex(pattern@),
{
    let mut s = String::from_str("^");
    let mut i: usize = 0;
    while i < pattern.len()
        invariant
            i <= pattern@.len(),
            s@ == "^"@ + wildcard_regex(pattern@.subrange(0, i as int)),
        decreases pattern@.len() - i,
    {
        let c = pattern[i];
        let ghost before = s@;
        if c == '*' {
            s.append(".*");
        } else if c == '?' {
            push_char(&mut s, '.');
        } else {
            push_char(&mut s, c);
        }
        proof {
            let t = pattern@.subrange(0, i + 1);
            assert(t.drop_last() =~= pattern@.subrange(0, i as int));
            assert(t.last() == c);
            assert(s@ =~= "^"@ + wildcard_regex(t));
        }
        i = i + 1;
    }
    s.append("$");
    assert(pattern@.subrange(0, pattern@.len() as int) =~= pattern@);
    s
}

/// Decides a match once the regular expression made of the pattern has
/// answered (`None` when it did not compile).
pub fn decide_match(pattern: &str, symbol_name: &str, answer: Option<bool>) -> (b: bool)
    ensures
        b == match_decision(pattern@, symbol_name@, answer),
{
    let p = chars_of(pattern);
    let n = chars_of(symbol_name);
    if contains_char(p.as_slice(), '*') {
        match answer {
            Some(b) => {
                return b;
            },
            None => {},
        }
    }
    eq_chars(p.as_slice(), n.as_slice())
}

/// Whether a wildcard pattern matches a symbol name: `*` matches any run of
/// characters and `?` any one character, when the pattern holds a `*`;
/// otherwise the pattern must equal the name.
fn match_pattern(pattern: &str, symbol_name: &str) -> (b: bool)
    ensures
        b == pattern_matches(pattern@, symbol_name@),
{
    let p = chars_of(pattern);
    if contains_char(p.as_slice(), '*') {
        let re = anchored_regex_of(p.as_slice());
        let answer = regex_matches(re.as_str(), symbol_name);
        decide_match(pattern, symbol_name, answer)
    } else {
        decide_match(pattern, symbol_name, None)
    }
}

/// A copy of a list of strings.
fn copy_strings(v: &Vec<String>) -> (r: Vec<String>)
    ensures
        string_views(r@) == string_views(v@),
{
    let mut r: Vec<String> = Vec::new();
    let mut i: usize = 0;
    while i < v.len()
        invariant
            i <= v@.len(),
            string_views(r@) == string_views(v@).subrange(0, i as int),
        decreases v@.len() - i,
    {
        let ghost before = string_views(r@);
        let c = v[i].clone();
        assert(c@ == v@[i as int]@);
        r.push(c);
        assert(string_views(r@) =~= before.push(c@));
        assert(string_views(r@) =~= string_views(v@).subrange(0, i + 1));
        i = i + 1;
    }
    assert(string_views(v@).subrange(0, v@.len() as int) =~= string_views(v@));
    r
}

impl LinkerScript {
    /// Index of the first rule whose pattern matches `symbol_name`.
    fn find_rule_for(&self, symbol_name: &str) -> (r: Option<usize>)
        ensures
            match r {
                Some(i) => first_rule(self@.namespaces, symbol_name@, self@.namespaces.len()) == Some(
                    i as int,
                ) && i < self.namespaces@.len(),
                None => first_rule(self@.namespaces, symbol_name@, self@.namespaces.len()) == None::<
                    int,
                >,
            },
    {
        let ghost ns = self@.namespaces;
        let mut i: usize = 0;
        while i < self.namespaces.len()
            invariant
                ns == self@.namespaces,
                i <= ns.len(),
                ns.len() == self.namespaces@.len(),
                first_rule(ns, symbol_name@, i as nat) == None::<int>,
            decreases ns.len() - i,
        {
            assert(ns[i as int].1 == self.namespaces@[i as int].1@);
            if match_pattern(self.namespaces[i].1.pattern.as_str(), symbol_name) {
                proof {
                    lemma_first_rule_prefix(ns, symbol_name@, (i + 1) as nat);
                }
                return Some(i);
            }
            i = i + 1;
        }
        None
    }

    /// The module of the first rule whose pattern matches `symbol_name`.
    pub fn get_module_for_symbol(&self, symbol_name: &str) -> (r: Option<String>)
        ensures
            match first_rule(self@.namespaces, symbol_name@, self@.namespaces.len()) {
                Some(i) => r matches Some(m) && m@ == self@.namespaces[i].1.module,
                None => r is None,
            },
    {
        match self.find_rule_for(symbol_name) {
            Some(i) => {
                assert(self@.namespaces[i as int].1 == self.namespaces@[i as int].1@);
                Some(self.namespaces[i].1.module.clone())
            },
            None => None,
        }
    }

    /// The namespace of the first rule whose pattern matches `symbol_name`.
    pub fn get_namespace_for_symbol(&self, symbol_name: &str) -> (r: Option<Vec<String>>)
        ensures
            match first_rule(self@.namespaces, symbol_name@, self@.namespaces.len()) {
                Some(i) => match self@.namespaces[i].1.namespace {
                    Some(n) => r matches Some(v) && string_views(v@) == n,
                    None => r is None,
                },
                None => r is None,
            },
    {
        match self.find_rule_for(symbol_name) {
            Some(i) => {
                assert(self@.namespaces[i as int].1 == self.namespaces@[i as int].1@);
                match &self.namespaces[i].1.namespace {
                    Some(v) => Some(copy_strings(v)),
                    None => None,
                }
            },
            None => None,
        }
    }

    /// The region named `name`.
    pub fn memory_region(&self, name: &str) -> (r: Option<MemoryRegion>)
        ensures
            match assoc_find(self@.memory, name@) {
                Some(i) => r == Some(self@.memory[i].1),
                None => r is None,
            },
    {
        let key = chars_of(name);
        match find_region(&self.memory, key.as_slice()) {
            Some(i) => Some(self.memory[i].1),
            None => None,
        }
    }
}

/// A first match within a prefix is the first match of a longer prefix.
proof fn lemma_first_rule_prefix(ns: Seq<(Seq<char>, RuleView)>, symbol: Seq<char>, n: nat)
    requires
        n <= ns.len(),
    ensures
        first_rule(ns, symbol, n) is Some ==> first_rule(ns, symbol, ns.len()) == first_rule(
            ns,
            symbol,
            n,
        ),
    decreases ns.len() - n,
{
    if n < ns.len() {
        lemma_first_rule_prefix(ns, symbol, n + 1);
    }
}

} // verus!
