//! Known game-specific quirks and the workarounds that recompiling them
//! needs, found by address ranges and instruction sequences.
use vstd::prelude::*;
use crate::chars::{
    chars_of,
    contains_char,
    eq_chars,
    ends_with,
    ends_with_chars,
    has_char,
    parse_u32,
    parse_u32_radix,
    split,
    split_chars,
    strip_all,
    strip_all_chars,
    strip_all_end,
    strip_all_end_chars,
};
use crate::linker::string_views;

verus! {

/// Kind of quirk.
#[derive(Debug, Clone, Copy, PartialEq, Eq, Structural)]
pub enum QuirkType {
    SelfModifyingCode,
    JumpTable,
    IndirectCall,
    ExceptionHandler,
    MemoryAccess,
    CompilerQuirk,
    SdkQuirk,
    Other,
}

/// What to do about a quirk.
pub enum Workaround {
    SkipOptimization,
    CodeGenStrategy(String),
    Patch(Vec<u8>),
    RuntimeHandler(String),
    Custom(String),
}

/// A quirk: where and how to recognize it, and its workaround.
pub struct QuirkPattern {
    pub pattern_type: QuirkType,
    pub description: String,
    /// `BASE:*` (from BASE up), `START-END` (inclusive) or an exact address,
    /// in hexadecimal.
    pub address_pattern: Option<String>,
    /// A run of mnemonics.
    pub instruction_pattern: Option<Vec<String>>,
    pub workaround: Workaround,
}

/// The quirks of one game.
pub struct GameQuirk {
    pub game_id: String,
    pub game_name: String,
    pub quirks: Vec<QuirkPattern>,
}

/// The data of a workaround.
pub enum WorkaroundView {
    SkipOptimization,
    CodeGenStrategy(Seq<char>),
    Patch(Seq<u8>),
    RuntimeHandler(Seq<char>),
    Custom(Seq<char>),
}

/// The data of a quirk.
pub struct PatternView {
    pub pattern_type: QuirkType,
    pub description: Seq<char>,
    pub address_pattern: Option<Seq<char>>,
    pub instruction_pattern: Option<Seq<Seq<char>>>,
    pub workaround: WorkaroundView,
}

/// The data of a game's quirks.
pub struct GameView {
    pub game_id: Seq<char>,
    pub game_name: Seq<char>,
    pub quirks: Seq<PatternView>,
}

impl View for Workaround {
    type V = WorkaroundView;

    open spec fn view(&self) -> WorkaroundView {
        match self {
            Workaround::SkipOptimization => WorkaroundView::SkipOptimization,
            Workaround::CodeGenStrategy(s) => WorkaroundView::CodeGenStrategy(s@),
            Workaround::Patch(p) => WorkaroundView::Patch(p@),
            Workaround::RuntimeHandler(s) => WorkaroundView::RuntimeHandler(s@),
            Workaround::Custom(s) => WorkaroundView::Custom(s@),
        }
    }
}

impl View for QuirkPattern {
    type V = PatternView;

    open spec fn view(&self) -> PatternView {
        PatternView {
            pattern_type: self.pattern_type,
            description: self.description@,
            address_pattern: match self.address_pattern {
                Some(p) => Some(p@),
                None => None,
            },
            instruction_pattern: match self.instruction_pattern {
                Some(v) => Some(string_views(v@)),
                None => None,
            },
            workaround: self.workaround@,
        }
    }
}

/// The views of a list of quirks.
pub open spec fn pattern_views(s: Seq<QuirkPattern>) -> Seq<PatternView> {
    s.map_values(|q: QuirkPattern| q@)
}

impl View for GameQuirk {
    type V = GameView;

    open spec fn view(&self) -> GameView {
        GameView { game_id: self.game_id@, game_name: self.game_name@, quirks: pattern_views(self.quirks@) }
    }
}

/// Quirks by game identifier; a game added again replaces the earlier entry.
pub struct GameQuirkDatabase {
    quirks: Vec<(String, GameQuirk)>,
}

/// The entry of the database for each game, in the order games were first added.
pub open spec fn game_entries(v: Seq<(String, GameQuirk)>) -> Seq<(Seq<char>, GameView)> {
    v.map_values(|e: (String, GameQuirk)| (e.0@, e.1@))
}

/// Index of the entry for `game`.
pub open spec fn game_index(db: Seq<(Seq<char>, GameView)>, game: Seq<char>) -> Option<int>
    decreases db.len(),
{
    if db.len() == 0 {
        None
    } else {
        match game_index(db.drop_last(), game) {
            Some(i) => Some(i),
            None => if db.last().0 == game {
                Some(db.len() - 1)
            } else {
                None
            },
        }
    }
}

/// The quirks of `game`, none when it is unknown.
pub open spec fn quirks_of(db: Seq<(Seq<char>, GameView)>, game: Seq<char>) -> Seq<PatternView> {
    match game_index(db, game) {
        Some(i) => db[i].1.quirks,
        None => seq![],
    }
}

/// A hexadecimal number after any leading `0x` prefixes.
pub open spec fn hex_value(s: Seq<char>) -> Option<u32> {
    parse_u32_radix(strip_all(s, "0x"@), 16)
}

/// Whether `address` is matched by an address pattern: `BASE:*` matches
/// addresses from BASE up, `START-END` the inclusive range, anything else
/// exactly that address. A pattern that does not parse matches nothing.
pub open spec fn address_matches(pattern: Seq<char>, address: u32) -> bool {
    if ends_with(pattern, ":*"@) {
        match hex_value(strip_all_end(pattern, ":*"@)) {
            Some(base) => address >= base,
            None => false,
        }
    } else if has_char(pattern, '-') {
        let parts = split(pattern, '-');
        if parts.len() == 2 {
            match (hex_value(parts[0]), hex_value(parts[1])) {
                (Some(start), Some(end)) => start <= address && address <= end,
                _ => false,
            }
        } else {
            false
        }
    } else {
        match hex_value(pattern) {
            Some(a) => address == a,
            None => false,
        }
    }
}

/// Whether `pattern` occurs as a contiguous run in `instructions`.
pub open spec fn has_run(pattern: Seq<Seq<char>>, instructions: Seq<Seq<char>>) -> bool {
    pattern.len() <= instructions.len() && exists|i: int|
        0 <= i <= instructions.len() - pattern.len() && #[trigger] instructions.subrange(
            i,
            i + pattern.len(),
        ) == pattern
}

/// Index of the first quirk among the first `k` whose address pattern
/// matches `address`.
pub open spec fn first_address_quirk(qs: Seq<PatternView>, address: u32, k: nat) -> Option<int>
    decreases k,
{
    if k == 0 || k > qs.len() {
        None
    } else {
        match first_address_quirk(qs, address, (k - 1) as nat) {
            Some(i) => Some(i),
            None => match qs[k - 1].address_pattern {
                Some(p) => if address_matches(p, address) {
                    Some(k - 1)
                } else {
                    None
                },
                None => None,
            },
        }
    }
}

/// Index of the first quirk among the first `k` whose instruction pattern
/// occurs in `instructions`.
pub open spec fn first_run_quirk(qs: Seq<PatternView>, instructions: Seq<Seq<char>>, k: nat) -> Option<int>
    decreases k,
{
    if k == 0 || k > qs.len() {
        None
    } else {
        match first_run_quirk(qs, instructions, (k - 1) as nat) {
            Some(i) => Some(i),
            None => match qs[k - 1].instruction_pattern {
                Some(p) => if has_run(p, instructions) {
                    Some(k - 1)
                } else {
                    None
                },
                None => None,
            },
        }
    }
}

/// A hexadecimal number after any leading `0x` prefixes.
fn hex_value_of(s: &[char]) -> (r: Option<u32>)
    ensures
        r == hex_value(s@),
{
    let prefix = chars_of("0x");
    let t = strip_all_chars(s, prefix.as_slice());
    parse_u32(t.as_slice(), 16)
}

/// Whether `address` is matched by an address pattern.
fn match_address_pattern(pattern: &str, address: u32) -> (b: bool)
    ensures
        b == address_matches(pattern@, address),
{
    let p = chars_of(pattern);
    let wildcard = chars_of(":*");
    if ends_with_chars(p.as_slice(), wildcard.as_slice()) {
        let base_str = strip_all_end_chars(p.as_slice(), wildcard.as_slice());
        match hex_value_of(base_str.as_slice()) {
            Some(base) => address >= base,
            None => false,
        }
    } else if contains_char(p.as_slice(), '-') {
        let parts = split_chars(p.as_slice(), '-');
        if parts.len() == 2 {
            assert(parts@.map_values(|q: Vec<char>| q@)[0] == parts@[0]@);
            assert(parts@.map_values(|q: Vec<char>| q@)[1] == parts@[1]@);
            match (hex_value_of(parts[0].as_slice()), hex_value_of(parts[1].as_slice())) {
                (Some(start), Some(end)) => start <= address && address <= end,
                _ => false,
            }
        } else {
            false
        }
    } else {
        match hex_value_of(p.as_slice()) {
            Some(a) => address == a,
            None => false,
        }
    }
}

/// Whether `pattern` occurs as a contiguous run in `instructions`.
fn match_instruction_pattern(pattern: &Vec<String>, instructions: &[String]) -> (b: bool)
    ensures
        b == has_run(string_views(pattern@), string_views(instructions@)),
{
    let ghost pv = string_views(pattern@);
    let ghost iv = string_views(instructions@);
    if pattern.len() > instructions.len() {
        return false;
    }
    let last = instructions.len() - pattern.len();
    let mut i: usize = 0;
    while i <= last
        invariant
            last + pattern@.len() == instructions@.len(),
            pv == string_views(pattern@),
            iv == string_views(instructions@),
            i <= last,
            forall|k: int| 0 <= k < i ==> #[trigger] iv.subrange(k, k + pv.len()) != pv,
        decreases last - i,
    {
        let mut matches = true;
        let mut j: usize = 0;
        while j < pattern.len()
            invariant
                j <= pattern@.len(),
                i <= last,
                last + pattern@.len() == instructions@.len(),
                instructions@.len() == instructions.len(),
                pv == string_views(pattern@),
                iv == string_views(instructions@),
                matches <==> forall|k: int| 0 <= k < j ==> iv[i + k] == pv[k],
            decreases pattern@.len() - j,
        {
            assert(iv[i + j] == instructions@[i + j]@ && pv[j as int] == pattern@[j as int]@);
            if !(instructions[i + j] == pattern[j]) {
                matches = false;
            }
            j = j + 1;
        }
        if matches {
            assert(iv.subrange(i as int, i + pv.len()) =~= pv);
            return true;
        }
        assert(iv.subrange(i as int, i + pv.len()) != pv) by {
            let k = choose|k: int| 0 <= k < pv.len() && iv[i + k] != pv[k];
            assert(iv.subrange(i as int, i + pv.len())[k] != pv[k]);
        }
        if i == last {
            assert forall|k: int| 0 <= k <= iv.len() - pv.len() implies #[trigger] iv.subrange(k, k + pv.len()) != pv by {
                assert(k <= i);
            }
            return false;
        }
        i = i + 1;
    }
    false
}

impl GameQuirkDatabase {
    /// The entries of the database.
    pub closed spec fn entries(&self) -> Seq<(Seq<char>, GameView)> {
        game_entries(self.quirks@)
    }

    /// An empty database: the built-in table holds no game yet.
    pub fn new() -> (db: GameQuirkDatabase)
        ensures
            db.entries() == Seq::<(Seq<char>, GameView)>::empty(),
    {
        let mut db = GameQuirkDatabase { quirks: Vec::new() };
        db.load_builtin_quirks();
        assert(db.entries() =~= Seq::<(Seq<char>, GameView)>::empty());
        db
    }

    /// The built-in quirk table. It holds a template entry for a jump-table
    /// quirk, which is not added to the database.
    fn load_builtin_quirks(&mut self)
        ensures
            final(self).quirks@ == old(self).quirks@,
    {
        let example = builtin_template();
    }

    /// Index of the entry for `game_id`.
    fn find_game(&self, game_id: &str) -> (r: Option<usize>)
        ensures
            match r {
                Some(i) => game_index(self.entries(), game_id@) == Some(i as int) && i
                    < self.quirks@.len(),
                None => game_index(self.entries(), game_id@) == None::<int>,
            },
    {
        let ghost db = self.entries();
        let mut i: usize = 0;
        while i < self.quirks.len()
            invariant
                db == game_entries(self.quirks@),
                i <= db.len(),
                db.len() == self.quirks@.len(),
                game_index(db.subrange(0, i as int), game_id@) == None::<int>,
            decreases db.len() - i,
        {
            assert(db.subrange(0, i + 1).drop_last() =~= db.subrange(0, i as int));
            assert(db[i as int].0 == self.quirks@[i as int].0@);
            let key = chars_of(self.quirks[i].0.as_str());
            let wanted = chars_of(game_id);
            if eq_chars(key.as_slice(), wanted.as_slice()) {
                proof {
                    lemma_game_index_prefix(db, game_id@, (i + 1) as nat);
                }
                return Some(i);
            }
            i = i + 1;
        }
        proof {
            lemma_game_index_prefix(db, game_id@, db.len());
        }
        None
    }

    /// The quirks recorded for a game, in order.
    pub fn find_quirks(&self, game_id: &str) -> (r: Vec<&QuirkPattern>)
        ensures
            r@.map_values(|q: &QuirkPattern| q@) == quirks_of(self.entries(), game_id@),
    {
        let mut out: Vec<&QuirkPattern> = Vec::new();
        match self.find_game(game_id) {
            Some(g) => {
                let qs = &self.quirks[g].1.quirks;
                assert(self.entries()[g as int].1.quirks == pattern_views(qs@));
                let mut i: usize = 0;
                while i < qs.len()
                    invariant
                        i <= qs@.len(),
                        out@.map_values(|q: &QuirkPattern| q@) == pattern_views(qs@).subrange(
                            0,
                            i as int,
                        ),
                    decreases qs@.len() - i,
                {
                    assert(pattern_views(qs@)[i as int] == qs@[i as int]@);
                    let ghost before = out@.map_values(|q: &QuirkPattern| q@);
                    out.push(&qs[i]);
                    assert(out@.map_values(|q: &QuirkPattern| q@) =~= before.push(qs@[i as int]@));
                    assert(out@.map_values(|q: &QuirkPattern| q@) =~= pattern_views(qs@).subrange(
                        0,
                        i + 1,
                    ));
                    i = i + 1;
                }
                assert(pattern_views(qs@).subrange(0, qs@.len() as int) =~= pattern_views(qs@));
            },
            None => {
                assert(out@.map_values(|q: &QuirkPattern| q@) =~= Seq::<PatternView>::empty());
            },
        }
        out
    }

    /// The first quirk of a game whose address pattern matches `address`.
    pub fn check_address(&self, game_id: &str, address: u32) -> (r: Option<&QuirkPattern>)
        ensures
            match r {
                Some(q) => {
                    let qs = quirks_of(self.entries(), game_id@);
                    let k = first_address_quirk(qs, address, qs.len());
                    k is Some && q@ == qs[k->Some_0]
                },
                None => {
                    let qs = quirks_of(self.entries(), game_id@);
                    first_address_quirk(qs, address, qs.len()) is None
                },
            },
    {
        match self.find_game(game_id) {
            Some(g) => {
                let qs = &self.quirks[g].1.quirks;
                let ghost qv = pattern_views(qs@);
                assert(quirks_of(self.entries(), game_id@) == qv);
                let mut i: usize = 0;
                while i < qs.len()
                    invariant
                        i <= qs@.len(),
                        qv == pattern_views(qs@),
                        quirks_of(self.entries(), game_id@) == qv,
                        first_address_quirk(qv, address, i as nat) is None,
                    decreases qs@.len() - i,
                {
                    let q = &qs[i];
                    assert(qv[i as int] == q@);
                    match &q.address_pattern {
                        Some(p) => {
                            if match_address_pattern(p.as_str(), address) {
                                proof {
                                    lemma_address_quirk_prefix(qv, address, (i + 1) as nat);
                                }
                                return Some(q);
                            }
                        },
                        None => {},
                    }
                    i = i + 1;
                }
                None
            },
            None => None,
        }
    }

    /// The first quirk of a game whose instruction pattern occurs in
    /// `instructions`.
    pub fn check_instructions(&self, game_id: &str, instructions: &[String]) -> (r: Option<
        &QuirkPattern,
    >)
        ensures
            match r {
                Some(q) => {
                    let qs = quirks_of(self.entries(), game_id@);
                    let k = first_run_quirk(qs, string_views(instructions@), qs.len());
                    k is Some && q@ == qs[k->Some_0]
                },
                None => {
                    let qs = quirks_of(self.entries(), game_id@);
                    first_run_quirk(qs, string_views(instructions@), qs.len()) is None
                },
            },
    {
        match self.find_game(game_id) {
            Some(g) => {
                let qs = &self.quirks[g].1.quirks;
                let ghost qv = pattern_views(qs@);
                let ghost iv = string_views(instructions@);
                assert(quirks_of(self.entries(), game_id@) == qv);
                let mut i: usize = 0;
                while i < qs.len()
                    invariant
                        i <= qs@.len(),
                        qv == pattern_views(qs@),
                        iv == string_views(instructions@),
                        quirks_of(self.entries(), game_id@) == qv,
                        first_run_quirk(qv, iv, i as nat) is None,
                    decreases qs@.len() - i,
                {
                    let q = &qs[i];
                    assert(qv[i as int] == q@);
                    match &q.instruction_pattern {
                        Some(p) => {
                            if match_instruction_pattern(p, instructions) {
                                proof {
                                    lemma_run_quirk_prefix(qv, iv, (i + 1) as nat);
                                }
                                return Some(q);
                            }
                        },
                        None => {},
                    }
                    i = i + 1;
                }
                None
            },
            None => None,
        }
    }

    /// Applies the workaround of a quirk; every workaround is accepted.
    pub fn apply_workaround(&self, quirk: &QuirkPattern) -> (r: Result<(), crate::error::RecompilerError>)
        ensures
            r is Ok,
    {
        match &quirk.workaround {
            Workaround::SkipOptimization => {},
            Workaround::CodeGenStrategy(_) => {},
            Workaround::Patch(_) => {},
            Workaround::RuntimeHandler(_) => {},
            Workaround::Custom(_) => {},
        }
        Ok(())
    }

    /// Records the quirks of a game under `game_id`, replacing any earlier
    /// entry for it.
    pub fn add_quirk(&mut self, game_id: String, quirk: GameQuirk)
        ensures
            final(self).entries() == (match game_index(old(self).entries(), game_id@) {
                Some(i) => old(self).entries().update(i, (game_id@, quirk@)),
                None => old(self).entries().push((game_id@, quirk@)),
            }),
    {
        let ghost gv = quirk@;
        let ghost key = game_id@;
        match self.find_game(game_id.as_str()) {
            Some(i) => {
                self.quirks.set(i, (game_id, quirk));
                assert(self.entries() =~= old(self).entries().update(i as int, (key, gv)));
            },
            None => {
                self.quirks.push((game_id, quirk));
                assert(self.entries() =~= old(self).entries().push((key, gv)));
            },
        }
    }
}

impl Default for GameQuirkDatabase {
    fn default() -> (db: GameQuirkDatabase)
        ensures
            db.entries() == Seq::<(Seq<char>, GameView)>::empty(),
    {
        GameQuirkDatabase::new()
    }
}

/// The template entry of the built-in table: a jump table reached through
/// `mtctr`/`bctrl` from 0x80000000 up, compiled with its table kept.
fn builtin_template() -> (g: GameQuirk)
    ensures
        g.quirks@.len() == 1,
        g.quirks@[0].pattern_type == QuirkType::JumpTable,
{
    let mut patterns: Vec<String> = Vec::new();
    patterns.push(String::from_str("mtctr"));
    patterns.push(String::from_str("bctrl"));
    let mut quirks: Vec<QuirkPattern> = Vec::new();
    quirks.push(
        QuirkPattern {
            pattern_type: QuirkType::JumpTable,
            description: String::from_str("Unusual jump table format"),
            address_pattern: Some(String::from_str("0x80000000:*")),
            instruction_pattern: Some(patterns),
            workaround: Workaround::CodeGenStrategy(String::from_str("preserve_jump_table")),
        },
    );
    GameQuirk {
        game_id: String::from_str("EXAMPLE"),
        game_name: String::from_str("Example Game"),
        quirks,
    }
}

/// The game a binary comes from; no identification scheme is implemented,
/// so no game is recognized.
pub fn detect_game_id(binary_data: &[u8]) -> (r: Option<String>)
    ensures
        r is None,
{
    None
}

proof fn lemma_game_index_prefix(db: Seq<(Seq<char>, GameView)>, game: Seq<char>, n: nat)
    requires
        n <= db.len(),
    ensures
        game_index(db.subrange(0, n as int), game) is Some ==> game_index(db, game) == game_index(
            db.subrange(0, n as int),
            game,
        ),
        n == db.len() ==> game_index(db.subrange(0, n as int), game) == game_index(db, game),
    decreases db.len() - n,
{
    if n < db.len() {
        lemma_game_index_prefix(db, game, n + 1);
        assert(db.subrange(0, n as int + 1).drop_last() =~= db.subrange(0, n as int));
    } else {
        assert(db.subrange(0, n as int) =~= db);
    }
}

proof fn lemma_address_quirk_prefix(qs: Seq<PatternView>, address: u32, n: nat)
    requires
        n <= qs.len(),
    ensures
        first_address_quirk(qs, address, n) is Some ==> first_address_quirk(qs, address, qs.len())
            == first_address_quirk(qs, address, n),
    decreases qs.len() - n,
{
    if n < qs.len() {
        lemma_address_quirk_prefix(qs, address, n + 1);
    }
}

proof fn lemma_run_quirk_prefix(qs: Seq<PatternView>, instructions: Seq<Seq<char>>, n: nat)
    requires
        n <= qs.len(),
    ensures
        first_run_quirk(qs, instructions, n) is Some ==> first_run_quirk(qs, instructions, qs.len())
            == first_run_quirk(qs, instructions, n),
    decreases qs.len() - n,
{
    if n < qs.len() {
        lemma_run_quirk_prefix(qs, instructions, n + 1);
    }
}

} // verus!
