//! Text as character sequences: trimming, splitting, searching and number
//! parsing, stated over `Seq<char>`.
use vstd::prelude::*;
use crate::text::push_char;

verus! {

/// Whether `c` has the Unicode `White_Space` property (`char::is_whitespace`):
/// tab through carriage return, space, next line, no-break space, ogham space
/// mark, the spaces from en quad to hair space, the line and paragraph
/// separators, narrow no-break space, medium mathematical space and
/// ideographic space.
pub open spec fn whitespace(c: char) -> bool {
    let u = c as u32;
    ||| 0x09 <= u <= 0x0D
    ||| u == 0x20
    ||| u == 0x85
    ||| u == 0xA0
    ||| u == 0x1680
    ||| 0x2000 <= u <= 0x200A
    ||| u == 0x2028
    ||| u == 0x2029
    ||| u == 0x202F
    ||| u == 0x205F
    ||| u == 0x3000
}

/// Whether `c` is whitespace.
pub(crate) fn is_whitespace(c: char) -> (b: bool)
    ensures
        b == whitespace(c),
{
    let u = c as u32;
    (0x09 <= u && u <= 0x0D) || u == 0x20 || u == 0x85 || u == 0xA0 || u == 0x1680 || (0x2000
        <= u && u <= 0x200A) || u == 0x2028 || u == 0x2029 || u == 0x202F || u == 0x205F || u
        == 0x3000
}

/// `s` without leading whitespace.
pub open spec fn trim_start(s: Seq<char>) -> Seq<char>
    decreases s.len(),
{
    if s.len() > 0 && whitespace(s[0]) {
        trim_start(s.drop_first())
    } else {
        s
    }
}

/// `s` without trailing whitespace.
pub open spec fn trim_end(s: Seq<char>) -> Seq<char>
    decreases s.len(),
{
    if s.len() > 0 && whitespace(s.last()) {
        trim_end(s.drop_last())
    } else {
        s
    }
}

/// `s` without leading and trailing whitespace (`str::trim`).
pub open spec fn trim(s: Seq<char>) -> Seq<char> {
    trim_end(trim_start(s))
}

/// `s` without leading copies of `c`.
pub open spec fn trim_start_char(s: Seq<char>, c: char) -> Seq<char>
    decreases s.len(),
{
    if s.len() > 0 && s[0] == c {
        trim_start_char(s.drop_first(), c)
    } else {
        s
    }
}

/// `s` without trailing copies of `c`.
pub open spec fn trim_end_char(s: Seq<char>, c: char) -> Seq<char>
    decreases s.len(),
{
    if s.len() > 0 && s.last() == c {
        trim_end_char(s.drop_last(), c)
    } else {
        s
    }
}

/// `s` without leading and trailing copies of `c` (`str::trim_matches`).
pub open spec fn trim_char(s: Seq<char>, c: char) -> Seq<char> {
    trim_end_char(trim_start_char(s, c), c)
}

/// Whether `s` begins with `p`.
pub open spec fn starts_with(s: Seq<char>, p: Seq<char>) -> bool {
    s.len() >= p.len() && s.subrange(0, p.len() as int) == p
}

/// Whether `s` ends with `p`.
pub open spec fn ends_with(s: Seq<char>, p: Seq<char>) -> bool {
    s.len() >= p.len() && s.subrange(s.len() - p.len(), s.len() as int) == p
}

/// `s` with `p` removed from its end as often as it is there
/// (`str::trim_end_matches`).
pub open spec fn strip_all_end(s: Seq<char>, p: Seq<char>) -> Seq<char>
    decreases s.len(),
{
    if p.len() > 0 && ends_with(s, p) {
        strip_all_end(s.subrange(0, s.len() - p.len()), p)
    } else {
        s
    }
}

/// `s` with `p` removed from its front as often as it is there
/// (`str::trim_start_matches`).
pub open spec fn strip_all(s: Seq<char>, p: Seq<char>) -> Seq<char>
    decreases s.len(),
{
    if p.len() > 0 && starts_with(s, p) {
        strip_all(s.subrange(p.len() as int, s.len() as int), p)
    } else {
        s
    }
}

/// The pieces of `s` between occurrences of `c` (`str::split`): one more
/// piece than there are occurrences.
pub open spec fn split(s: Seq<char>, c: char) -> Seq<Seq<char>>
    decreases s.len(),
{
    if s.len() == 0 {
        seq![seq![]]
    } else {
        let p = split(s.drop_last(), c);
        if s.last() == c {
            p.push(seq![])
        } else {
            p.update(p.len() - 1, p.last().push(s.last()))
        }
    }
}

/// Whether `c` occurs in `s`.
pub open spec fn has_char(s: Seq<char>, c: char) -> bool {
    exists|i: int| 0 <= i < s.len() && s[i] == c
}

/// Index of the first `c` in `s`.
#[verifier::opaque]
pub open spec fn find_char(s: Seq<char>, c: char) -> Option<int> {
    if has_char(s, c) {
        Some(choose|i: int| 0 <= i < s.len() && s[i] == c && forall|j: int| 0 <= j < i ==> s[j] != c)
    } else {
        None
    }
}

/// Whether `p` occurs in `s`.
pub open spec fn has_seq(s: Seq<char>, p: Seq<char>) -> bool {
    exists|i: int| 0 <= i && i + p.len() <= s.len() && #[trigger] s.subrange(i, i + p.len()) == p
}

/// Value of a digit in `radix` (at most 16), if `c` is one.
pub open spec fn digit_value(c: char, radix: u32) -> Option<nat> {
    let v: int = if '0' <= c && c <= '9' {
        c as int - '0' as int
    } else if 'a' <= c && c <= 'z' {
        c as int - 'a' as int + 10
    } else if 'A' <= c && c <= 'Z' {
        c as int - 'A' as int + 10
    } else {
        radix as int
    };
    if v < radix {
        Some(v as nat)
    } else {
        None
    }
}

/// Value of a digit string in `radix`, if every character is a digit.
pub open spec fn digits_value(s: Seq<char>, radix: u32) -> Option<nat>
    decreases s.len(),
{
    if s.len() == 0 {
        Some(0)
    } else {
        match (digits_value(s.drop_last(), radix), digit_value(s.last(), radix)) {
            (Some(a), Some(d)) => Some(a * (radix as nat) + d),
            _ => None,
        }
    }
}

/// `u32::from_str_radix`: an optional plus sign, then at least one digit,
/// with a value that fits.
pub open spec fn parse_u32_radix(s: Seq<char>, radix: u32) -> Option<u32> {
    let body = if s.len() > 0 && s[0] == '+' {
        s.drop_first()
    } else {
        s
    };
    if body.len() == 0 {
        None
    } else {
        match digits_value(body, radix) {
            Some(v) => if v <= u32::MAX {
                Some(v as u32)
            } else {
                None
            },
            None => None,
        }
    }
}

/// The characters of `s`.
pub fn chars_of(s: &str) -> (v: Vec<char>)
    ensures
        v@ == s@,
{
    let n = s.unicode_len();
    let mut v: Vec<char> = Vec::new();
    let mut i: usize = 0;
    while i < n
        invariant
            n == s@.len(),
            i <= n,
            v@ == s@.subrange(0, i as int),
        decreases n - i,
    {
        v.push(s.get_char(i));
        i = i + 1;
    }
    v
}

/// A string of the characters of `v`.
pub fn string_of(v: &[char]) -> (s: String)
    ensures
        s@ == v@,
{
    let mut s = String::new();
    let mut i: usize = 0;
    while i < v.len()
        invariant
            i <= v@.len(),
            s@ == v@.subrange(0, i as int),
        decreases v@.len() - i,
    {
        push_char(&mut s, v[i]);
        i = i + 1;
    }
    s
}

/// The characters of `v` from `lo` to `hi`.
pub fn slice_chars(v: &[char], lo: usize, hi: usize) -> (r: Vec<char>)
    requires
        lo <= hi <= v@.len(),
    ensures
        r@ == v@.subrange(lo as int, hi as int),
{
    let mut r: Vec<char> = Vec::new();
    let mut i: usize = lo;
    while i < hi
        invariant
            lo <= i <= hi,
            hi <= v@.len(),
            r@ == v@.subrange(lo as int, i as int),
        decreases hi - i,
    {
        r.push(v[i]);
        i = i + 1;
    }
    r
}

proof fn lemma_trim_start_skip(s: Seq<char>, i: int)
    requires
        0 <= i <= s.len(),
        forall|j: int| 0 <= j < i ==> whitespace(s[j]),
    ensures
        trim_start(s) == trim_start(s.subrange(i, s.len() as int)),
    decreases i,
{
    if i > 0 {
        lemma_trim_start_skip(s.drop_first(), i - 1);
        assert(s.drop_first().subrange(i - 1, s.len() - 1) =~= s.subrange(i, s.len() as int));
    } else {
        assert(s.subrange(0, s.len() as int) =~= s);
    }
}

proof fn lemma_trim_end_skip(s: Seq<char>, i: int)
    requires
        0 <= i <= s.len(),
        forall|j: int| i <= j < s.len() ==> whitespace(s[j]),
    ensures
        trim_end(s) == trim_end(s.subrange(0, i)),
    decreases s.len() - i,
{
    if i < s.len() {
        lemma_trim_end_skip(s.drop_last(), i);
        assert(s.drop_last().subrange(0, i) =~= s.subrange(0, i));
    } else {
        assert(s.subrange(0, i) =~= s);
    }
}

/// `v` without leading and trailing whitespace.
pub fn trim_chars(v: &[char]) -> (r: Vec<char>)
    ensures
        r@ == trim(v@),
{
    let n = v.len();
    let mut lo: usize = 0;
    while lo < n && is_whitespace(v[lo])
        invariant
            n == v@.len(),
            lo <= n,
            forall|j: int| 0 <= j < lo ==> whitespace(v@[j]),
        decreases n - lo,
    {
        lo = lo + 1;
    }
    let ghost t = v@.subrange(lo as int, n as int);
    proof {
        lemma_trim_start_skip(v@, lo as int);
        if lo < n {
            assert(t[0] == v@[lo as int]);
        }
    }
    assert(trim_start(v@) == t);
    let mut hi: usize = n;
    while hi > lo && is_whitespace(v[hi - 1])
        invariant
            lo <= hi <= n,
            n == v@.len(),
            forall|j: int| hi <= j < n ==> whitespace(v@[j]),
        decreases hi,
    {
        hi = hi - 1;
    }
    proof {
        assert forall|j: int| hi - lo <= j < t.len() implies whitespace(t[j]) by {
            assert(t[j] == v@[lo + j]);
        }
        lemma_trim_end_skip(t, hi - lo);
        assert(t.subrange(0, hi - lo) =~= v@.subrange(lo as int, hi as int));
        if hi > lo {
            assert(t.subrange(0, hi - lo).last() == v@[hi - 1]);
        }
    }
    slice_chars(v, lo, hi)
}

proof fn lemma_trim_start_char_skip(s: Seq<char>, c: char, i: int)
    requires
        0 <= i <= s.len(),
        forall|j: int| 0 <= j < i ==> s[j] == c,
    ensures
        trim_start_char(s, c) == trim_start_char(s.subrange(i, s.len() as int), c),
    decreases i,
{
    if i > 0 {
        lemma_trim_start_char_skip(s.drop_first(), c, i - 1);
        assert(s.drop_first().subrange(i - 1, s.len() - 1) =~= s.subrange(i, s.len() as int));
    } else {
        assert(s.subrange(0, s.len() as int) =~= s);
    }
}

proof fn lemma_trim_end_char_skip(s: Seq<char>, c: char, i: int)
    requires
        0 <= i <= s.len(),
        forall|j: int| i <= j < s.len() ==> s[j] == c,
    ensures
        trim_end_char(s, c) == trim_end_char(s.subrange(0, i), c),
    decreases s.len() - i,
{
    if i < s.len() {
        lemma_trim_end_char_skip(s.drop_last(), c, i);
        assert(s.drop_last().subrange(0, i) =~= s.subrange(0, i));
    } else {
        assert(s.subrange(0, i) =~= s);
    }
}

/// `v` without leading and trailing copies of `c`.
pub fn trim_matches_char(v: &[char], c: char) -> (r: Vec<char>)
    ensures
        r@ == trim_char(v@, c),
{
    let n = v.len();
    let mut lo: usize = 0;
    while lo < n && v[lo] == c
        invariant
            n == v@.len(),
            lo <= n,
            forall|j: int| 0 <= j < lo ==> v@[j] == c,
        decreases n - lo,
    {
        lo = lo + 1;
    }
    let ghost t = v@.subrange(lo as int, n as int);
    proof {
        lemma_trim_start_char_skip(v@, c, lo as int);
        if lo < n {
            assert(t[0] == v@[lo as int]);
        }
    }
    assert(trim_start_char(v@, c) == t);
    let mut hi: usize = n;
    while hi > lo && v[hi - 1] == c
        invariant
            lo <= hi <= n,
            n == v@.len(),
            forall|j: int| hi <= j < n ==> v@[j] == c,
        decreases hi,
    {
        hi = hi - 1;
    }
    proof {
        assert forall|j: int| hi - lo <= j < t.len() implies t[j] == c by {
            assert(t[j] == v@[lo + j]);
        }
        lemma_trim_end_char_skip(t, c, hi - lo);
        assert(t.subrange(0, hi - lo) =~= v@.subrange(lo as int, hi as int));
        if hi > lo {
            assert(t.subrange(0, hi - lo).last() == v@[hi - 1]);
        }
    }
    slice_chars(v, lo, hi)
}

/// Whether `v` begins with `p`.
pub fn starts_with_chars(v: &[char], p: &[char]) -> (b: bool)
    ensures
        b == starts_with(v@, p@),
{
    if v.len() < p.len() {
        return false;
    }
    let mut i: usize = 0;
    while i < p.len()
        invariant
            i <= p@.len(),
            p@.len() <= v@.len(),
            forall|k: int| 0 <= k < i ==> v@[k] == p@[k],
        decreases p@.len() - i,
    {
        if v[i] != p[i] {
            assert(v@.subrange(0, p@.len() as int)[i as int] != p@[i as int]);
            return false;
        }
        i = i + 1;
    }
    assert(v@.subrange(0, p@.len() as int) =~= p@);
    true
}

/// Whether `v` equals `p`.
pub fn eq_chars(v: &[char], p: &[char]) -> (b: bool)
    ensures
        b == (v@ == p@),
{
    if v.len() != p.len() {
        return false;
    }
    let r = starts_with_chars(v, p);
    proof {
        if r {
            assert(v@ =~= v@.subrange(0, p@.len() as int));
        } else {
            assert(v@.subrange(0, p@.len() as int) =~= v@);
        }
    }
    r
}

/// Index of the first `c` in `v`.
pub fn find_char_in(v: &[char], c: char) -> (r: Option<usize>)
    ensures
        match r {
            Some(i) => find_char(v@, c) == Some(i as int) && i < v@.len() && v@[i as int] == c,
            None => find_char(v@, c) == None::<int> && !has_char(v@, c),
        },
{
    reveal(find_char);
    let mut i: usize = 0;
    while i < v.len()
        invariant
            i <= v@.len(),
            forall|j: int| 0 <= j < i ==> v@[j] != c,
        decreases v@.len() - i,
    {
        if v[i] == c {
            reveal(find_char);
            assert(has_char(v@, c));
            let ghost k = choose|k: int| 0 <= k < v@.len() && v@[k] == c && forall|j: int| 0 <= j < k ==> v@[j] != c;
            assert(k == i as int) by {
                if k < i {
                } else if k > i {
                    assert(v@[i as int] != c);
                }
            }
            return Some(i);
        }
        i = i + 1;
    }
    None
}

/// Whether `c` occurs in `v`.
pub fn contains_char(v: &[char], c: char) -> (b: bool)
    ensures
        b == has_char(v@, c),
{
    match find_char_in(v, c) {
        Some(_) => true,
        None => false,
    }
}

/// Whether `p` occurs in `v`.
pub fn contains_chars(v: &[char], p: &[char]) -> (b: bool)
    ensures
        b == has_seq(v@, p@),
{
    let n = v.len();
    let m = p.len();
    if m > n {
        return false;
    }
    let mut i: usize = 0;
    while i <= n - m
        invariant
            m <= n,
            n == v@.len(),
            m == p@.len(),
            i <= n - m + 1,
            forall|k: int| 0 <= k < i ==> #[trigger] v@.subrange(k, k + m) != p@,
        decreases n - m + 1 - i,
    {
        let mut j: usize = 0;
        let mut same = true;
        while j < m
            invariant
                j <= m,
                i + m <= n,
                n == v@.len(),
                m == p@.len(),
                same <==> forall|k: int| 0 <= k < j ==> v@[i + k] == p@[k],
            decreases m - j,
        {
            if v[i + j] != p[j] {
                same = false;
            }
            j = j + 1;
        }
        if same {
            assert(v@.subrange(i as int, i + m) =~= p@);
            return true;
        }
        assert(v@.subrange(i as int, i + m) != p@) by {
            let k = choose|k: int| 0 <= k < m && v@[i + k] != p@[k];
            assert(v@.subrange(i as int, i + m)[k] != p@[k]);
        }
        i = i + 1;
    }
    assert forall|k: int| 0 <= k && k + p@.len() <= v@.len() implies #[trigger] v@.subrange(k, k + p@.len()) != p@ by {
        assert(k < i);
    }
    false
}

/// The pieces of `v` between occurrences of `c`.
pub fn split_chars(v: &[char], c: char) -> (r: Vec<Vec<char>>)
    ensures
        r@.map_values(|p: Vec<char>| p@) == split(v@, c),
{
    let mut pieces: Vec<Vec<char>> = Vec::new();
    let mut cur: Vec<char> = Vec::new();
    let mut i: usize = 0;
    assert(split(v@.subrange(0, 0), c) =~= seq![seq![]]);
    while i < v.len()
        invariant
            i <= v@.len(),
            pieces@.map_values(|p: Vec<char>| p@).push(cur@) == split(v@.subrange(0, i as int), c),
        decreases v@.len() - i,
    {
        let ghost before = pieces@.map_values(|p: Vec<char>| p@).push(cur@);
        assert(v@.subrange(0, i + 1).drop_last() =~= v@.subrange(0, i as int));
        if v[i] == c {
            let done = cur;
            pieces.push(done);
            cur = Vec::new();
            assert(pieces@.map_values(|p: Vec<char>| p@).push(cur@) =~= before.push(seq![]));
        } else {
            cur.push(v[i]);
            assert(pieces@.map_values(|p: Vec<char>| p@).push(cur@) =~= before.update(
                before.len() - 1,
                before.last().push(v@[i as int]),
            ));
        }
        i = i + 1;
    }
    pieces.push(cur);
    assert(v@.subrange(0, v@.len() as int) =~= v@);
    pieces
}

/// `v` with `p` removed from its front as often as it is there.
pub fn strip_all_chars(v: &[char], p: &[char]) -> (r: Vec<char>)
    ensures
        r@ == strip_all(v@, p@),
{
    let mut cur: Vec<char> = slice_chars(v, 0, v.len());
    assert(cur@ =~= v@);
    if p.len() == 0 {
        return cur;
    }
    while starts_with_chars(cur.as_slice(), p)
        invariant
            p@.len() > 0,
            strip_all(cur@, p@) == strip_all(v@, p@),
        decreases cur@.len(),
    {
        let next = slice_chars(cur.as_slice(), p.len(), cur.len());
        cur = next;
    }
    cur
}

/// Whether `v` ends with `p`.
pub fn ends_with_chars(v: &[char], p: &[char]) -> (b: bool)
    ensures
        b == ends_with(v@, p@),
{
    if v.len() < p.len() {
        return false;
    }
    let off = v.len() - p.len();
    let mut i: usize = 0;
    while i < p.len()
        invariant
            i <= p@.len(),
            off + p@.len() == v@.len(),
            v@.len() == v.len(),
            forall|k: int| 0 <= k < i ==> v@[off + k] == p@[k],
        decreases p@.len() - i,
    {
        if v[off + i] != p[i] {
            assert(v@.subrange(off as int, v@.len() as int)[i as int] != p@[i as int]);
            return false;
        }
        i = i + 1;
    }
    assert(v@.subrange(off as int, v@.len() as int) =~= p@);
    true
}

/// `v` with `p` removed from its end as often as it is there.
pub fn strip_all_end_chars(v: &[char], p: &[char]) -> (r: Vec<char>)
    ensures
        r@ == strip_all_end(v@, p@),
{
    let mut cur: Vec<char> = slice_chars(v, 0, v.len());
    assert(cur@ =~= v@);
    if p.len() == 0 {
        return cur;
    }
    while ends_with_chars(cur.as_slice(), p)
        invariant
            p@.len() > 0,
            strip_all_end(cur@, p@) == strip_all_end(v@, p@),
        decreases cur@.len(),
    {
        let next = slice_chars(cur.as_slice(), 0, cur.len() - p.len());
        cur = next;
    }
    cur
}

/// Value of a digit in `radix`.
fn digit_of(c: char, radix: u32) -> (r: Option<u32>)
    requires
        radix <= 36,
    ensures
        match r {
            Some(d) => digit_value(c, radix) == Some(d as nat),
            None => digit_value(c, radix) == None::<nat>,
        },
{
    let v: u32 = if '0' <= c && c <= '9' {
        (c as u32) - ('0' as u32)
    } else if 'a' <= c && c <= 'z' {
        (c as u32) - ('a' as u32) + 10
    } else if 'A' <= c && c <= 'Z' {
        (c as u32) - ('A' as u32) + 10
    } else {
        radix
    };
    if v < radix {
        Some(v)
    } else {
        None
    }
}

proof fn lemma_digits_grow(s: Seq<char>, radix: u32, n: nat)
    requires
        2 <= radix <= 36,
        n <= s.len(),
        digits_value(s.subrange(0, n as int), radix) is Some,
        digits_value(s, radix) is Some,
    ensures
        digits_value(s.subrange(0, n as int), radix)->Some_0 <= digits_value(s, radix)->Some_0,
    decreases s.len() - n,
{
    if n < s.len() {
        let t = s.subrange(0, n as int + 1);
        assert(t.drop_last() =~= s.subrange(0, n as int));
        lemma_digits_some_prefix(s, radix, n + 1);
        lemma_digits_grow(s, radix, n + 1);
        let a = digits_value(s.subrange(0, n as int), radix)->Some_0;
        assert(a * radix >= a) by (nonlinear_arith)
            requires
                radix >= 2,
        ;
    } else {
        assert(s.subrange(0, n as int) =~= s);
    }
}

proof fn lemma_digits_some_prefix(s: Seq<char>, radix: u32, n: nat)
    requires
        n <= s.len(),
        digits_value(s, radix) is Some,
    ensures
        digits_value(s.subrange(0, n as int), radix) is Some,
    decreases s.len() - n,
{
    if n < s.len() {
        lemma_digits_some_prefix(s, radix, n + 1);
        assert(s.subrange(0, n as int + 1).drop_last() =~= s.subrange(0, n as int));
    } else {
        assert(s.subrange(0, n as int) =~= s);
    }
}

/// `u32::from_str_radix` for radix 10 or 16.
pub fn parse_u32(v: &[char], radix: u32) -> (r: Option<u32>)
    requires
        radix == 10 || radix == 16,
    ensures
        r == parse_u32_radix(v@, radix),
{
    let start: usize = if v.len() > 0 && v[0] == '+' {
        1
    } else {
        0
    };
    let ghost body = if v@.len() > 0 && v@[0] == '+' {
        v@.drop_first()
    } else {
        v@
    };
    assert(body =~= v@.subrange(start as int, v@.len() as int));
    if start >= v.len() {
        return None;
    }
    let mut acc: u64 = 0;
    let mut i: usize = start;
    assert(body.subrange(0, 0) =~= Seq::<char>::empty());
    while i < v.len()
        invariant
            start <= i <= v@.len(),
            radix == 10 || radix == 16,
            body == v@.subrange(start as int, v@.len() as int),
            body == (if v@.len() > 0 && v@[0] == '+' {
                v@.drop_first()
            } else {
                v@
            }),
            digits_value(body.subrange(0, i - start), radix) == Some(acc as nat),
            acc <= u32::MAX,
        decreases v@.len() - i,
    {
        let ghost pre = body.subrange(0, i - start);
        assert(body.subrange(0, i - start + 1).drop_last() =~= pre);
        assert(body.subrange(0, i - start + 1).last() == v@[i as int]);
        match digit_of(v[i], radix) {
            Some(d) => {
                assert(acc * (radix as u64) <= 0xFFFF_FFFFu64 * 16) by (nonlinear_arith)
                    requires
                        acc <= 0xFFFF_FFFFu64,
                        radix <= 16,
                ;
                let next = acc * (radix as u64) + (d as u64);
                assert(digits_value(body.subrange(0, i - start + 1), radix) == Some(next as nat));
                if next > 0xFFFF_FFFF {
                    proof {
                        let t = body.subrange(0, i - start + 1);
                        if digits_value(body, radix) is Some {
                            lemma_digits_some_prefix(body, radix, (i - start + 1) as nat);
                            lemma_digits_grow(body, radix, (i - start + 1) as nat);
                            assert(digits_value(body, radix)->Some_0 > u32::MAX);
                        }
                        assert(body.len() > 0);
                        assert(parse_u32_radix(v@, radix) == None::<u32>);
                    }
                    return None;
                }
                acc = next;
            },
            None => {
                assert(digits_value(body.subrange(0, i - start + 1), radix) == None::<nat>);
                proof {
                    if digits_value(body, radix) is Some {
                        lemma_digits_some_prefix(body, radix, (i - start + 1) as nat);
                    }
                    assert(digits_value(body, radix) is None);
                    assert(parse_u32_radix(v@, radix) == None::<u32>);
                }
                return None;
            },
        }
        i = i + 1;
    }
    assert(body.subrange(0, v@.len() - start) =~= body);
    Some(acc as u32)
}

} // verus!
