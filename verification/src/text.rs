//! Text of numbers as the code generator prints them, and the helpers that
//! build output strings.
use vstd::prelude::*;

verus! {

/// ASCII digit for `d < 10`.
pub open spec fn dec_digit(d: nat) -> char {
    ((d + 48) as u8) as char
}

/// Decimal digits of `n`, without leading zeros.
pub open spec fn dec_nat(n: nat) -> Seq<char>
    decreases n,
{
    if n < 10 {
        seq![dec_digit(n)]
    } else {
        dec_nat(n / 10).push(dec_digit(n % 10))
    }
}

/// Decimal text of a signed value: a minus sign before negative values.
pub open spec fn dec_int(i: int) -> Seq<char> {
    if i < 0 {
        seq!['-'] + dec_nat((-i) as nat)
    } else {
        dec_nat(i as nat)
    }
}

/// Uppercase hexadecimal digit for `d < 16`.
pub open spec fn hex_digit(d: nat) -> char {
    if d < 10 {
        ((d + 48) as u8) as char
    } else {
        ((d + 55) as u8) as char
    }
}

/// Uppercase hexadecimal digits of `n`, without leading zeros.
pub open spec fn hex_nat(n: nat) -> Seq<char>
    decreases n,
{
    if n < 16 {
        seq![hex_digit(n)]
    } else {
        hex_nat(n / 16).push(hex_digit(n % 16))
    }
}

/// `s` padded on the left with zeros to at least `width` characters.
pub open spec fn zero_pad(s: Seq<char>, width: nat) -> Seq<char> {
    if s.len() >= width {
        s
    } else {
        Seq::new((width - s.len()) as nat, |i: int| '0') + s
    }
}

/// Uppercase hexadecimal text of `n`, zero-padded to `width` digits.
pub open spec fn hex_text(n: nat, width: nat) -> Seq<char> {
    zero_pad(hex_nat(n), width)
}

/// Four spaces per indentation level.
pub open spec fn indent_text(level: nat) -> Seq<char>
    decreases level,
{
    if level == 0 {
        seq![]
    } else {
        indent_text((level - 1) as nat) + "    "@
    }
}

/// Appends a character (`String::push`).
#[verifier::external_body]
pub(crate) fn push_char(s: &mut String, c: char)
    ensures
        final(s)@ == old(s)@.push(c),
{
    s.push(c)
}

/// The ASCII character of a digit below 16, uppercase past 9.
fn digit_char(d: u64) -> (c: char)
    requires
        d < 16,
    ensures
        c == hex_digit(d as nat),
        d < 10 ==> c == dec_digit(d as nat),
{
    let b: u8 = if d < 10 {
        (d + 48) as u8
    } else {
        (d + 55) as u8
    };
    b as char
}

/// Appends decimal text of an unsigned value.
pub fn append_dec(s: &mut String, n: u64)
    ensures
        final(s)@ == old(s)@ + dec_nat(n as nat),
    decreases n,
{
    if n < 10 {
        push_char(s, digit_char(n));
        assert(old(s)@.push(dec_digit(n as nat)) =~= old(s)@ + seq![dec_digit(n as nat)]);
    } else {
        append_dec(s, n / 10);
        push_char(s, digit_char(n % 10));
        assert(old(s)@ + dec_nat((n / 10) as nat) + seq![dec_digit((n % 10) as nat)] =~= old(s)@
            + dec_nat((n / 10) as nat).push(dec_digit((n % 10) as nat)));
    }
}

/// Appends decimal text of a signed value.
pub fn append_dec_signed(s: &mut String, n: i64)
    ensures
        final(s)@ == old(s)@ + dec_int(n as int),
{
    if n < 0 {
        push_char(s, '-');
        let magnitude: u64 = (-(n + 1)) as u64 + 1;
        append_dec(s, magnitude);
        assert(old(s)@.push('-') + dec_nat(magnitude as nat) =~= old(s)@ + (seq!['-'] + dec_nat(
            magnitude as nat,
        )));
    } else {
        append_dec(s, n as u64);
    }
}

/// Appends the uppercase hexadecimal digits of `n`.
fn append_hex_digits(s: &mut String, n: u32)
    ensures
        final(s)@ == old(s)@ + hex_nat(n as nat),
    decreases n,
{
    if n < 16 {
        push_char(s, digit_char(n as u64));
        assert(old(s)@.push(hex_digit(n as nat)) =~= old(s)@ + seq![hex_digit(n as nat)]);
    } else {
        append_hex_digits(s, n / 16);
        push_char(s, digit_char((n % 16) as u64));
        assert(old(s)@ + hex_nat((n / 16) as nat) + seq![hex_digit((n % 16) as nat)] =~= old(s)@
            + hex_nat((n / 16) as nat).push(hex_digit((n % 16) as nat)));
    }
}

/// How many hexadecimal digits `n` has.
fn hex_len(n: u32) -> (k: usize)
    ensures
        k == hex_nat(n as nat).len(),
        1 <= k <= n + 1,
    decreases n,
{
    if n < 16 {
        1
    } else {
        hex_len(n / 16) + 1
    }
}

/// Appends zero-padded uppercase hexadecimal text.
pub fn append_hex(s: &mut String, n: u32, width: usize)
    ensures
        final(s)@ == old(s)@ + hex_text(n as nat, width as nat),
{
    let len = hex_len(n);
    let zeros: usize = if width > len {
        width - len
    } else {
        0
    };
    let ghost start = s@;
    let mut i: usize = 0;
    while i < zeros
        invariant
            i <= zeros,
            s@ == start + Seq::new(i as nat, |k: int| '0'),
        decreases zeros - i,
    {
        push_char(s, '0');
        i = i + 1;
        assert(s@ =~= start + Seq::new(i as nat, |k: int| '0'));
    }
    let ghost padded = s@;
    append_hex_digits(s, n);
    assert(s@ =~= start + hex_text(n as nat, width as nat)) by {
        if width > len {
            assert(hex_text(n as nat, width as nat) =~= Seq::new(zeros as nat, |k: int| '0')
                + hex_nat(n as nat));
        } else {
            assert(Seq::new(0nat, |k: int| '0') =~= Seq::<char>::empty());
            assert(hex_text(n as nat, width as nat) == hex_nat(n as nat));
        }
    }
}

/// The indentation for `level`.
pub fn indent(level: usize) -> (s: String)
    ensures
        s@ == indent_text(level as nat),
{
    let mut s = String::new();
    let mut i: usize = 0;
    while i < level
        invariant
            i <= level,
            s@ == indent_text(i as nat),
        decreases level - i,
    {
        s.append("    ");
        i = i + 1;
    }
    s
}

/// Appends the indentation for `level`.
pub fn append_indent(s: &mut String, level: usize)
    ensures
        final(s)@ == old(s)@ + indent_text(level as nat),
{
    let t = indent(level);
    s.append(t.as_str());
}

} // verus!
