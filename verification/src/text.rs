//! Text helpers shared by the library: decimal rendering of integers and
//! UTF-8 encoding of characters, each stated over a mathematical model.

use vstd::prelude::*;
use vstd::utf8::*;

verus! {

/// The ASCII digit for a value below ten.
pub open spec fn digit_char(d: nat) -> char
    recommends
        d < 10,
{
    ((d + 48) as u8) as char
}

/// The shortest decimal rendering of `n` (no sign, no leading zeros), as `Display` prints it.
pub open spec fn decimal(n: nat) -> Seq<char>
    decreases n,
{
    if n < 10 {
        seq![digit_char(n)]
    } else {
        decimal(n / 10).push(digit_char(n % 10))
    }
}

/// The decimal rendering as bytes.
pub open spec fn decimal_bytes(n: nat) -> Seq<u8> {
    decimal(n).map_values(|c: char| c as u8)
}

/// Appends one character to a string.
#[verifier::external_body]
pub(crate) fn push_char(s: &mut String, c: char)
    ensures
        final(s)@ == old(s)@.push(c),
{
    s.push(c);
}

/// Renders `n` in decimal into a new vector of characters.
pub fn decimal_chars(n: u64) -> (out: Vec<char>)
    ensures
        out@ == decimal(n as nat),
    decreases n,
{
    if n < 10 {
        let mut v: Vec<char> = Vec::new();
        v.push(((n as u8) + 48) as char);
        v
    } else {
        let mut v = decimal_chars(n / 10);
        let d: u8 = (n % 10) as u8;
        v.push((d + 48) as char);
        v
    }
}

/// Renders a 128-bit `n` in decimal into a new vector of characters.
pub fn decimal_chars_wide(n: u128) -> (out: Vec<char>)
    ensures
        out@ == decimal(n as nat),
    decreases n,
{
    if n < 10 {
        let mut v: Vec<char> = Vec::new();
        v.push(((n as u8) + 48) as char);
        v
    } else {
        let mut v = decimal_chars_wide(n / 10);
        let d: u8 = (n % 10) as u8;
        v.push((d + 48) as char);
        v
    }
}

/// Appends the decimal rendering of a 128-bit `n` to `s`.
pub fn push_decimal_wide(s: &mut String, n: u128)
    ensures
        final(s)@ == old(s)@ + decimal(n as nat),
{
    let digits = decimal_chars_wide(n);
    let mut i: usize = 0;
    while i < digits.len()
        invariant
            i <= digits@.len(),
            digits@ == decimal(n as nat),
            s@ == old(s)@ + digits@.subrange(0, i as int),
        decreases digits@.len() - i,
    {
        push_char(s, digits[i]);
        assert(digits@.subrange(0, i as int + 1) == digits@.subrange(0, i as int).push(digits@[i as int]));
        i = i + 1;
    }
    assert(digits@.subrange(0, digits@.len() as int) == digits@);
}

/// Appends the decimal rendering of `n` to `s`.
pub fn push_decimal(s: &mut String, n: u64)
    ensures
        final(s)@ == old(s)@ + decimal(n as nat),
{
    let digits = decimal_chars(n);
    let mut i: usize = 0;
    while i < digits.len()
        invariant
            i <= digits@.len(),
            digits@ == decimal(n as nat),
            s@ == old(s)@ + digits@.subrange(0, i as int),
        decreases digits@.len() - i,
    {
        push_char(s, digits[i]);
        assert(digits@.subrange(0, i as int + 1) == digits@.subrange(0, i as int).push(digits@[i as int]));
        i = i + 1;
    }
    assert(digits@.subrange(0, digits@.len() as int) == digits@);
}

/// Appends the decimal rendering of `n`, as ASCII bytes, to `v`.
pub fn push_decimal_bytes(v: &mut Vec<u8>, n: u64)
    ensures
        final(v)@ == old(v)@ + decimal_bytes(n as nat),
{
    let digits = decimal_chars(n);
    let ghost d = decimal(n as nat);
    let mut i: usize = 0;
    while i < digits.len()
        invariant
            i <= digits@.len(),
            digits@ == d,
            d == decimal(n as nat),
            v@ == old(v)@ + d.subrange(0, i as int).map_values(|c: char| c as u8),
        decreases digits@.len() - i,
    {
        let c = digits[i];
        v.push(c as u8);
        assert(d.subrange(0, i as int + 1).map_values(|c: char| c as u8)
            == d.subrange(0, i as int).map_values(|c: char| c as u8).push(c as u8));
        i = i + 1;
    }
    assert(d.subrange(0, d.len() as int) == d);
}

/// The UTF-8 bytes of a single character.
pub open spec fn char_utf8(c: char) -> Seq<u8> {
    encode_utf8(seq![c])
}

/// Encodes one character as UTF-8, as `char::encode_utf8` does.
pub fn encode_char_utf8(c: char) -> (out: Vec<u8>)
    ensures
        out@ == char_utf8(c),
{
    let v: u32 = c as u32;
    proof {
        broadcast use char_is_scalar;
        reveal_with_fuel(encode_utf8, 2);
        assert(seq![c].drop_first() =~= Seq::<char>::empty());
        assert(encode_utf8(seq![c].drop_first()) =~= Seq::<u8>::empty());
        assert(char_utf8(c) =~= encode_scalar(v));
    }
    let mut out: Vec<u8> = Vec::new();
    if v <= 0x7F {
        out.push((v & 0x7F) as u8);
    } else if v <= 0x7FF {
        out.push(0xC0 | ((v >> 6) & 0x1F) as u8);
        out.push(0x80 | (v & 0x3F) as u8);
    } else if v <= 0xFFFF {
        out.push(0xE0 | ((v >> 12) & 0x0F) as u8);
        out.push(0x80 | ((v >> 6) & 0x3F) as u8);
        out.push(0x80 | (v & 0x3F) as u8);
    } else {
        out.push(0xF0 | ((v >> 18) & 0x7) as u8);
        out.push(0x80 | ((v >> 12) & 0x3F) as u8);
        out.push(0x80 | ((v >> 6) & 0x3F) as u8);
        out.push(0x80 | (v & 0x3F) as u8);
    }
    assert(out@ =~= encode_scalar(v));
    out
}

} // verus!
