//! Scanning of character sequences: splitting at separators, trimming
//! Unicode whitespace and parsing unsigned decimal numbers, each with the
//! meaning the standard library gives it (`str::split`, `str::trim`,
//! `u32::from_str`).

use vstd::prelude::*;

verus! {

/// Unicode `White_Space`, which `char::is_whitespace` tests.
pub open spec fn is_ws(c: char) -> bool {
    ||| ('\u{9}' <= c <= '\u{d}')
    ||| c == ' '
    ||| c == '\u{85}'
    ||| c == '\u{a0}'
    ||| c == '\u{1680}'
    ||| ('\u{2000}' <= c <= '\u{200a}')
    ||| c == '\u{2028}'
    ||| c == '\u{2029}'
    ||| c == '\u{202f}'
    ||| c == '\u{205f}'
    ||| c == '\u{3000}'
}

/// `s` without its leading whitespace.
pub open spec fn trim_start(s: Seq<char>) -> Seq<char>
    decreases s.len(),
{
    if s.len() > 0 && is_ws(s[0]) {
        trim_start(s.drop_first())
    } else {
        s
    }
}

/// `s` without its trailing whitespace.
pub open spec fn trim_end(s: Seq<char>) -> Seq<char>
    decreases s.len(),
{
    if s.len() > 0 && is_ws(s.last()) {
        trim_end(s.drop_last())
    } else {
        s
    }
}

/// `s` without leading and trailing whitespace (`str::trim`).
pub open spec fn trim(s: Seq<char>) -> Seq<char> {
    trim_end(trim_start(s))
}

/// `s` with every trailing `"px"` removed (`str::trim_end_matches("px")`).
pub open spec fn strip_px(s: Seq<char>) -> Seq<char>
    decreases s.len(),
{
    if s.len() >= 2 && s[s.len() - 2] == 'p' && s[s.len() - 1] == 'x' {
        strip_px(s.subrange(0, s.len() - 2))
    } else {
        s
    }
}

/// Whether `c` is an ASCII decimal digit.
pub open spec fn is_digit(c: char) -> bool {
    '0' <= c <= '9'
}

/// The value of a digit character.
pub open spec fn digit_value(c: char) -> nat {
    ((c as u32) - 48) as nat
}

/// The value of a string of decimal digits.
pub open spec fn digits_value(s: Seq<char>) -> nat
    decreases s.len(),
{
    if s.len() == 0 {
        0
    } else {
        digits_value(s.drop_last()) * 10 + digit_value(s.last())
    }
}

/// Whether every character of `s` is a digit.
pub open spec fn all_digits(s: Seq<char>) -> bool {
    forall|i: int| 0 <= i < s.len() ==> is_digit(#[trigger] s[i])
}

/// A non-empty digit string whose value fits in a `u32`.
pub open spec fn parse_digits(s: Seq<char>) -> Option<u32> {
    if s.len() > 0 && all_digits(s) && digits_value(s) <= u32::MAX {
        Some(digits_value(s) as u32)
    } else {
        None
    }
}

/// `u32::from_str`: an optional `+` and then a non-empty digit string whose value fits.
pub open spec fn parse_u32(s: Seq<char>) -> Option<u32> {
    if s.len() > 0 && s[0] == '+' {
        parse_digits(s.drop_first())
    } else {
        parse_digits(s)
    }
}

/// A class of characters searched for while scanning text.
#[derive(Debug, Clone, Copy, PartialEq, Eq, Structural)]
pub enum Sep {
    /// `;`
    Semicolon,
    /// `,` or `;`
    CommaOrSemicolon,
    /// `=`
    Equals,
    /// `"`
    Quote,
    /// Any character that is neither an ASCII digit nor `;`.
    NotDigitOrSemicolon,
    /// A line feed.
    Newline,
    /// `x`.
    LetterX,
}

/// Whether `c` belongs to the class `k`.
pub open spec fn is_sep(k: Sep, c: char) -> bool {
    match k {
        Sep::Semicolon => c == ';',
        Sep::CommaOrSemicolon => c == ',' || c == ';',
        Sep::Equals => c == '=',
        Sep::Quote => c == '"',
        Sep::NotDigitOrSemicolon => !is_digit(c) && c != ';',
        Sep::Newline => c == '\n',
        Sep::LetterX => c == 'x',
    }
}

/// The index of the first separator at or after `i`, or the length of `s`.
pub open spec fn next_sep(s: Seq<char>, i: int, k: Sep) -> int
    decreases s.len() - i,
{
    if i >= s.len() {
        s.len() as int
    } else if is_sep(k, s[i]) {
        i
    } else {
        next_sep(s, i + 1, k)
    }
}

/// `next_sep` stays within `[i, len]` when `i` does.
pub proof fn lemma_next_sep_bounds(s: Seq<char>, i: int, k: Sep)
    requires
        0 <= i <= s.len(),
    ensures
        i <= next_sep(s, i, k) <= s.len(),
        next_sep(s, i, k) < s.len() ==> is_sep(k, s[next_sep(s, i, k)]),
        forall|m: int| i <= m < next_sep(s, i, k) ==> !is_sep(k, #[trigger] s[m]),
    decreases s.len() - i,
{
    if i < s.len() && !is_sep(k, s[i]) {
        lemma_next_sep_bounds(s, i + 1, k);
    }
}

/// The parts of `s` from index `i` on, cut at every separator (`str::split`).
pub open spec fn split_from(s: Seq<char>, i: int, k: Sep) -> Seq<Seq<char>>
    decreases s.len() - i,
    when 0 <= i <= s.len()
{
    let j = next_sep(s, i, k);
    proof {
        lemma_next_sep_bounds(s, i, k);
    }
    if j >= s.len() {
        seq![s.subrange(i, s.len() as int)]
    } else {
        seq![s.subrange(i, j)] + split_from(s, j + 1, k)
    }
}

/// The parts of `s` cut at every separator; there is always at least one.
pub open spec fn split(s: Seq<char>, k: Sep) -> Seq<Seq<char>> {
    split_from(s, 0, k)
}

/// A copy of `s[lo..hi]`.
pub fn copy_range(s: &Vec<char>, lo: usize, hi: usize) -> (r: Vec<char>)
    requires
        lo <= hi <= s@.len(),
    ensures
        r@ == s@.subrange(lo as int, hi as int),
{
    let mut r: Vec<char> = Vec::new();
    let mut i = lo;
    while i < hi
        invariant
            lo <= i <= hi <= s@.len(),
            r@ == s@.subrange(lo as int, i as int),
        decreases hi - i,
    {
        r.push(s[i]);
        assert(s@.subrange(lo as int, i + 1) =~= s@.subrange(lo as int, i as int).push(s@[i as int]));
        i = i + 1;
    }
    r
}

/// The characters of a string slice, in order.
pub fn str_chars(s: &str) -> (r: Vec<char>)
    ensures
        r@ == s@,
{
    let n = s.unicode_len();
    let mut r: Vec<char> = Vec::new();
    let mut i: usize = 0;
    while i < n
        invariant
            i <= n,
            n == s@.len(),
            r@ == s@.subrange(0, i as int),
        decreases n - i,
    {
        r.push(s.get_char(i));
        assert(s@.subrange(0, i + 1) =~= s@.subrange(0, i as int).push(s@[i as int]));
        i = i + 1;
    }
    assert(s@.subrange(0, n as int) =~= s@);
    r
}

/// A string holding the given characters.
pub fn string_from_chars(v: &Vec<char>) -> (r: String)
    ensures
        r@ == v@,
{
    let mut r = String::new();
    let mut i: usize = 0;
    while i < v.len()
        invariant
            i <= v@.len(),
            r@ == v@.subrange(0, i as int),
        decreases v@.len() - i,
    {
        crate::text::push_char(&mut r, v[i]);
        assert(v@.subrange(0, i + 1) =~= v@.subrange(0, i as int).push(v@[i as int]));
        i = i + 1;
    }
    assert(v@.subrange(0, v@.len() as int) =~= v@);
    r
}

/// Whether `c` is Unicode whitespace.
pub fn is_whitespace(c: char) -> (r: bool)
    ensures
        r == is_ws(c),
{
    ('\u{9}' <= c && c <= '\u{d}') || c == ' ' || c == '\u{85}' || c == '\u{a0}' || c == '\u{1680}'
        || ('\u{2000}' <= c && c <= '\u{200a}') || c == '\u{2028}' || c == '\u{2029}' || c
        == '\u{202f}' || c == '\u{205f}' || c == '\u{3000}'
}

/// The bounds of `trim(s[lo..hi])` inside `s`.
pub fn trim_range(s: &Vec<char>, lo: usize, hi: usize) -> (r: (usize, usize))
    requires
        lo <= hi <= s@.len(),
    ensures
        lo <= r.0 <= r.1 <= hi,
        s@.subrange(r.0 as int, r.1 as int) == trim(s@.subrange(lo as int, hi as int)),
{
    let mut a = lo;
    while a < hi && is_whitespace(s[a])
        invariant
            lo <= a <= hi <= s@.len(),
            trim_start(s@.subrange(a as int, hi as int)) == trim_start(
                s@.subrange(lo as int, hi as int),
            ),
        decreases hi - a,
    {
        assert(s@.subrange(a as int, hi as int).drop_first() =~= s@.subrange(a + 1, hi as int));
        a = a + 1;
    }
    let ghost t = s@.subrange(a as int, hi as int);
    assert(trim_start(t) == t);
    let mut b = hi;
    while b > a && is_whitespace(s[b - 1])
        invariant
            lo <= a <= b <= hi <= s@.len(),
            trim_end(s@.subrange(a as int, b as int)) == trim_end(t),
            t == s@.subrange(a as int, hi as int),
        decreases b - a,
    {
        assert(s@.subrange(a as int, b as int).drop_last() =~= s@.subrange(a as int, b - 1));
        b = b - 1;
    }
    (a, b)
}

/// The end of `strip_px(s[lo..hi])` inside `s`.
pub fn strip_px_range(s: &Vec<char>, lo: usize, hi: usize) -> (r: usize)
    requires
        lo <= hi <= s@.len(),
    ensures
        lo <= r <= hi,
        s@.subrange(lo as int, r as int) == strip_px(s@.subrange(lo as int, hi as int)),
{
    let mut b = hi;
    while b - lo >= 2 && s[b - 2] == 'p' && s[b - 1] == 'x'
        invariant
            lo <= b <= hi <= s@.len(),
            strip_px(s@.subrange(lo as int, b as int)) == strip_px(
                s@.subrange(lo as int, hi as int),
            ),
        decreases b - lo,
    {
        assert(s@.subrange(lo as int, b as int).subrange(0, b - lo - 2) =~= s@.subrange(
            lo as int,
            b - 2,
        ));
        b = b - 2;
    }
    b
}

/// Appending a digit multiplies the value by ten and adds the digit.
pub proof fn lemma_digits_push(s: Seq<char>, c: char)
    ensures
        digits_value(s.push(c)) == digits_value(s) * 10 + digit_value(c),
{
    assert(s.push(c).drop_last() =~= s);
}

/// Parses `s[lo..hi]` as `u32::from_str` does.
pub fn parse_u32_range(s: &Vec<char>, lo: usize, hi: usize) -> (r: Option<u32>)
    requires
        lo <= hi <= s@.len(),
    ensures
        r == parse_u32(s@.subrange(lo as int, hi as int)),
{
    let ghost whole = s@.subrange(lo as int, hi as int);
    let mut start = lo;
    if lo < hi && s[lo] == '+' {
        start = lo + 1;
        assert(whole.drop_first() =~= s@.subrange(start as int, hi as int));
    }
    let ghost ds = s@.subrange(start as int, hi as int);
    assert(parse_u32(whole) == parse_digits(ds));
    if start >= hi {
        assert(ds.len() == 0);
        assert(parse_digits(ds) is None);
        assert(parse_u32(s@.subrange(lo as int, hi as int)) is None);
        return None;
    }
    let mut acc: u64 = 0;
    let mut i = start;
    while i < hi
        invariant
            lo <= start <= i <= hi <= s@.len(),
            ds == s@.subrange(start as int, hi as int),
            parse_u32(s@.subrange(lo as int, hi as int)) == parse_digits(ds),
            all_digits(s@.subrange(start as int, i as int)),
            acc == (if digits_value(s@.subrange(start as int, i as int)) <= u32::MAX {
                digits_value(s@.subrange(start as int, i as int))
            } else {
                0x1_0000_0000
            }),
        decreases hi - i,
    {
        let c = s[i];
        if !('0' <= c && c <= '9') {
            assert(ds[i - start] == c);
            return None;
        }
        let ghost pre = s@.subrange(start as int, i as int);
        assert(s@.subrange(start as int, i + 1) =~= pre.push(c));
        proof {
            lemma_digits_push(pre, c);
        }
        let d: u64 = ((c as u32) - 48) as u64;
        if acc > 0xffff_ffff {
            acc = 0x1_0000_0000;
        } else {
            let next = acc * 10 + d;
            if next > 0xffff_ffff {
                acc = 0x1_0000_0000;
            } else {
                acc = next;
            }
        }
        i = i + 1;
    }
    assert(s@.subrange(start as int, hi as int) == ds);
    if acc > 0xffff_ffff {
        None
    } else {
        Some(acc as u32)
    }
}

/// Whether `c` belongs to the separator set `k`.
pub fn separates(k: Sep, c: char) -> (r: bool)
    ensures
        r == is_sep(k, c),
{
    match k {
        Sep::Semicolon => c == ';',
        Sep::CommaOrSemicolon => c == ',' || c == ';',
        Sep::Equals => c == '=',
        Sep::Quote => c == '"',
        Sep::NotDigitOrSemicolon => !('0' <= c && c <= '9') && c != ';',
        Sep::Newline => c == '\n',
        Sep::LetterX => c == 'x',
    }
}

/// The first index at or after `i` of a separator of kind `k`, else `s.len()`.
pub fn next_sep_index(s: &Vec<char>, i: usize, k: Sep) -> (j: usize)
    requires
        i <= s@.len(),
    ensures
        j == next_sep(s@, i as int, k),
        i <= j <= s@.len(),
{
    let mut j = i;
    while j < s.len() && !separates(k, s[j])
        invariant
            i <= j <= s@.len(),
            next_sep(s@, j as int, k) == next_sep(s@, i as int, k),
        decreases s@.len() - j,
    {
        j = j + 1;
    }
    j
}

/// The first index in `[lo, hi)` holding `c`, if any.
pub fn find_char(s: &Vec<char>, lo: usize, hi: usize, c: char) -> (r: Option<usize>)
    requires
        lo <= hi <= s@.len(),
    ensures
        r matches Some(j) ==> lo <= j < hi && s@[j as int] == c && forall|m: int|
            lo <= m < j ==> s@[m] != c,
        r is None ==> forall|m: int| lo <= m < hi ==> s@[m] != c,
{
    let mut j = lo;
    while j < hi
        invariant
            lo <= j <= hi <= s@.len(),
            forall|m: int| lo <= m < j ==> s@[m] != c,
        decreases hi - j,
    {
        if s[j] == c {
            return Some(j);
        }
        j = j + 1;
    }
    None
}

/// Whether `s[lo..hi]` equals `t`.
pub fn range_eq(s: &Vec<char>, lo: usize, hi: usize, t: &Vec<char>) -> (r: bool)
    requires
        lo <= hi <= s@.len(),
    ensures
        r == (s@.subrange(lo as int, hi as int) == t@),
{
    if hi - lo != t.len() {
        assert(s@.subrange(lo as int, hi as int).len() != t@.len());
        return false;
    }
    let mut i: usize = 0;
    while i < t.len()
        invariant
            hi - lo == t@.len(),
            lo <= hi <= s@.len(),
            i <= t@.len(),
            forall|m: int| 0 <= m < i ==> s@[lo + m] == t@[m],
        decreases t@.len() - i,
    {
        if s[lo + i] != t[i] {
            assert(s@.subrange(lo as int, hi as int)[i as int] != t@[i as int]);
            return false;
        }
        i = i + 1;
    }
    assert(s@.subrange(lo as int, hi as int) =~= t@);
    true
}

/// A line without the carriage return that ended it.
pub open spec fn strip_cr(l: Seq<char>) -> Seq<char> {
    if l.len() > 0 && l.last() == '\r' {
        l.drop_last()
    } else {
        l
    }
}

/// The lines of `s` from index `i` on, as `str::lines` gives them: cut at
/// each line feed, a carriage return before it dropped, no empty last line
/// after a final line feed.
pub open spec fn lines_from(s: Seq<char>, i: int) -> Seq<Seq<char>>
    decreases s.len() - i,
    when 0 <= i <= s.len()
{
    if i >= s.len() {
        Seq::empty()
    } else {
        let j = next_sep(s, i, Sep::Newline);
        proof {
            lemma_next_sep_bounds(s, i, Sep::Newline);
        }
        if j >= s.len() {
            seq![s.subrange(i, s.len() as int)]
        } else {
            seq![strip_cr(s.subrange(i, j))] + lines_from(s, j + 1)
        }
    }
}

/// The lines of `s` as `str::lines` gives them.
pub open spec fn text_lines(s: Seq<char>) -> Seq<Seq<char>> {
    lines_from(s, 0)
}

/// The lines of a text, as `str::lines` gives them.
pub fn text_lines_of(s: &str) -> (r: Vec<Vec<char>>)
    ensures
        r@.map_values(|l: Vec<char>| l@) == text_lines(s@),
{
    let t = str_chars(s);
    let ghost lv = |l: Vec<char>| l@;
    let mut out: Vec<Vec<char>> = Vec::new();
    let mut i: usize = 0;
    while i < t.len()
        invariant
            i <= t@.len(),
            t@ == s@,
            lv == (|l: Vec<char>| l@),
            out@.map_values(lv) + lines_from(t@, i as int) == text_lines(s@),
        decreases t@.len() - i,
    {
        let j = next_sep_index(&t, i, Sep::Newline);
        proof {
            lemma_next_sep_bounds(t@, i as int, Sep::Newline);
        }
        let ghost before = out@;
        if j >= t.len() {
            let line = copy_range(&t, i, t.len());
            out.push(line);
            proof {
                before.lemma_push_map_commute(lv, line);
                assert(lines_from(t@, t@.len() as int) =~= Seq::<Seq<char>>::empty());
                assert(out@.map_values(lv) + lines_from(t@, t@.len() as int) =~= before.map_values(lv)
                    + lines_from(t@, i as int));
            }
            i = t.len();
        } else {
            let mut hi = j;
            if hi > i && t[hi - 1] == '\r' {
                hi = hi - 1;
            }
            let line = copy_range(&t, i, hi);
            assert(line@ == strip_cr(t@.subrange(i as int, j as int)));
            out.push(line);
            proof {
                before.lemma_push_map_commute(lv, line);
                assert(out@.map_values(lv) + lines_from(t@, j + 1) =~= before.map_values(lv)
                    + lines_from(t@, i as int));
            }
            i = j + 1;
        }
    }
    assert(lines_from(t@, i as int) =~= Seq::<Seq<char>>::empty());
    assert(out@.map_values(lv) =~= out@.map_values(lv) + lines_from(t@, i as int));
    out
}

/// Whether `s` begins with `p`.
pub open spec fn has_prefix(s: Seq<char>, p: Seq<char>) -> bool {
    p.len() <= s.len() && s.subrange(0, p.len() as int) == p
}

/// Whether `s` begins with `p`.
pub fn starts_with(s: &Vec<char>, p: &str) -> (r: bool)
    ensures
        r == has_prefix(s@, p@),
{
    let pv = str_chars(p);
    if pv.len() > s.len() {
        return false;
    }
    range_eq(s, 0, pv.len(), &pv)
}

} // verus!
