//! Dimensions of inline graphics, read from the text of their escape
//! sequences: Sixel raster attributes, Kitty `w=`/`h=` keys and iTerm2
//! `width=`/`height=` parameters.

use vstd::prelude::*;
use vstd::utf8::{decode_utf8, valid_utf8};
use crate::scan::{
    copy_range, is_sep, is_ws, next_sep, next_sep_index, parse_digits, parse_u32, parse_u32_range, range_eq, split,
    split_from, str_chars, strip_px, strip_px_range, trim, trim_end, trim_range, trim_start, Sep,
};
use crate::golden::{lemma_decimal_char, lemma_decimal_digits, lemma_next_sep_first, lemma_next_sep_shift};
use crate::text::decimal;

verus! {

/// Decodes bytes as UTF-8 (`std::str::from_utf8`), failing on invalid input.
#[verifier::external_body]
pub(crate) fn decode_str(data: &[u8]) -> (r: Option<&str>)
    ensures
        r is Some <==> valid_utf8(data@),
        r matches Some(s) ==> s@ == decode_utf8(data@),
{
    std::str::from_utf8(data).ok()
}

/// The characters that `data` encodes in UTF-8, if it is valid UTF-8.
pub fn decode_chars(data: &[u8]) -> (r: Option<Vec<char>>)
    ensures
        r is Some <==> valid_utf8(data@),
        r matches Some(v) ==> v@ == decode_utf8(data@),
{
    match decode_str(data) {
        Some(s) => Some(str_chars(s)),
        None => None,
    }
}

/// A width and a height, both present and non-zero.
pub open spec fn positive_pair(w: Option<u32>, h: Option<u32>) -> Option<(u32, u32)> {
    match (w, h) {
        (Some(a), Some(b)) => if a > 0 && b > 0 {
            Some((a, b))
        } else {
            None
        },
        _ => None,
    }
}

/// The parsed values of the non-empty parts, in order.
pub open spec fn parse_nonempty(parts: Seq<Seq<char>>) -> Seq<Option<u32>>
    decreases parts.len(),
{
    if parts.len() == 0 {
        Seq::empty()
    } else if parts[0].len() > 0 {
        seq![parse_u32(parts[0])] + parse_nonempty(parts.drop_first())
    } else {
        parse_nonempty(parts.drop_first())
    }
}

/// Sixel raster attributes in text: after the first `"`, the run of digits and
/// `;` is split at `;`; four non-empty numbers `Pan;Pad;Ph;Pv` or two `Ph;Pv`
/// give the width and height, which must both be non-zero.
pub open spec fn raster_text(s: Seq<char>) -> Option<(u32, u32)> {
    let q = next_sep(s, 0, Sep::Quote);
    if q >= s.len() {
        None
    } else {
        let e = next_sep(s, q + 1, Sep::NotDigitOrSemicolon);
        let vals = parse_nonempty(split(s.subrange(q + 1, e), Sep::Semicolon));
        if vals.len() == 4 {
            positive_pair(vals[2], vals[3])
        } else if vals.len() == 2 {
            positive_pair(vals[0], vals[1])
        } else {
            None
        }
    }
}

/// Sixel raster attributes in raw bytes, which must be valid UTF-8.
pub open spec fn raster_bytes(data: Seq<u8>) -> Option<(u32, u32)> {
    if valid_utf8(data) {
        raster_text(decode_utf8(data))
    } else {
        None
    }
}

/// Width and height after one `key=value` part: `key` and `value` are trimmed,
/// and a key equal to `wkey` (or `hkey`) sets the width (or height) to the
/// parsed value, or clears it when the value does not parse. In units mode
/// the value has trailing `px` removed, and the value `auto` leaves it unchanged.
pub open spec fn key_step(
    part: Seq<char>,
    wkey: Seq<char>,
    hkey: Seq<char>,
    units: bool,
    st: (Option<u32>, Option<u32>),
) -> (Option<u32>, Option<u32>) {
    let e = next_sep(part, 0, Sep::Equals);
    if e >= part.len() {
        st
    } else {
        let key = trim(part.subrange(0, e));
        let raw = trim(part.subrange(e + 1, part.len() as int));
        let val = if units {
            strip_px(raw)
        } else {
            raw
        };
        if units && val == seq!['a', 'u', 't', 'o'] {
            st
        } else if key == wkey {
            (parse_u32(val), st.1)
        } else if key == hkey {
            (st.0, parse_u32(val))
        } else {
            st
        }
    }
}

/// Applies `key_step` to every part, first to last.
pub open spec fn key_fold(
    parts: Seq<Seq<char>>,
    wkey: Seq<char>,
    hkey: Seq<char>,
    units: bool,
    st: (Option<u32>, Option<u32>),
) -> (Option<u32>, Option<u32>)
    decreases parts.len(),
{
    if parts.len() == 0 {
        st
    } else {
        key_fold(parts.drop_first(), wkey, hkey, units, key_step(parts[0], wkey, hkey, units, st))
    }
}

/// Kitty graphics control data: parts separated by `,` or `;`, keys `w` and `h`.
pub open spec fn kitty_text(s: Seq<char>) -> Option<(u32, u32)> {
    let st = key_fold(split(s, Sep::CommaOrSemicolon), seq!['w'], seq!['h'], false, (None, None));
    positive_pair(st.0, st.1)
}

/// The parts of a text after a prefix are the parts of the text.
proof fn lemma_split_shift(a: Seq<char>, r: Seq<char>, j: int, k: Sep)
    requires
        0 <= j <= r.len(),
    ensures
        split_from(a + r, a.len() + j, k) == split_from(r, j, k),
    decreases r.len() - j,
{
    let s = a + r;
    lemma_next_sep_shift(a, r, j, k);
    crate::scan::lemma_next_sep_bounds(r, j, k);
    let e = next_sep(r, j, k);
    assert(s.subrange(a.len() + j, a.len() + e) =~= r.subrange(j, e));
    assert(s.subrange(a.len() + j, s.len() as int) =~= r.subrange(j, r.len() as int));
    if e < r.len() {
        lemma_split_shift(a, r, e + 1, k);
    }
}

/// A part without separators followed by a separator and the rest.
proof fn lemma_split_cons(p: Seq<char>, c: char, r: Seq<char>, k: Sep)
    requires
        forall|m: int| 0 <= m < p.len() ==> !is_sep(k, #[trigger] p[m]),
        is_sep(k, c),
    ensures
        split(p + seq![c] + r, k) == seq![p] + split(r, k),
{
    let s = p + seq![c] + r;
    assert forall|m: int| 0 <= m < p.len() implies !is_sep(k, #[trigger] s[m]) by {
        assert(s[m] == p[m]);
    }
    assert(s[p.len() as int] == c);
    lemma_next_sep_first(s, 0, p.len() as int, k);
    assert(s.subrange(0, p.len() as int) =~= p);
    assert(s == (p + seq![c]) + r);
    lemma_split_shift(p + seq![c], r, 0, k);
    assert(split_from(s, 0, k) =~= seq![p] + split_from(s, (p.len() + 1) as int, k));
}

/// A text without separators is one part.
proof fn lemma_split_single(p: Seq<char>, k: Sep)
    requires
        forall|m: int| 0 <= m < p.len() ==> !is_sep(k, #[trigger] p[m]),
    ensures
        split(p, k) == seq![p],
{
    lemma_next_sep_first(p, 0, p.len() as int, k);
    assert(p.subrange(0, p.len() as int) =~= p);
}

/// A `key=N` part with a decimal number.
pub open spec fn key_part(key: Seq<char>, n: u32) -> Seq<char> {
    key + seq!['='] + decimal(n as nat)
}

/// A key that reads as itself: not empty, no `=`, no separator of `k`, no
/// whitespace.
pub open spec fn plain_key(key: Seq<char>, k: Sep) -> bool {
    key.len() > 0 && forall|m: int| 0 <= m < key.len() ==> !is_sep(k, #[trigger] key[m]) && key[m] != '=' && !is_ws(
        key[m],
    )
}

/// The parts `key=N` hold no separators.
proof fn lemma_key_part_no_sep(key: Seq<char>, n: u32, k: Sep)
    requires
        plain_key(key, k),
        k == Sep::CommaOrSemicolon || k == Sep::Semicolon,
    ensures
        forall|m: int| 0 <= m < key_part(key, n).len() ==> !is_sep(k, #[trigger] key_part(key, n)[m]),
{
    let p = key_part(key, n);
    assert forall|m: int| 0 <= m < p.len() implies !is_sep(k, #[trigger] p[m]) by {
        if m < key.len() {
            assert(p[m] == key[m]);
        } else if m > key.len() {
            assert(p[m] == decimal(n as nat)[m - key.len() - 1]);
            lemma_decimal_char(n as nat, m - key.len() - 1);
        }
    }
}

/// A 32-bit number reads back from its decimal rendering.
proof fn lemma_parse_u32_decimal(n: u32)
    ensures
        parse_u32(decimal(n as nat)) == Some(n),
{
    lemma_decimal_digits(n as nat);
    let d = decimal(n as nat);
    assert(crate::scan::is_digit(d[0]));
    assert(parse_digits(d) == Some(n));
}

/// Trimming a text without whitespace at its ends leaves it as it is.
proof fn lemma_trim_plain(d: Seq<char>)
    requires
        d.len() > 0,
        !is_ws(d[0]),
        !is_ws(d.last()),
    ensures
        trim(d) == d,
{
    assert(trim_start(d) == d);
    assert(trim_end(d) == d);
}

/// A `key=N` part sets the width when `key` is the width key and the height
/// when it is the height key, whatever came before; with units, `N` has no
/// `px` to strip and is not `auto`.
proof fn lemma_key_step_part(
    key: Seq<char>,
    n: u32,
    wk: Seq<char>,
    hk: Seq<char>,
    units: bool,
    k: Sep,
    st: (Option<u32>, Option<u32>),
)
    requires
        plain_key(key, k),
        wk != hk,
    ensures
        key == wk ==> key_step(key_part(key, n), wk, hk, units, st) == (Some(n), st.1),
        key == hk ==> key_step(key_part(key, n), wk, hk, units, st) == (st.0, Some(n)),
{
    let p = key_part(key, n);
    let d = decimal(n as nat);
    lemma_decimal_digits(n as nat);
    lemma_decimal_char(n as nat, 0);
    lemma_decimal_char(n as nat, d.len() - 1);
    assert forall|m: int| 0 <= m < key.len() implies !is_sep(Sep::Equals, #[trigger] p[m]) by {
        assert(p[m] == key[m]);
    }
    assert(p[key.len() as int] == '=');
    lemma_next_sep_first(p, 0, key.len() as int, Sep::Equals);
    assert(p.subrange(0, key.len() as int) =~= key);
    lemma_trim_plain(key);
    assert(p.subrange((key.len() + 1) as int, p.len() as int) =~= d);
    lemma_trim_plain(d);
    assert(strip_px(d) == d);
    assert(d != seq!['a', 'u', 't', 'o']) by {
        assert(d[0] != 'a');
    }
    lemma_parse_u32_decimal(n);
}

/// Cutting at a separator splits the parts of the two sides.
proof fn lemma_split_append(p: Seq<char>, c: char, r: Seq<char>, k: Sep)
    requires
        is_sep(k, c),
    ensures
        split(p + seq![c] + r, k) == split(p, k) + split(r, k),
    decreases p.len(),
{
    crate::scan::lemma_next_sep_bounds(p, 0, k);
    let j = next_sep(p, 0, k);
    if j >= p.len() {
        lemma_split_single(p, k);
        lemma_split_cons(p, c, r, k);
    } else {
        let p1 = p.subrange(0, j);
        let p2 = p.subrange(j + 1, p.len() as int);
        let d = p[j];
        assert forall|m: int| 0 <= m < p1.len() implies !is_sep(k, #[trigger] p1[m]) by {
            assert(p1[m] == p[m]);
        }
        assert(p =~= p1 + seq![d] + p2);
        assert(p + seq![c] + r =~= p1 + seq![d] + (p2 + seq![c] + r));
        lemma_split_cons(p1, d, p2 + seq![c] + r, k);
        lemma_split_cons(p1, d, p2, k);
        lemma_split_append(p2, c, r, k);
        assert(seq![p1] + (split(p2, k) + split(r, k)) =~= (seq![p1] + split(p2, k)) + split(r, k));
    }
}

/// Folding one part is one step.
proof fn lemma_fold_one(x: Seq<char>, wk: Seq<char>, hk: Seq<char>, units: bool, st: (Option<u32>, Option<u32>))
    ensures
        key_fold(seq![x], wk, hk, units, st) == key_step(x, wk, hk, units, st),
{
    let s1 = key_step(x, wk, hk, units, st);
    assert(seq![x].drop_first() =~= Seq::<Seq<char>>::empty());
    assert(seq![x][0] == x);
    assert(key_fold(Seq::<Seq<char>>::empty(), wk, hk, units, s1) == s1);
}

/// Folding two lists of parts is folding the second after the first.
proof fn lemma_fold_append(
    x: Seq<Seq<char>>,
    y: Seq<Seq<char>>,
    wk: Seq<char>,
    hk: Seq<char>,
    units: bool,
    st: (Option<u32>, Option<u32>),
)
    ensures
        key_fold(x + y, wk, hk, units, st) == key_fold(y, wk, hk, units, key_fold(x, wk, hk, units, st)),
    decreases x.len(),
{
    if x.len() > 0 {
        assert((x + y).drop_first() =~= x.drop_first() + y);
        assert((x + y)[0] == x[0]);
        lemma_fold_append(x.drop_first(), y, wk, hk, units, key_step(x[0], wk, hk, units, st));
    } else {
        assert(x + y =~= y);
    }
}

/// A text without `=` and separators is one part that changes nothing.
proof fn lemma_plain_tail(
    b: Seq<char>,
    k: Sep,
    wk: Seq<char>,
    hk: Seq<char>,
    units: bool,
    st: (Option<u32>, Option<u32>),
)
    requires
        !b.contains('='),
        forall|m: int| 0 <= m < b.len() ==> !is_sep(k, #[trigger] b[m]),
    ensures
        key_fold(split(b, k), wk, hk, units, st) == st,
{
    assert forall|m: int| 0 <= m < b.len() implies !is_sep(Sep::Equals, #[trigger] b[m]) by {
        assert(b.contains(b[m]));
    }
    lemma_split_single(b, k);
    lemma_next_sep_first(b, 0, b.len() as int, Sep::Equals);
    assert(key_step(b, wk, hk, units, st) == st);
    lemma_fold_one(b, wk, hk, units, st);
}

/// Key parts for the width and the height, in either order, after any text
/// and before a separator and a tail without `=` and separators, give that
/// width and height.
proof fn lemma_size_keys(
    a: Seq<char>,
    wk: Seq<char>,
    hk: Seq<char>,
    units: bool,
    k: Sep,
    c1: char,
    c2: char,
    c3: char,
    w: u32,
    h: u32,
    b: Seq<char>,
)
    requires
        plain_key(wk, k),
        plain_key(hk, k),
        wk != hk,
        is_sep(k, c1),
        is_sep(k, c2),
        is_sep(k, c3),
        k == Sep::CommaOrSemicolon || k == Sep::Semicolon,
        !b.contains('='),
        forall|m: int| 0 <= m < b.len() ==> !is_sep(k, #[trigger] b[m]),
    ensures
        key_fold(split(a + seq![c1] + key_part(wk, w) + seq![c2] + key_part(hk, h) + seq![c3] + b, k), wk, hk, units, (None, None))
            == (Some(w), Some(h)),
        key_fold(split(a + seq![c1] + key_part(hk, h) + seq![c2] + key_part(wk, w) + seq![c3] + b, k), wk, hk, units, (None, None))
            == (Some(w), Some(h)),
{
    let wp = key_part(wk, w);
    let hp = key_part(hk, h);
    lemma_key_part_no_sep(wk, w, k);
    lemma_key_part_no_sep(hk, h, k);
    let s1 = a + seq![c1] + wp + seq![c2] + hp + seq![c3] + b;
    let s2 = a + seq![c1] + hp + seq![c2] + wp + seq![c3] + b;
    assert(s1 =~= a + seq![c1] + (wp + seq![c2] + (hp + seq![c3] + b)));
    assert(s2 =~= a + seq![c1] + (hp + seq![c2] + (wp + seq![c3] + b)));
    lemma_split_single(hp, k);
    lemma_split_single(wp, k);
    lemma_split_append(hp, c3, b, k);
    lemma_split_append(wp, c3, b, k);
    lemma_split_append(wp, c2, hp + seq![c3] + b, k);
    lemma_split_append(hp, c2, wp + seq![c3] + b, k);
    lemma_split_append(a, c1, wp + seq![c2] + (hp + seq![c3] + b), k);
    lemma_split_append(a, c1, hp + seq![c2] + (wp + seq![c3] + b), k);
    let st0: (Option<u32>, Option<u32>) = (None, None);
    let sa = key_fold(split(a, k), wk, hk, units, st0);
    let rest1 = seq![wp] + (seq![hp] + split(b, k));
    let rest2 = seq![hp] + (seq![wp] + split(b, k));
    assert(split(s1, k) == split(a, k) + rest1);
    assert(split(s2, k) == split(a, k) + rest2);
    lemma_fold_append(split(a, k), rest1, wk, hk, units, st0);
    lemma_fold_append(split(a, k), rest2, wk, hk, units, st0);
    lemma_key_step_part(wk, w, wk, hk, units, k, sa);
    lemma_key_step_part(hk, h, wk, hk, units, k, (Some(w), sa.1));
    lemma_key_step_part(hk, h, wk, hk, units, k, sa);
    lemma_key_step_part(wk, w, wk, hk, units, k, (sa.0, Some(h)));
    lemma_fold_append(seq![wp], seq![hp] + split(b, k), wk, hk, units, sa);
    lemma_fold_append(seq![hp], split(b, k), wk, hk, units, (Some(w), sa.1));
    lemma_fold_append(seq![hp], seq![wp] + split(b, k), wk, hk, units, sa);
    lemma_fold_append(seq![wp], split(b, k), wk, hk, units, (sa.0, Some(h)));
    lemma_fold_one(wp, wk, hk, units, sa);
    lemma_fold_one(hp, wk, hk, units, (Some(w), sa.1));
    lemma_fold_one(hp, wk, hk, units, sa);
    lemma_fold_one(wp, wk, hk, units, (sa.0, Some(h)));
    lemma_plain_tail(b, k, wk, hk, units, (Some(w), Some(h)));
}

/// Kitty control data gives the image's size from its keys: whatever comes
/// first (such as `Ga=T,f=100`), a `w=W` and an `h=H` part after it, in
/// either order, then `;` and a payload without `=`, `,` or `;`, give width
/// `W` and height `H` when both are positive.
pub proof fn law_kitty_size_keys(a: Seq<char>, w: u32, h: u32, b: Seq<char>)
    requires
        w > 0,
        h > 0,
        !b.contains('='),
        !b.contains(','),
        !b.contains(';'),
    ensures
        kitty_text(a + ",w="@ + decimal(w as nat) + ",h="@ + decimal(h as nat) + ";"@ + b) == Some((w, h)),
        kitty_text(a + ",h="@ + decimal(h as nat) + ",w="@ + decimal(w as nat) + ";"@ + b) == Some((w, h)),
{
    reveal_strlit(",w=");
    reveal_strlit(",h=");
    reveal_strlit(";");
    let k = Sep::CommaOrSemicolon;
    let wk = seq!['w'];
    let hk = seq!['h'];
    assert(wk[0] != hk[0]);
    assert forall|m: int| 0 <= m < b.len() implies !is_sep(k, #[trigger] b[m]) by {
        assert(b.contains(b[m]));
    }
    lemma_size_keys(a, wk, hk, false, k, ',', ',', ';', w, h, b);
    assert(a + ",w="@ + decimal(w as nat) + ",h="@ + decimal(h as nat) + ";"@ + b =~= a + seq![','] + key_part(
        wk,
        w,
    ) + seq![','] + key_part(hk, h) + seq![';'] + b);
    assert(a + ",h="@ + decimal(h as nat) + ",w="@ + decimal(w as nat) + ";"@ + b =~= a + seq![','] + key_part(
        hk,
        h,
    ) + seq![','] + key_part(wk, w) + seq![';'] + b);
}

/// iTerm2 image parameters give the image's size from their keys: whatever
/// comes first (such as `1337;File=name=x`), `width=W` and `height=H`
/// parameters after it, in either order, then `;` and a tail without `=` or
/// `;`, give width `W` and height `H` when both are positive.
pub proof fn law_iterm2_size_keys(a: Seq<char>, w: u32, h: u32, b: Seq<char>)
    requires
        w > 0,
        h > 0,
        !b.contains('='),
        !b.contains(';'),
    ensures
        iterm2_text(a + ";width="@ + decimal(w as nat) + ";height="@ + decimal(h as nat) + ";"@ + b) == Some(
            (w, h),
        ),
        iterm2_text(a + ";height="@ + decimal(h as nat) + ";width="@ + decimal(w as nat) + ";"@ + b) == Some(
            (w, h),
        ),
{
    reveal_strlit(";width=");
    reveal_strlit(";height=");
    reveal_strlit(";");
    let k = Sep::Semicolon;
    let wk = seq!['w', 'i', 'd', 't', 'h'];
    let hk = seq!['h', 'e', 'i', 'g', 'h', 't'];
    assert(wk.len() != hk.len());
    assert forall|m: int| 0 <= m < b.len() implies !is_sep(k, #[trigger] b[m]) by {
        assert(b.contains(b[m]));
    }
    lemma_size_keys(a, wk, hk, true, k, ';', ';', ';', w, h, b);
    assert(a + ";width="@ + decimal(w as nat) + ";height="@ + decimal(h as nat) + ";"@ + b =~= a + seq![';']
        + key_part(wk, w) + seq![';'] + key_part(hk, h) + seq![';'] + b);
    assert(a + ";height="@ + decimal(h as nat) + ";width="@ + decimal(w as nat) + ";"@ + b =~= a + seq![';']
        + key_part(hk, h) + seq![';'] + key_part(wk, w) + seq![';'] + b);
}

/// The parsed values of four non-empty decimal parts.
proof fn lemma_parse_four(n1: u32, n2: u32, n3: u32, n4: u32)
    ensures
        parse_nonempty(seq![decimal(n1 as nat), decimal(n2 as nat), decimal(n3 as nat), decimal(n4 as nat)])
            == seq![Some(n1), Some(n2), Some(n3), Some(n4)],
{
    let d1 = decimal(n1 as nat);
    let d2 = decimal(n2 as nat);
    let d3 = decimal(n3 as nat);
    let d4 = decimal(n4 as nat);
    lemma_decimal_digits(n1 as nat);
    lemma_decimal_digits(n2 as nat);
    lemma_decimal_digits(n3 as nat);
    lemma_decimal_digits(n4 as nat);
    lemma_parse_u32_decimal(n1);
    lemma_parse_u32_decimal(n2);
    lemma_parse_u32_decimal(n3);
    lemma_parse_u32_decimal(n4);
    assert(seq![d1, d2, d3, d4].drop_first() =~= seq![d2, d3, d4]);
    assert(seq![d2, d3, d4].drop_first() =~= seq![d3, d4]);
    assert(seq![d3, d4].drop_first() =~= seq![d4]);
    assert(seq![d4].drop_first() =~= Seq::<Seq<char>>::empty());
    assert(seq![d4][0] == d4);
    assert(parse_nonempty(Seq::<Seq<char>>::empty()) =~= Seq::<Option<u32>>::empty());
    assert(parse_nonempty(seq![d4]) =~= seq![Some(n4)]);
    assert(seq![d3, d4][0] == d3);
    assert(seq![d2, d3, d4][0] == d2);
    assert(seq![d1, d2, d3, d4][0] == d1);
    assert(parse_nonempty(seq![d3, d4]) =~= seq![Some(n3), Some(n4)]);
    assert(parse_nonempty(seq![d2, d3, d4]) =~= seq![Some(n2), Some(n3), Some(n4)]);
}

/// The parsed values of two non-empty decimal parts.
proof fn lemma_parse_two(n1: u32, n2: u32)
    ensures
        parse_nonempty(seq![decimal(n1 as nat), decimal(n2 as nat)]) == seq![Some(n1), Some(n2)],
{
    let d1 = decimal(n1 as nat);
    let d2 = decimal(n2 as nat);
    lemma_decimal_digits(n1 as nat);
    lemma_decimal_digits(n2 as nat);
    lemma_parse_u32_decimal(n1);
    lemma_parse_u32_decimal(n2);
    assert(seq![d1, d2].drop_first() =~= seq![d2]);
    assert(seq![d2].drop_first() =~= Seq::<Seq<char>>::empty());
    assert(seq![d2][0] == d2);
    assert(parse_nonempty(Seq::<Seq<char>>::empty()) =~= Seq::<Option<u32>>::empty());
    assert(parse_nonempty(seq![d2]) =~= seq![Some(n2)]);
    assert(seq![d1, d2][0] == d1);
}

/// The raster attributes found after the first quote, the digit run ended
/// by `t`.
proof fn lemma_raster_run(a: Seq<char>, run: Seq<char>, t: Seq<char>)
    requires
        !a.contains('"'),
        forall|m: int| 0 <= m < run.len() ==> crate::scan::is_digit(#[trigger] run[m]) || run[m] == ';',
        t.len() == 0 || (!crate::scan::is_digit(t[0]) && t[0] != ';'),
    ensures
        raster_text(a + seq!['"'] + run + t) == ({
            let vals = parse_nonempty(split(run, Sep::Semicolon));
            if vals.len() == 4 {
                positive_pair(vals[2], vals[3])
            } else if vals.len() == 2 {
                positive_pair(vals[0], vals[1])
            } else {
                None
            }
        }),
{
    let s = a + seq!['"'] + run + t;
    assert forall|m: int| 0 <= m < a.len() implies !is_sep(Sep::Quote, #[trigger] s[m]) by {
        assert(s[m] == a[m]);
        assert(a.contains(a[m]));
    }
    assert(s[a.len() as int] == '"');
    lemma_next_sep_first(s, 0, a.len() as int, Sep::Quote);
    let q = a.len() as int;
    let e = q + 1 + run.len();
    assert forall|m: int| q + 1 <= m < e implies !is_sep(Sep::NotDigitOrSemicolon, #[trigger] s[m]) by {
        assert(s[m] == run[m - q - 1]);
    }
    if t.len() > 0 {
        assert(s[e] == t[0]);
    }
    lemma_next_sep_first(s, q + 1, e, Sep::NotDigitOrSemicolon);
    assert(s.subrange(q + 1, e) =~= run);
}

/// A run of digits and `;`.
pub open spec fn digit_run(x: Seq<char>) -> bool {
    forall|m: int| 0 <= m < x.len() ==> crate::scan::is_digit(#[trigger] x[m]) || x[m] == ';'
}

/// Two runs joined by `;` are a run; a decimal rendering is one.
proof fn lemma_digit_run_join(x: Seq<char>, y: Seq<char>)
    requires
        digit_run(x),
        digit_run(y),
    ensures
        digit_run(x + seq![';'] + y),
{
    let z = x + seq![';'] + y;
    assert forall|m: int| 0 <= m < z.len() implies crate::scan::is_digit(#[trigger] z[m]) || z[m] == ';' by {
        if m < x.len() {
            assert(z[m] == x[m]);
        } else if m > x.len() {
            assert(z[m] == y[m - x.len() - 1]);
        }
    }
}

/// A decimal rendering is a run of digits without `;`.
proof fn lemma_decimal_run(n: u32)
    ensures
        digit_run(decimal(n as nat)),
        forall|m: int| 0 <= m < decimal(n as nat).len() ==> !is_sep(Sep::Semicolon, #[trigger] decimal(n as nat)[m]),
{
    lemma_decimal_digits(n as nat);
}

/// The run `Pan;Pad;W;H` is a digit run that splits at `;` into its four
/// decimal renderings.
proof fn lemma_run_four(pan: u32, pad: u32, w: u32, h: u32)
    ensures
        digit_run(decimal(pan as nat) + seq![';'] + (decimal(pad as nat) + seq![';'] + (decimal(w as nat)
            + seq![';'] + decimal(h as nat)))),
        split(
            decimal(pan as nat) + seq![';'] + (decimal(pad as nat) + seq![';'] + (decimal(w as nat) + seq![';']
                + decimal(h as nat))),
            Sep::Semicolon,
        ) == seq![decimal(pan as nat), decimal(pad as nat), decimal(w as nat), decimal(h as nat)],
{
    let k = Sep::Semicolon;
    let d1 = decimal(pan as nat);
    let d2 = decimal(pad as nat);
    let d3 = decimal(w as nat);
    let d4 = decimal(h as nat);
    lemma_decimal_run(pan);
    lemma_decimal_run(pad);
    lemma_decimal_run(w);
    lemma_decimal_run(h);
    let r34 = d3 + seq![';'] + d4;
    let r234 = d2 + seq![';'] + r34;
    lemma_digit_run_join(d3, d4);
    lemma_digit_run_join(d2, r34);
    lemma_digit_run_join(d1, r234);
    lemma_split_single(d4, k);
    lemma_split_cons(d3, ';', d4, k);
    lemma_split_cons(d2, ';', r34, k);
    lemma_split_cons(d1, ';', r234, k);
    assert(split(d1 + seq![';'] + r234, k) =~= seq![d1, d2, d3, d4]);
}

/// The `Pan;Pad;W;H` form of raster attributes.
#[verifier::spinoff_prover]
proof fn lemma_raster_four(a: Seq<char>, pan: u32, pad: u32, w: u32, h: u32, t: Seq<char>)
    requires
        !a.contains('"'),
        w > 0,
        h > 0,
        t.len() == 0 || (!crate::scan::is_digit(t[0]) && t[0] != ';'),
    ensures
        raster_text(a + seq!['"'] + decimal(pan as nat) + seq![';'] + decimal(pad as nat) + seq![';'] + decimal(
            w as nat,
        ) + seq![';'] + decimal(h as nat) + t) == Some((w, h)),
{
    let d1 = decimal(pan as nat);
    let d2 = decimal(pad as nat);
    let d3 = decimal(w as nat);
    let d4 = decimal(h as nat);
    let run4 = d1 + seq![';'] + (d2 + seq![';'] + (d3 + seq![';'] + d4));
    let s1 = a + seq!['"'] + d1 + seq![';'] + d2 + seq![';'] + d3 + seq![';'] + d4 + t;
    let s2 = a + seq!['"'] + run4 + t;
    assert(s1 == s2) by {
        assert(s1 =~= s2);
    }
    let vals = parse_nonempty(split(run4, Sep::Semicolon));
    assert(vals == seq![Some(pan), Some(pad), Some(w), Some(h)]) by {
        lemma_run_four(pan, pad, w, h);
        lemma_parse_four(pan, pad, w, h);
    }
    assert(raster_text(s2) == Some((w, h))) by {
        lemma_run_four(pan, pad, w, h);
        lemma_raster_run(a, run4, t);
    }
}

/// The `W;H` form of raster attributes.
proof fn lemma_raster_two(a: Seq<char>, w: u32, h: u32, t: Seq<char>)
    requires
        !a.contains('"'),
        w > 0,
        h > 0,
        t.len() == 0 || (!crate::scan::is_digit(t[0]) && t[0] != ';'),
    ensures
        raster_text(a + seq!['"'] + decimal(w as nat) + seq![';'] + decimal(h as nat) + t) == Some((w, h)),
{
    let k = Sep::Semicolon;
    let d3 = decimal(w as nat);
    let d4 = decimal(h as nat);
    lemma_decimal_run(w);
    lemma_decimal_run(h);
    let run2 = d3 + seq![';'] + d4;
    lemma_digit_run_join(d3, d4);
    lemma_raster_run(a, run2, t);
    lemma_split_single(d4, k);
    lemma_split_cons(d3, ';', d4, k);
    assert(split(run2, k) =~= seq![d3, d4]);
    lemma_parse_two(w, h);
    assert(a + seq!['"'] + d3 + seq![';'] + d4 + t =~= a + seq!['"'] + run2 + t);
}

/// Sixel raster attributes give the image's size: after any text without a
/// quote, `"Pan;Pad;W;H` or `"W;H` followed by a character that is neither
/// a digit nor `;` (or by nothing) gives width `W` and height `H` when both
/// are positive.
pub proof fn law_sixel_raster_size(a: Seq<char>, pan: u32, pad: u32, w: u32, h: u32, t: Seq<char>)
    requires
        !a.contains('"'),
        w > 0,
        h > 0,
        t.len() == 0 || (!crate::scan::is_digit(t[0]) && t[0] != ';'),
    ensures
        raster_text(a + seq!['"'] + decimal(pan as nat) + seq![';'] + decimal(pad as nat) + seq![';'] + decimal(
            w as nat,
        ) + seq![';'] + decimal(h as nat) + t) == Some((w, h)),
        raster_text(a + seq!['"'] + decimal(w as nat) + seq![';'] + decimal(h as nat) + t) == Some((w, h)),
{
    lemma_raster_four(a, pan, pad, w, h, t);
    lemma_raster_two(a, w, h, t);
}

/// Kitty dimensions in raw bytes, which must be valid UTF-8.
pub open spec fn kitty_bytes(data: Seq<u8>) -> Option<(u32, u32)> {
    if valid_utf8(data) {
        kitty_text(decode_utf8(data))
    } else {
        None
    }
}

/// iTerm2 inline image parameters: parts separated by `;`, keys `width` and
/// `height`, values with a `px` suffix allowed and `auto` ignored.
pub open spec fn iterm2_text(s: Seq<char>) -> Option<(u32, u32)> {
    let st = key_fold(
        split(s, Sep::Semicolon),
        seq!['w', 'i', 'd', 't', 'h'],
        seq!['h', 'e', 'i', 'g', 'h', 't'],
        true,
        (None, None),
    );
    positive_pair(st.0, st.1)
}

/// iTerm2 dimensions in raw bytes, which must be valid UTF-8.
pub open spec fn iterm2_bytes(data: Seq<u8>) -> Option<(u32, u32)> {
    if valid_utf8(data) {
        iterm2_text(decode_utf8(data))
    } else {
        None
    }
}

/// The pair when both are present and non-zero.
pub fn positive_pair_exec(w: Option<u32>, h: Option<u32>) -> (r: Option<(u32, u32)>)
    ensures
        r == positive_pair(w, h),
{
    match (w, h) {
        (Some(a), Some(b)) => if a > 0 && b > 0 {
            Some((a, b))
        } else {
            None
        },
        _ => None,
    }
}

/// The parsed values of the non-empty `;`-separated parts of `v`.
pub fn parse_semicolon_parts(v: &Vec<char>) -> (r: Vec<Option<u32>>)
    ensures
        r@ == parse_nonempty(split(v@, Sep::Semicolon)),
{
    let ghost total = parse_nonempty(split(v@, Sep::Semicolon));
    let mut out: Vec<Option<u32>> = Vec::new();
    let mut i: usize = 0;
    loop
        invariant
            i <= v@.len(),
            total == parse_nonempty(split(v@, Sep::Semicolon)),
            out@ + parse_nonempty(split_from(v@, i as int, Sep::Semicolon)) == total,
        decreases v@.len() - i,
    {
        let j = next_sep_index(v, i, Sep::Semicolon);
        let ghost rest = split_from(v@, i as int, Sep::Semicolon);
        let ghost part = v@.subrange(i as int, j as int);
        if j >= v.len() {
            assert(rest =~= seq![part]);
        } else {
            assert(rest =~= seq![part] + split_from(v@, j + 1, Sep::Semicolon));
        }
        assert(rest[0] == part);
        assert(rest.drop_first() =~= (if j >= v.len() {
            Seq::<Seq<char>>::empty()
        } else {
            split_from(v@, j + 1, Sep::Semicolon)
        }));
        if j > i {
            let val = parse_u32_range(v, i, j);
            out.push(val);
        }
        if j >= v.len() {
            assert(parse_nonempty(Seq::<Seq<char>>::empty()) =~= Seq::<Option<u32>>::empty());
            assert(out@ =~= total);
            return out;
        }
        i = j + 1;
    }
}

/// Sixel raster attributes from text.
pub fn raster_from_chars(s: &Vec<char>) -> (r: Option<(u32, u32)>)
    ensures
        r == raster_text(s@),
{
    let q = next_sep_index(s, 0, Sep::Quote);
    if q >= s.len() {
        return None;
    }
    let e = next_sep_index(s, q + 1, Sep::NotDigitOrSemicolon);
    let part = copy_range(s, q + 1, e);
    let vals = parse_semicolon_parts(&part);
    if vals.len() == 4 {
        positive_pair_exec(vals[2], vals[3])
    } else if vals.len() == 2 {
        positive_pair_exec(vals[0], vals[1])
    } else {
        None
    }
}

/// Sixel raster attributes (`"Pan;Pad;Ph;Pv` or `"Ph;Pv`) from raw DCS data.
pub fn raster_attributes(data: &[u8]) -> (r: Option<(u32, u32)>)
    ensures
        r == raster_bytes(data@),
{
    match decode_chars(data) {
        Some(v) => raster_from_chars(&v),
        None => None,
    }
}

/// One `key=value` step over the part `p`.
pub fn key_step_exec(
    p: &Vec<char>,
    wkey: &Vec<char>,
    hkey: &Vec<char>,
    units: bool,
    st: (Option<u32>, Option<u32>),
) -> (r: (Option<u32>, Option<u32>))
    ensures
        r == key_step(p@, wkey@, hkey@, units, st),
{
    let e = next_sep_index(p, 0, Sep::Equals);
    if e >= p.len() {
        return st;
    }
    let (ka, kb) = trim_range(p, 0, e);
    let (va, vb0) = trim_range(p, e + 1, p.len());
    let vb = if units {
        let ghost raw = p@.subrange(va as int, vb0 as int);
        let b = strip_px_range(p, va, vb0);
        b
    } else {
        vb0
    };
    let auto_word: Vec<char> = vec!['a', 'u', 't', 'o'];
    assert(auto_word@ =~= seq!['a', 'u', 't', 'o']);
    if units && range_eq(p, va, vb, &auto_word) {
        st
    } else if range_eq(p, ka, kb, wkey) {
        (parse_u32_range(p, va, vb), st.1)
    } else if range_eq(p, ka, kb, hkey) {
        (st.0, parse_u32_range(p, va, vb))
    } else {
        st
    }
}

/// Applies `key_step` to each part of `s` cut at separators of class `k`.
pub fn key_scan(s: &Vec<char>, k: Sep, wkey: &Vec<char>, hkey: &Vec<char>, units: bool) -> (r: (
    Option<u32>,
    Option<u32>,
))
    ensures
        r == key_fold(split(s@, k), wkey@, hkey@, units, (None, None)),
{
    let ghost total = key_fold(split(s@, k), wkey@, hkey@, units, (None, None));
    let mut st: (Option<u32>, Option<u32>) = (None, None);
    let mut i: usize = 0;
    loop
        invariant
            i <= s@.len(),
            total == key_fold(split(s@, k), wkey@, hkey@, units, (None, None)),
            key_fold(split_from(s@, i as int, k), wkey@, hkey@, units, st) == total,
        decreases s@.len() - i,
    {
        let j = next_sep_index(s, i, k);
        let ghost rest = split_from(s@, i as int, k);
        let part = copy_range(s, i, j);
        if j >= s.len() {
            assert(rest =~= seq![part@]);
        } else {
            assert(rest =~= seq![part@] + split_from(s@, j + 1, k));
        }
        assert(rest[0] == part@);
        assert(rest.drop_first() =~= (if j >= s.len() {
            Seq::<Seq<char>>::empty()
        } else {
            split_from(s@, j + 1, k)
        }));
        let ghost old_st = st;
        st = key_step_exec(&part, wkey, hkey, units, st);
        assert(key_fold(rest, wkey@, hkey@, units, old_st) == key_fold(
            rest.drop_first(),
            wkey@,
            hkey@,
            units,
            st,
        ));
        if j >= s.len() {
            assert(key_fold(Seq::<Seq<char>>::empty(), wkey@, hkey@, units, st) == st);
            return st;
        }
        i = j + 1;
    }
}

/// Kitty graphics dimensions (`w=` and `h=` keys) from raw APC data.
pub fn kitty_dimensions(data: &[u8]) -> (r: Option<(u32, u32)>)
    ensures
        r == kitty_bytes(data@),
{
    match decode_chars(data) {
        Some(v) => {
            let wkey: Vec<char> = vec!['w'];
            let hkey: Vec<char> = vec!['h'];
            assert(wkey@ =~= seq!['w']);
            assert(hkey@ =~= seq!['h']);
            let st = key_scan(&v, Sep::CommaOrSemicolon, &wkey, &hkey, false);
            positive_pair_exec(st.0, st.1)
        },
        None => None,
    }
}

/// iTerm2 image dimensions (`width=` and `height=` parameters) from raw OSC data.
pub fn iterm2_dimensions(data: &[u8]) -> (r: Option<(u32, u32)>)
    ensures
        r == iterm2_bytes(data@),
{
    match decode_chars(data) {
        Some(v) => {
            let wkey: Vec<char> = vec!['w', 'i', 'd', 't', 'h'];
            let hkey: Vec<char> = vec!['h', 'e', 'i', 'g', 'h', 't'];
            assert(wkey@ =~= seq!['w', 'i', 'd', 't', 'h']);
            assert(hkey@ =~= seq!['h', 'e', 'i', 'g', 'h', 't']);
            let st = key_scan(&v, Sep::Semicolon, &wkey, &hkey, true);
            positive_pair_exec(st.0, st.1)
        },
        None => None,
    }
}

/// Cells covered by `px` pixels at `per` pixels per cell, rounded up and
/// truncated to 16 bits.
pub open spec fn cells_for(px: u32, per: u32) -> u16 {
    if px > 0 {
        ((px + per - 1) / (per as int)) as u16
    } else {
        0
    }
}

/// Converts pixel dimensions to cells at 8 pixels per column and 6 per row,
/// rounding up.
pub fn pixels_to_cells(width_px: u32, height_px: u32) -> (r: (u16, u16))
    requires
        width_px <= u32::MAX - 7,
        height_px <= u32::MAX - 5,
    ensures
        r == (cells_for(width_px, 8), cells_for(height_px, 6)),
{
    let cols: u16 = if width_px > 0 {
        ((width_px + 7) / 8) as u16
    } else {
        0
    };
    let rows: u16 = if height_px > 0 {
        ((height_px + 5) / 6) as u16
    } else {
        0
    };
    (cols, rows)
}

} // verus!
