//! Golden files: a screen's text saved with a small header (test name,
//! size, time) and compared against later runs, with a line diff of the
//! differences.

use vstd::prelude::*;
use crate::error::TermTestError;
use crate::scan::{
    all_digits, digit_value, digits_value, has_prefix, is_sep, lemma_digits_push, lemma_next_sep_bounds,
    lines_from, next_sep, next_sep_index, parse_digits, parse_u32, parse_u32_range, starts_with, str_chars,
    strip_cr, text_lines, text_lines_of, Sep,
};
use crate::screen::{occurs_in, seq_contains, ScreenState, screen_text};
use crate::text::{decimal, decimal_chars, digit_char, push_char, push_decimal};
use similar::{ChangeTag, TextDiff};

verus! {

/// The first line of a golden file header.
pub open spec fn header_start() -> Seq<char> {
    "--- GOLDEN FILE ---"@
}

/// The line that separates the header from the content.
pub open spec fn content_start() -> Seq<char> {
    "--- CONTENT ---"@
}

/// The header of a golden file.
#[derive(Debug, Clone)]
pub struct GoldenMetadata {
    /// Test name.
    pub test_name: String,
    /// Terminal width.
    pub width: u16,
    /// Terminal height.
    pub height: u16,
    /// When the file was written.
    pub timestamp: String,
}

/// The seconds since the Unix epoch now, or `None` when the clock is set
/// before it. Nothing is stated of the result: it is the time.
#[verifier::external_body]
fn unix_seconds_now() -> Option<u64> {
    std::time::SystemTime::now().duration_since(std::time::UNIX_EPOCH).ok().map(|d| d.as_secs())
}

/// What `chrono::DateTime::<Utc>::from_timestamp(secs, 0)` formatted with
/// `fmt` gives: `None` where the time is out of chrono's range.
pub uninterp spec fn utc_text(secs: i64, fmt: Seq<char>) -> Option<Seq<char>>;

/// The ISO 8601 format of golden file timestamps.
pub open spec fn iso_format() -> Seq<char> {
    "%Y-%m-%dT%H:%M:%SZ"@
}

/// `chrono::DateTime::<Utc>::from_timestamp` and `format`. Trusted: the
/// text is named by `utc_text`; the one format used is valid.
#[verifier::external_body]
fn utc_format(secs: i64, fmt: &str) -> (r: Option<String>)
    requires
        fmt@ == iso_format(),
    ensures
        r is Some <==> utc_text(secs, fmt@) is Some,
        r matches Some(t) ==> t@ == utc_text(secs, fmt@)->Some_0,
{
    chrono::DateTime::<chrono::Utc>::from_timestamp(secs, 0).map(|d| d.format(fmt).to_string())
}

/// The timestamp text of a time in seconds since the epoch: ISO 8601 in
/// UTC, or the seconds and `s` where chrono cannot place it, or `unknown`
/// when there is no time.
pub open spec fn timestamp_text(now: Option<u64>) -> Seq<char> {
    match now {
        None => "unknown"@,
        Some(secs) => match utc_text(secs as i64, iso_format()) {
            Some(t) => t,
            None => decimal(secs as nat) + "s"@,
        },
    }
}

/// The timestamp text of `secs` from its UTC rendering: the rendering when
/// there is one, else the seconds followed by `s`.
pub fn timestamp_of_utc(utc: Option<String>, secs: u64) -> (r: String)
    ensures
        r@ == match utc {
            Some(t) => t@,
            None => decimal(secs as nat) + "s"@,
        },
{
    match utc {
        Some(t) => t,
        None => {
            let mut r = String::new();
            push_decimal(&mut r, secs);
            r.append("s");
            r
        },
    }
}

/// The timestamp text of a time in seconds since the epoch.
pub fn timestamp_from(now: Option<u64>) -> (r: String)
    ensures
        r@ == timestamp_text(now),
{
    match now {
        None => String::from_str("unknown"),
        Some(secs) => {
            let utc = utc_format(#[verifier::truncate] (secs as i64), "%Y-%m-%dT%H:%M:%SZ");
            timestamp_of_utc(utc, secs)
        },
    }
}

/// The header text: start line, `test:`, `size: WxH`, `timestamp:`.
pub open spec fn header_text(name: Seq<char>, width: u16, height: u16, timestamp: Seq<char>) -> Seq<char> {
    header_start() + "\ntest: "@ + name + "\nsize: "@ + decimal(width as nat) + "x"@ + decimal(
        height as nat,
    ) + "\ntimestamp: "@ + timestamp + "\n"@
}

/// The fields read from header lines: test name, width, height, timestamp.
pub type HeaderFields = (Seq<char>, u16, u16, Seq<char>);

/// A 16-bit number as `u16::from_str` reads it.
pub open spec fn parse_u16(s: Seq<char>) -> Option<u16> {
    match parse_u32(s) {
        Some(n) => if n <= 65535 {
            Some(n as u16)
        } else {
            None
        },
        None => None,
    }
}

/// One header line read into the fields: `test: `, `size: WxH` (both
/// numbers must read, else the header is refused; no `x` leaves the size),
/// `timestamp: `; other lines are ignored.
pub open spec fn header_step(st: HeaderFields, line: Seq<char>) -> Option<HeaderFields> {
    if has_prefix(line, "test: "@) {
        Some((line.subrange(6, line.len() as int), st.1, st.2, st.3))
    } else if has_prefix(line, "size: "@) {
        let v = line.subrange(6, line.len() as int);
        let x = next_sep(v, 0, Sep::LetterX);
        if x < v.len() {
            match (parse_u16(v.subrange(0, x)), parse_u16(v.subrange(x + 1, v.len() as int))) {
                (Some(w), Some(h)) => Some((st.0, w, h, st.3)),
                _ => None,
            }
        } else {
            Some(st)
        }
    } else if has_prefix(line, "timestamp: "@) {
        Some((st.0, st.1, st.2, line.subrange(11, line.len() as int)))
    } else {
        Some(st)
    }
}

/// The header lines read in order, from empty fields.
pub open spec fn header_fold(ls: Seq<Seq<char>>) -> Option<HeaderFields>
    decreases ls.len(),
{
    if ls.len() == 0 {
        Some((Seq::empty(), 0u16, 0u16, Seq::empty()))
    } else {
        match header_fold(ls.drop_last()) {
            Some(st) => header_step(st, ls.last()),
            None => None,
        }
    }
}

/// The fields of a header text: its first line must hold the start marker.
pub open spec fn parse_header(h: Seq<char>) -> Option<HeaderFields> {
    let ls = text_lines(h);
    if ls.len() == 0 || !occurs_in(ls[0], header_start()) {
        None
    } else {
        header_fold(ls.subrange(1, ls.len() as int))
    }
}

/// A string holding the characters `v[lo..hi]`.
fn string_of_range(v: &Vec<char>, lo: usize, hi: usize) -> (r: String)
    requires
        lo <= hi <= v@.len(),
    ensures
        r@ == v@.subrange(lo as int, hi as int),
{
    let part = crate::scan::copy_range(v, lo, hi);
    crate::scan::string_from_chars(&part)
}

/// Parses `v[lo..hi]` as a 16-bit number.
fn parse_u16_range(v: &Vec<char>, lo: usize, hi: usize) -> (r: Option<u16>)
    requires
        lo <= hi <= v@.len(),
    ensures
        r == parse_u16(v@.subrange(lo as int, hi as int)),
{
    match parse_u32_range(v, lo, hi) {
        Some(n) => if n <= 65535 {
            Some(n as u16)
        } else {
            None
        },
        None => None,
    }
}

impl GoldenMetadata {
    /// Metadata for a test, stamped with the current time.
    pub fn new(test_name: &str, width: u16, height: u16) -> (m: GoldenMetadata)
        ensures
            m.test_name@ == test_name@,
            m.width == width,
            m.height == height,
            exists|now: Option<u64>| m.timestamp@ == timestamp_text(now),
    {
        let now = unix_seconds_now();
        GoldenMetadata {
            test_name: String::from_str(test_name),
            width,
            height,
            timestamp: timestamp_from(now),
        }
    }

    /// The header text of the metadata.
    pub fn to_header(&self) -> (r: String)
        ensures
            r@ == header_text(self.test_name@, self.width, self.height, self.timestamp@),
    {
        let mut r = String::new();
        r.append("--- GOLDEN FILE ---");
        r.append("\ntest: ");
        r.append(self.test_name.as_str());
        r.append("\nsize: ");
        push_decimal(&mut r, self.width as u64);
        r.append("x");
        push_decimal(&mut r, self.height as u64);
        r.append("\ntimestamp: ");
        r.append(self.timestamp.as_str());
        r.append("\n");
        r
    }

    /// Reads metadata back from a header text; `None` when the first line
    /// lacks the start marker or a size does not read.
    pub fn from_header(header: &str) -> (r: Option<GoldenMetadata>)
        ensures
            r is Some <==> parse_header(header@) is Some,
            r matches Some(m) ==> (m.test_name@, m.width, m.height, m.timestamp@) == parse_header(
                header@,
            )->Some_0,
    {
        let lines = text_lines_of(header);
        let ghost ls = text_lines(header@);
        let ghost lv = |l: Vec<char>| l@;
        assert(lines@.map_values(lv) == ls);
        if lines.len() == 0 {
            return None;
        }
        let marker = str_chars("--- GOLDEN FILE ---");
        assert(lines@[0]@ == ls[0]);
        if !seq_contains(&lines[0], &marker) {
            return None;
        }
        let mut test_name: Vec<char> = Vec::new();
        let mut width: u16 = 0;
        let mut height: u16 = 0;
        let mut timestamp: Vec<char> = Vec::new();
        let mut i: usize = 1;
        let ghost rest = ls.subrange(1, ls.len() as int);
        while i < lines.len()
            invariant
                1 <= i <= lines@.len(),
                lines@.len() == ls.len(),
                ls == text_lines(header@),
                occurs_in(ls[0], header_start()),
                forall|k: int| 0 <= k < ls.len() ==> (#[trigger] lines@[k])@ == ls[k],
                rest == ls.subrange(1, ls.len() as int),
                header_fold(ls.subrange(1, i as int)) == Some::<HeaderFields>(
                    (test_name@, width, height, timestamp@),
                ),
            decreases lines@.len() - i,
        {
            let line = &lines[i];
            proof {
                reveal_strlit("test: ");
                reveal_strlit("size: ");
                reveal_strlit("timestamp: ");
            }
            assert(ls.subrange(1, i + 1).drop_last() =~= ls.subrange(1, i as int));
            assert(ls.subrange(1, i + 1).last() == line@);
            if starts_with(line, "test: ") {
                test_name = crate::scan::copy_range(line, 6, line.len());
            } else if starts_with(line, "size: ") {
                let v = crate::scan::copy_range(line, 6, line.len());
                let x = next_sep_index(&v, 0, Sep::LetterX);
                if x < v.len() {
                    let w = parse_u16_range(&v, 0, x);
                    let h = parse_u16_range(&v, x + 1, v.len());
                    match (w, h) {
                        (Some(w), Some(h)) => {
                            width = w;
                            height = h;
                        },
                        _ => {
                            proof {
                                assert(!has_prefix(line@, "test: "@));
                                assert(header_step((test_name@, width, height, timestamp@), line@) is None);
                                assert(header_fold(ls.subrange(1, i + 1)) is None);
                                assert(ls.subrange(1, ls.len() as int).subrange(0, i as int) =~= ls.subrange(
                                    1,
                                    i + 1,
                                ));
                                lemma_header_fold_stays_none(ls.subrange(1, ls.len() as int), i as int);
                            }
                            return None;
                        },
                    }
                }
            } else if starts_with(line, "timestamp: ") {
                timestamp = crate::scan::copy_range(line, 11, line.len());
            }
            i = i + 1;
        }
        assert(ls.subrange(1, i as int) =~= ls.subrange(1, ls.len() as int));
        Some(
            GoldenMetadata {
                test_name: crate::scan::string_from_chars(&test_name),
                width,
                height,
                timestamp: crate::scan::string_from_chars(&timestamp),
            },
        )
    }
}

/// Once the header is refused, later lines do not change that.
proof fn lemma_header_fold_stays_none(ls: Seq<Seq<char>>, n: int)
    requires
        0 <= n <= ls.len(),
        header_fold(ls.subrange(0, n)) is None,
    ensures
        header_fold(ls) is None,
    decreases ls.len() - n,
{
    if n < ls.len() {
        assert(ls.subrange(0, n + 1).drop_last() =~= ls.subrange(0, n));
        lemma_header_fold_stays_none(ls, n + 1);
    } else {
        assert(ls.subrange(0, n) =~= ls);
    }
}

/// A golden file: metadata and the screen text.
#[derive(Debug, Clone)]
pub struct GoldenFile {
    /// The header.
    pub metadata: GoldenMetadata,
    /// The screen text.
    pub content: String,
}

/// The first index at or after `i` where `needle` occurs in `hay`.
pub open spec fn find_from(hay: Seq<char>, needle: Seq<char>, i: int) -> Option<int>
    decreases hay.len() - i,
{
    if i < 0 || i + needle.len() > hay.len() {
        None
    } else if needle.len() == 0 || hay.subrange(i, i + needle.len()) == needle {
        Some(i)
    } else {
        find_from(hay, needle, i + 1)
    }
}

/// `s` without the line feeds it starts with.
pub open spec fn trim_leading_newlines(s: Seq<char>) -> Seq<char>
    decreases s.len(),
{
    if s.len() > 0 && s[0] == '\n' {
        trim_leading_newlines(s.drop_first())
    } else {
        s
    }
}

/// The text of a golden file: header, content marker, a line feed, content.
pub open spec fn golden_text(m: GoldenMetadata, content: Seq<char>) -> Seq<char> {
    header_text(m.test_name@, m.width, m.height, m.timestamp@) + content_start() + "\n"@ + content
}

/// The first index at or after `i` where `needle` occurs in `hay`.
fn find_text(hay: &Vec<char>, needle: &Vec<char>, i: usize) -> (r: Option<usize>)
    requires
        i <= hay@.len(),
    ensures
        r matches Some(p) ==> find_from(hay@, needle@, i as int) == Some(p as int),
        r is None ==> find_from(hay@, needle@, i as int) is None,
{
    let n = needle.len();
    if n > hay.len() - i {
        return None;
    }
    if n == 0 {
        return Some(i);
    }
    let mut k = i;
    while k <= hay.len() - n
        invariant
            i <= k,
            0 < n == needle@.len() <= hay@.len(),
            k <= hay@.len() - n + 1,
            find_from(hay@, needle@, i as int) == find_from(hay@, needle@, k as int),
        decreases hay@.len() - k,
    {
        if crate::scan::range_eq(hay, k, k + n, needle) {
            return Some(k);
        }
        k = k + 1;
    }
    None
}

impl GoldenFile {
    /// A golden file of a screen, stamped with the current time.
    pub fn from_screen_state(test_name: &str, state: &ScreenState) -> (g: GoldenFile)
        requires
            state.inv(),
        ensures
            g.metadata.test_name@ == test_name@,
            g.metadata.width == state.term().width,
            g.metadata.height == state.term().height,
            exists|now: Option<u64>| g.metadata.timestamp@ == timestamp_text(now),
            g.content@ == screen_text(state.term().grid),
    {
        let (width, height) = state.size();
        let metadata = GoldenMetadata::new(test_name, width, height);
        let content = state.contents();
        GoldenFile { metadata, content }
    }

    /// The text of the file.
    pub fn to_string(&self) -> (r: String)
        ensures
            r@ == golden_text(self.metadata, self.content@),
    {
        let mut r = self.metadata.to_header();
        r.append("--- CONTENT ---");
        r.append("\n");
        r.append(self.content.as_str());
        r
    }

    /// Reads a golden file back from its text: the header is what precedes
    /// the first content marker, the content what follows it, without
    /// leading line feeds.
    pub fn from_string(content: &str) -> (r: Result<GoldenFile, TermTestError>)
        ensures
            find_from(content@, content_start(), 0) is None ==> (r matches Err(TermTestError::Parse(m))
                && m@ == "Golden file missing content marker"@),
            find_from(content@, content_start(), 0) matches Some(p) ==> match parse_header(
                content@.subrange(0, p),
            ) {
                None => r matches Err(TermTestError::Parse(m)) && m@ == "Failed to parse golden file header"@,
                Some(f) => r matches Ok(g) && (g.metadata.test_name@, g.metadata.width, g.metadata.height,
                g.metadata.timestamp@) == f && g.content@ == trim_leading_newlines(
                    content@.subrange(p + content_start().len(), content@.len() as int),
                ),
            },
    {
        let t = str_chars(content);
        let marker = str_chars("--- CONTENT ---");
        let p = match find_text(&t, &marker, 0) {
            Some(p) => p,
            None => {
                return Err(TermTestError::Parse(String::from_str("Golden file missing content marker")));
            },
        };
        proof {
            assert(find_from(t@, marker@, 0) == Some(p as int));
            lemma_find_from_bounds(t@, marker@, 0);
            assert(p + marker@.len() <= t@.len());
        }
        let header = string_of_range(&t, 0, p);
        let metadata = match GoldenMetadata::from_header(header.as_str()) {
            Some(m) => m,
            None => {
                return Err(TermTestError::Parse(String::from_str("Failed to parse golden file header")));
            },
        };
        let tl = t.len();
        let ml = marker.len();
        assert(p + ml <= tl);
        let mut k = p + ml;
        proof {
            assert(t@.subrange(k as int, t@.len() as int) == t@.subrange(p + content_start().len(), t@.len() as int));
        }
        while k < t.len() && t[k] == '\n'
            invariant
                p + marker@.len() <= k <= t@.len(),
                trim_leading_newlines(t@.subrange(k as int, t@.len() as int)) == trim_leading_newlines(
                    t@.subrange(p + marker@.len(), t@.len() as int),
                ),
            decreases t@.len() - k,
        {
            assert(t@.subrange(k as int, t@.len() as int).drop_first() =~= t@.subrange(k + 1, t@.len() as int));
            k = k + 1;
        }
        let body = string_of_range(&t, k, t.len());
        Ok(GoldenFile { metadata, content: body })
    }

    /// `Ok` when the screen shows the golden content; otherwise a `Parse`
    /// error naming the test, with a line diff from golden to current.
    pub fn compare(&self, state: &ScreenState) -> (r: Result<(), TermTestError>)
        requires
            state.inv(),
        ensures
            r is Ok <==> self.content@ == screen_text(state.term().grid),
            r matches Err(e) ==> (e matches TermTestError::Parse(m) && m@ == "Golden file mismatch: "@
                + self.metadata.test_name@ + "\n"@ + diff_text(
                line_diff_groups(self.content@, screen_text(state.term().grid), 3),
            )),
    {
        let current = state.contents();
        if self.content == current {
            return Ok(());
        }
        let diff = generate_diff(self.content.as_str(), current.as_str());
        let mut m = String::new();
        m.append("Golden file mismatch: ");
        m.append(self.metadata.test_name.as_str());
        m.append("\n");
        m.append(diff.as_str());
        Err(TermTestError::Parse(m))
    }
}

/// A found occurrence lies inside the text and holds the needle.
proof fn lemma_find_from_bounds(hay: Seq<char>, needle: Seq<char>, i: int)
    ensures
        find_from(hay, needle, i) matches Some(p) ==> i <= p && p + needle.len() <= hay.len(),
    decreases hay.len() - i,
{
    if !(i < 0 || i + needle.len() > hay.len()) && !(needle.len() == 0 || hay.subrange(i, i + needle.len())
        == needle) {
        lemma_find_from_bounds(hay, needle, i + 1);
    }
}

/// A decimal rendering is a non-empty string of digits of that value.
pub(crate) proof fn lemma_decimal_digits(n: nat)
    ensures
        decimal(n).len() > 0,
        all_digits(decimal(n)),
        digits_value(decimal(n)) == n,
    decreases n,
{
    if n >= 10 {
        lemma_decimal_digits(n / 10);
        let c = digit_char(n % 10);
        assert(c as u32 == (n % 10) + 48);
        lemma_digits_push(decimal(n / 10), c);
        assert(decimal(n) == decimal(n / 10).push(c));
        assert(digit_value(c) == n % 10);
        assert(n == (n / 10) * 10 + n % 10);
        assert forall|i: int| 0 <= i < decimal(n).len() implies crate::scan::is_digit(#[trigger] decimal(n)[i]) by {
            if i < decimal(n / 10).len() {
                assert(decimal(n)[i] == decimal(n / 10)[i]);
            }
        }
    } else {
        let c = digit_char(n);
        assert(c as u32 == n + 48);
        assert(decimal(n) == seq![c]);
        assert(seq![c].drop_last() =~= Seq::<char>::empty());
        assert(digits_value(Seq::<char>::empty()) == 0);
        assert(digit_value(c) == n);
        assert(digits_value(seq![c]) == digits_value(seq![c].drop_last()) * 10 + digit_value(seq![c].last()));
    }
}

/// A 16-bit number reads back from its decimal rendering.
proof fn lemma_parse_u16_decimal(n: u16)
    ensures
        parse_u16(decimal(n as nat)) == Some(n),
{
    lemma_decimal_digits(n as nat);
    let d = decimal(n as nat);
    assert(crate::scan::is_digit(d[0]));
    assert(parse_digits(d) == Some(n as u32));
}

/// Each line followed by a line feed.
pub open spec fn joined_lines(ls: Seq<Seq<char>>) -> Seq<char>
    decreases ls.len(),
{
    if ls.len() == 0 {
        Seq::empty()
    } else {
        ls[0] + seq!['\n'] + joined_lines(ls.drop_first())
    }
}

/// A line a golden file can hold as it is: no line feed, no carriage
/// return at its end, and no content marker.
pub open spec fn header_safe(s: Seq<char>) -> bool {
    header_line_ok(s) && !occurs_in(s, content_start())
}

/// The separator search finds the first separator.
pub(crate) proof fn lemma_next_sep_first(s: Seq<char>, i: int, j: int, k: Sep)
    requires
        0 <= i <= j <= s.len(),
        forall|m: int| i <= m < j ==> !is_sep(k, #[trigger] s[m]),
        j < s.len() ==> is_sep(k, s[j]),
    ensures
        next_sep(s, i, k) == j,
    decreases j - i,
{
    if i < j {
        lemma_next_sep_first(s, i + 1, j, k);
    }
}

/// The separator search in a text after a prefix is the search in the text, shifted.
pub(crate) proof fn lemma_next_sep_shift(a: Seq<char>, r: Seq<char>, j: int, k: Sep)
    requires
        0 <= j <= r.len(),
    ensures
        next_sep(a + r, a.len() + j, k) == a.len() + next_sep(r, j, k),
    decreases r.len() - j,
{
    if j < r.len() {
        assert((a + r)[a.len() + j] == r[j]);
        if !is_sep(k, r[j]) {
            lemma_next_sep_shift(a, r, j + 1, k);
        }
    }
}

/// The lines of a text after a prefix are the lines of the text.
proof fn lemma_lines_shift(a: Seq<char>, r: Seq<char>, j: int)
    requires
        0 <= j <= r.len(),
    ensures
        lines_from(a + r, a.len() + j) == lines_from(r, j),
    decreases r.len() - j,
{
    let s = a + r;
    if j < r.len() {
        lemma_next_sep_shift(a, r, j, Sep::Newline);
        lemma_next_sep_bounds(r, j, Sep::Newline);
        let e = next_sep(r, j, Sep::Newline);
        assert(s.subrange(a.len() + j, a.len() + e) =~= r.subrange(j, e));
        assert(s.subrange(a.len() + j, s.len() as int) =~= r.subrange(j, r.len() as int));
        if e < r.len() {
            lemma_lines_shift(a, r, e + 1);
        }
    }
}

/// Lines without line feeds or final carriage returns come back as they were joined.
proof fn lemma_lines_of_joined(ls: Seq<Seq<char>>)
    requires
        forall|i: int| 0 <= i < ls.len() ==> header_line_ok(#[trigger] ls[i]),
    ensures
        text_lines(joined_lines(ls)) == ls,
    decreases ls.len(),
{
    if ls.len() > 0 {
        let l = ls[0];
        let rest = joined_lines(ls.drop_first());
        let s = joined_lines(ls);
        assert(s == l + seq!['\n'] + rest);
        assert(header_line_ok(ls[0]));
        assert forall|m: int| 0 <= m < l.len() implies !is_sep(Sep::Newline, #[trigger] s[m]) by {
            assert(s[m] == l[m]);
            assert(l.contains(l[m]));
        }
        assert(s[l.len() as int] == '\n');
        lemma_next_sep_first(s, 0, l.len() as int, Sep::Newline);
        assert(s.subrange(0, l.len() as int) =~= l);
        assert forall|i: int| 0 <= i < ls.drop_first().len() implies header_line_ok(#[trigger] ls.drop_first()[i]) by {
            assert(ls.drop_first()[i] == ls[i + 1]);
        }
        lemma_lines_of_joined(ls.drop_first());
        assert(l + seq!['\n'] + rest == (l + seq!['\n']) + rest);
        lemma_lines_shift(l + seq!['\n'], rest, 0);
        assert(lines_from(s, 0) =~= seq![l] + lines_from(s, (l.len() + 1) as int));
    } else {
        assert(joined_lines(ls) =~= Seq::<char>::empty());
    }
}

/// A line without line feeds whose end is not a carriage return.
pub open spec fn header_line_ok(l: Seq<char>) -> bool {
    !l.contains('\n') && !(l.len() > 0 && l.last() == '\r')
}

/// The four header lines of a golden file.
pub open spec fn header_lines(name: Seq<char>, width: u16, height: u16, timestamp: Seq<char>) -> Seq<Seq<char>> {
    seq![
        header_start(),
        "test: "@ + name,
        "size: "@ + decimal(width as nat) + "x"@ + decimal(height as nat),
        "timestamp: "@ + timestamp,
    ]
}

/// The header text is its four lines, each ended by a line feed.
proof fn lemma_header_text_lines(name: Seq<char>, width: u16, height: u16, timestamp: Seq<char>)
    ensures
        header_text(name, width, height, timestamp) == joined_lines(header_lines(name, width, height, timestamp)),
{
    let ls = header_lines(name, width, height, timestamp);
    reveal_with_fuel(joined_lines, 5);
    assert(ls.drop_first().drop_first().drop_first().drop_first() =~= Seq::<Seq<char>>::empty());
    assert(ls.drop_first()[0] == ls[1]);
    assert(ls.drop_first().drop_first()[0] == ls[2]);
    assert(ls.drop_first().drop_first().drop_first()[0] == ls[3]);
    reveal_strlit("\ntest: ");
    reveal_strlit("test: ");
    reveal_strlit("\nsize: ");
    reveal_strlit("size: ");
    reveal_strlit("\ntimestamp: ");
    reveal_strlit("timestamp: ");
    reveal_strlit("\n");
    assert("\ntest: "@ =~= seq!['\n'] + "test: "@);
    assert("\nsize: "@ =~= seq!['\n'] + "size: "@);
    assert("\ntimestamp: "@ =~= seq!['\n'] + "timestamp: "@);
    assert("\n"@ =~= seq!['\n']);
    assert(header_text(name, width, height, timestamp) =~= joined_lines(ls));
}

/// Every character of a decimal rendering is a digit.
pub(crate) proof fn lemma_decimal_char(n: nat, i: int)
    requires
        0 <= i < decimal(n).len(),
    ensures
        crate::scan::is_digit(decimal(n)[i]),
{
    lemma_decimal_digits(n);
}

/// The header lines of safe fields hold no line feed and end in no carriage return.
proof fn lemma_header_lines_ok(name: Seq<char>, width: u16, height: u16, timestamp: Seq<char>)
    requires
        header_line_ok(name),
        header_line_ok(timestamp),
    ensures
        forall|i: int| 0 <= i < 4 ==> header_line_ok(#[trigger] header_lines(name, width, height, timestamp)[i]),
{
    let ls = header_lines(name, width, height, timestamp);
    reveal_strlit("--- GOLDEN FILE ---");
    reveal_strlit("test: ");
    reveal_strlit("size: ");
    reveal_strlit("timestamp: ");
    reveal_strlit("x");
    let dw = decimal(width as nat);
    let dh = decimal(height as nat);
    lemma_decimal_digits(width as nat);
    lemma_decimal_digits(height as nat);
    assert forall|c: int| 0 <= c < ls[0].len() implies ls[0][c] != '\n' by {}
    assert(!ls[0].contains('\n'));
    assert forall|c: int| 0 <= c < ls[1].len() implies ls[1][c] != '\n' by {
        if c >= 6 {
            assert(ls[1][c] == name[c - 6]);
            assert(name.contains(name[c - 6]));
        }
    }
    assert(!ls[1].contains('\n'));
    assert(ls[1].len() > 0 && ls[1].last() != '\r') by {
        if name.len() > 0 {
            assert(ls[1].last() == name.last());
        }
    }
    assert forall|c: int| 0 <= c < ls[2].len() implies ls[2][c] != '\n' && ls[2][c] != '\r' by {
        if 6 <= c < 6 + dw.len() {
            assert(ls[2][c] == dw[c - 6]);
            lemma_decimal_char(width as nat, c - 6);
        } else if c >= 7 + dw.len() {
            assert(ls[2][c] == dh[c - 7 - dw.len()]);
            lemma_decimal_char(height as nat, c - 7 - dw.len());
        }
    }
    assert(!ls[2].contains('\n'));
    assert(ls[2].last() != '\r');
    assert forall|c: int| 0 <= c < ls[3].len() implies ls[3][c] != '\n' by {
        if c >= 11 {
            assert(ls[3][c] == timestamp[c - 11]);
            assert(timestamp.contains(timestamp[c - 11]));
        }
    }
    assert(!ls[3].contains('\n'));
    assert(ls[3].len() > 0 && ls[3].last() != '\r') by {
        if timestamp.len() > 0 {
            assert(ls[3].last() == timestamp.last());
        }
    }
}

/// The test line sets the name.
proof fn lemma_step_test(st: HeaderFields, name: Seq<char>)
    ensures
        header_step(st, "test: "@ + name) == Some((name, st.1, st.2, st.3)),
{
    reveal_strlit("test: ");
    let l1 = "test: "@ + name;
    assert(l1.subrange(0, 6) =~= "test: "@);
    assert(l1.subrange(6, l1.len() as int) =~= name);
}

/// The size line sets width and height.
proof fn lemma_step_size(st: HeaderFields, width: u16, height: u16)
    ensures
        header_step(st, "size: "@ + decimal(width as nat) + "x"@ + decimal(height as nat)) == Some(
            (st.0, width, height, st.3),
        ),
{
    reveal_strlit("test: ");
    reveal_strlit("size: ");
    reveal_strlit("x");
    let dw = decimal(width as nat);
    let dh = decimal(height as nat);
    let l2 = "size: "@ + dw + "x"@ + dh;
    assert(l2.subrange(0, 6)[0] != "test: "@[0]);
    assert(!has_prefix(l2, "test: "@));
    assert(l2.subrange(0, 6) =~= "size: "@);
    let v = l2.subrange(6, l2.len() as int);
    assert(v =~= dw + "x"@ + dh);
    lemma_decimal_digits(width as nat);
    lemma_decimal_digits(height as nat);
    assert forall|m: int| 0 <= m < dw.len() implies !is_sep(Sep::LetterX, #[trigger] v[m]) by {
        assert(v[m] == dw[m]);
        lemma_decimal_char(width as nat, m);
    }
    assert(v[dw.len() as int] == 'x');
    lemma_next_sep_first(v, 0, dw.len() as int, Sep::LetterX);
    assert(v.subrange(0, dw.len() as int) =~= dw);
    assert(v.subrange((dw.len() + 1) as int, v.len() as int) =~= dh);
    lemma_parse_u16_decimal(width);
    lemma_parse_u16_decimal(height);
}

/// The time stamp line sets the time stamp.
proof fn lemma_step_time(st: HeaderFields, timestamp: Seq<char>)
    ensures
        header_step(st, "timestamp: "@ + timestamp) == Some((st.0, st.1, st.2, timestamp)),
{
    reveal_strlit("test: ");
    reveal_strlit("size: ");
    reveal_strlit("timestamp: ");
    let l3 = "timestamp: "@ + timestamp;
    assert(l3.subrange(0, 6)[1] != "test: "@[1]);
    assert(!has_prefix(l3, "test: "@));
    assert(l3.subrange(0, 6)[0] != "size: "@[0]);
    assert(!has_prefix(l3, "size: "@));
    assert(l3.subrange(0, 11) =~= "timestamp: "@);
    assert(l3.subrange(11, l3.len() as int) =~= timestamp);
}

/// The lines of the header text of safe fields are its four lines.
proof fn lemma_header_text_split(name: Seq<char>, width: u16, height: u16, timestamp: Seq<char>)
    requires
        header_line_ok(name),
        header_line_ok(timestamp),
    ensures
        text_lines(header_text(name, width, height, timestamp)) == header_lines(name, width, height, timestamp),
{
    let ls = header_lines(name, width, height, timestamp);
    lemma_header_text_lines(name, width, height, timestamp);
    lemma_header_lines_ok(name, width, height, timestamp);
    assert forall|i: int| 0 <= i < ls.len() implies header_line_ok(#[trigger] ls[i]) by {}
    lemma_lines_of_joined(ls);
}

/// Three lines read in order from empty fields, each step as given.
proof fn lemma_fold_three(
    l1: Seq<char>,
    l2: Seq<char>,
    l3: Seq<char>,
    st1: HeaderFields,
    st2: HeaderFields,
    st3: HeaderFields,
)
    requires
        header_step((Seq::empty(), 0u16, 0u16, Seq::empty()), l1) == Some(st1),
        header_step(st1, l2) == Some(st2),
        header_step(st2, l3) == Some(st3),
    ensures
        header_fold(seq![l1, l2, l3]) == Some(st3),
{
    let st0: HeaderFields = (Seq::empty(), 0u16, 0u16, Seq::empty());
    assert(header_fold(Seq::<Seq<char>>::empty()) == Some(st0));
    assert(seq![l1].drop_last() =~= Seq::<Seq<char>>::empty());
    assert(header_fold(seq![l1]) == Some(st1));
    assert(seq![l1, l2].drop_last() =~= seq![l1]);
    assert(header_fold(seq![l1, l2]) == Some(st2));
    assert(seq![l1, l2, l3].drop_last() =~= seq![l1, l2]);
}

/// The three lines after the first read as the fields they were written from.
proof fn lemma_header_fold_lines(name: Seq<char>, width: u16, height: u16, timestamp: Seq<char>)
    ensures
        header_fold(header_lines(name, width, height, timestamp).subrange(1, 4)) == Some(
            (name, width, height, timestamp),
        ),
{
    let ls = header_lines(name, width, height, timestamp);
    let st0: HeaderFields = (Seq::empty(), 0u16, 0u16, Seq::empty());
    let st1: HeaderFields = (name, 0u16, 0u16, Seq::empty());
    let st2: HeaderFields = (name, width, height, Seq::empty());
    lemma_step_test(st0, name);
    lemma_step_size(st1, width, height);
    lemma_step_time(st2, timestamp);
    lemma_fold_three(ls[1], ls[2], ls[3], st1, st2, (name, width, height, timestamp));
    assert(ls.subrange(1, 4) =~= seq![ls[1], ls[2], ls[3]]);
}

/// What a golden file header is read back as: the header written for a
/// test name and time stamp without line feeds or final carriage returns
/// reads back as the same name, size and time stamp.
pub proof fn law_header_roundtrip(m: GoldenMetadata)
    requires
        header_line_ok(m.test_name@),
        header_line_ok(m.timestamp@),
    ensures
        parse_header(header_text(m.test_name@, m.width, m.height, m.timestamp@)) == Some(
            (m.test_name@, m.width, m.height, m.timestamp@),
        ),
{
    lemma_parse_header_text(m.test_name@, m.width, m.height, m.timestamp@);
}

/// The header of safe fields reads back as those fields.
proof fn lemma_parse_header_text(name: Seq<char>, width: u16, height: u16, timestamp: Seq<char>)
    requires
        header_line_ok(name),
        header_line_ok(timestamp),
    ensures
        parse_header(header_text(name, width, height, timestamp)) == Some((name, width, height, timestamp)),
{
    let ls = header_lines(name, width, height, timestamp);
    lemma_header_text_split(name, width, height, timestamp);
    lemma_header_fold_lines(name, width, height, timestamp);
    assert(ls[0].subrange(0, 0 + header_start().len() as int) =~= header_start());
    assert(occurs_in(ls[0], header_start()));
}

/// The search finds the first occurrence at or after `i`.
proof fn lemma_find_from_first(hay: Seq<char>, needle: Seq<char>, i: int, p: int)
    requires
        0 <= i <= p,
        p + needle.len() <= hay.len(),
        hay.subrange(p, p + needle.len()) == needle,
        forall|j: int| i <= j < p ==> #[trigger] hay.subrange(j, j + needle.len()) != needle,
    ensures
        find_from(hay, needle, i) == Some(p),
    decreases p - i,
{
    if i < p {
        assert(hay.subrange(i, i + needle.len()) != needle);
        if needle.len() == 0 {
            assert(hay.subrange(i, i) =~= needle);
        }
        lemma_find_from_first(hay, needle, i + 1, p);
    }
}

/// The content marker is not in the first header line.
proof fn lemma_marker_not_in_start()
    ensures
        !occurs_in(header_start(), content_start()),
{
    reveal_strlit("--- GOLDEN FILE ---");
    reveal_strlit("--- CONTENT ---");
    let hs = header_start();
    let c = content_start();
    if occurs_in(hs, c) {
        let i = choose|i: int| 0 <= i && i + c.len() <= hs.len() && #[trigger] hs.subrange(i, i + c.len()) == c;
        assert(hs.subrange(i, i + c.len())[4] == c[4]);
        assert(false);
    }
}

/// A prefix without dashes before a text without the content marker keeps it out.
proof fn lemma_marker_not_after_prefix(p: Seq<char>, t: Seq<char>)
    requires
        forall|k: int| 0 <= k < p.len() ==> #[trigger] p[k] != '-',
        !occurs_in(t, content_start()),
    ensures
        !occurs_in(p + t, content_start()),
{
    reveal_strlit("--- CONTENT ---");
    let c = content_start();
    let s = p + t;
    if occurs_in(s, c) {
        let i = choose|i: int| 0 <= i && i + c.len() <= s.len() && #[trigger] s.subrange(i, i + c.len()) == c;
        if i < p.len() {
            assert(s.subrange(i, i + c.len())[0] == s[i]);
            assert(s[i] == p[i]);
            assert(false);
        } else {
            assert(s.subrange(i, i + c.len()) =~= t.subrange(i - p.len(), i - p.len() + c.len()));
            assert(false);
        }
    }
}

/// Before the end of lines that neither hold the marker nor a line feed,
/// no window of the text, whatever follows them, is the marker.
proof fn lemma_marker_not_in_lines(ls: Seq<Seq<char>>, r: Seq<char>, j: int)
    requires
        forall|k: int| 0 <= k < ls.len() ==> !occurs_in(#[trigger] ls[k], content_start()),
        forall|k: int| 0 <= k < ls.len() ==> !(#[trigger] ls[k]).contains('\n'),
        0 <= j < joined_lines(ls).len(),
        j + content_start().len() <= (joined_lines(ls) + r).len(),
    ensures
        (joined_lines(ls) + r).subrange(j, j + content_start().len()) != content_start(),
    decreases ls.len(),
{
    reveal_strlit("--- CONTENT ---");
    let c = content_start();
    let l = ls[0];
    let rest = joined_lines(ls.drop_first());
    let s = joined_lines(ls) + r;
    assert(s =~= l + (seq!['\n'] + (rest + r)));
    let w = s.subrange(j, j + c.len());
    assert(!occurs_in(l, c));
    assert(!l.contains('\n'));
    if j + c.len() <= l.len() {
        assert(w =~= l.subrange(j, j + c.len()));
    } else if j <= l.len() {
        assert(s[l.len() as int] == '\n');
        assert(w[l.len() - j] == '\n');
        assert(c[l.len() - j] != '\n');
    } else {
        assert forall|k: int| 0 <= k < ls.drop_first().len() implies !occurs_in(
            #[trigger] ls.drop_first()[k],
            c,
        ) && !ls.drop_first()[k].contains('\n') by {
            assert(ls.drop_first()[k] == ls[k + 1]);
        }
        let j2 = j - l.len() - 1;
        assert(s.subrange(j, j + c.len()) =~= (rest + r).subrange(j2, j2 + c.len()));
        lemma_marker_not_in_lines(ls.drop_first(), r, j2);
    }
}

/// The header lines of safe fields do not hold the content marker.
proof fn lemma_header_lines_no_marker(name: Seq<char>, width: u16, height: u16, timestamp: Seq<char>)
    requires
        header_safe(name),
        header_safe(timestamp),
    ensures
        forall|k: int| 0 <= k < 4 ==> !occurs_in(#[trigger] header_lines(name, width, height, timestamp)[k], content_start()),
{
    reveal_strlit("test: ");
    reveal_strlit("size: ");
    reveal_strlit("timestamp: ");
    reveal_strlit("x");
    let ls = header_lines(name, width, height, timestamp);
    lemma_marker_not_in_start();
    lemma_marker_not_after_prefix("test: "@, name);
    lemma_marker_not_after_prefix("timestamp: "@, timestamp);
    let dw = decimal(width as nat);
    let dh = decimal(height as nat);
    let l2 = "size: "@ + dw + "x"@ + dh;
    assert forall|k: int| 0 <= k < l2.len() implies #[trigger] l2[k] != '-' by {
        if 6 <= k < 6 + dw.len() {
            assert(l2[k] == dw[k - 6]);
            lemma_decimal_char(width as nat, k - 6);
        } else if k >= 7 + dw.len() {
            assert(l2[k] == dh[k - 7 - dw.len()]);
            lemma_decimal_char(height as nat, k - 7 - dw.len());
        }
    }
    reveal_strlit("--- CONTENT ---");
    assert(!occurs_in(Seq::<char>::empty(), content_start()));
    assert(l2 + Seq::<char>::empty() =~= l2);
    lemma_marker_not_after_prefix(l2, Seq::<char>::empty());
    assert(ls[1] == "test: "@ + name);
    assert(ls[2] == l2);
    assert(ls[3] == "timestamp: "@ + timestamp);
}

/// A text that does not start with a line feed loses nothing to the trim.
proof fn lemma_trim_one_newline(content: Seq<char>)
    requires
        !(content.len() > 0 && content[0] == '\n'),
    ensures
        trim_leading_newlines(seq!['\n'] + content) == content,
{
    assert((seq!['\n'] + content).drop_first() =~= content);
    assert(trim_leading_newlines(content) == content);
}

/// What a golden file is read back as: the text written for safe fields and
/// a content that does not start with a line feed is found to have its
/// content marker right after the header, its header reads back as the
/// fields, and the content after the marker is the content written.
pub proof fn law_golden_roundtrip(g: GoldenFile)
    requires
        header_safe(g.metadata.test_name@),
        header_safe(g.metadata.timestamp@),
        !(g.content@.len() > 0 && g.content@[0] == '\n'),
    ensures
        ({
            let t = golden_text(g.metadata, g.content@);
            let h = header_text(g.metadata.test_name@, g.metadata.width, g.metadata.height, g.metadata.timestamp@);
            &&& find_from(t, content_start(), 0) == Some(h.len() as int)
            &&& parse_header(t.subrange(0, h.len() as int)) == Some(
                (g.metadata.test_name@, g.metadata.width, g.metadata.height, g.metadata.timestamp@),
            )
            &&& trim_leading_newlines(t.subrange((h.len() + content_start().len()) as int, t.len() as int)) == g.content@
        }),
{
    reveal_strlit("--- CONTENT ---");
    reveal_strlit("\n");
    let name = g.metadata.test_name@;
    let ts = g.metadata.timestamp@;
    let w = g.metadata.width;
    let hg = g.metadata.height;
    let content = g.content@;
    let c = content_start();
    let t = golden_text(g.metadata, content);
    let h = header_text(name, w, hg, ts);
    let r = c + "\n"@ + content;
    assert(t =~= h + r);
    // The header comes back.
    assert(t.subrange(0, h.len() as int) =~= h);
    lemma_parse_header_text(name, w, hg, ts);
    // The marker is found right after the header.
    let ls = header_lines(name, w, hg, ts);
    lemma_header_text_lines(name, w, hg, ts);
    lemma_header_lines_ok(name, w, hg, ts);
    lemma_header_lines_no_marker(name, w, hg, ts);
    assert forall|k: int| 0 <= k < ls.len() implies !occurs_in(#[trigger] ls[k], c) && !ls[k].contains('\n') by {
        assert(header_line_ok(ls[k]));
    }
    assert forall|j: int| 0 <= j < h.len() implies #[trigger] t.subrange(j, j + c.len()) != c by {
        lemma_marker_not_in_lines(ls, r, j);
    }
    assert(t.subrange(h.len() as int, (h.len() + c.len()) as int) =~= c);
    lemma_find_from_first(t, c, 0, h.len() as int);
    // The content comes back.
    assert(t.subrange((h.len() + c.len()) as int, t.len() as int) =~= seq!['\n'] + content);
    lemma_trim_one_newline(content);
}

/// The kind of a diff line.
#[derive(Debug, Clone, Copy, PartialEq, Eq, Structural)]
pub enum DiffTag {
    /// The line is in both texts.
    Equal,
    /// The line is only in the expected text.
    Delete,
    /// The line is only in the actual text.
    Insert,
}

/// One line of a diff operation.
#[derive(Debug)]
pub struct DiffLine {
    /// Its kind.
    pub tag: DiffTag,
    /// The line, with its line feed if it had one.
    pub value: String,
}

/// A diff operation as a value.
pub struct DiffOpView {
    /// First line of the range in the expected text (0-based).
    pub old_start: usize,
    /// Number of lines of the range in the expected text.
    pub old_len: usize,
    /// First line of the range in the actual text (0-based).
    pub new_start: usize,
    /// Number of lines of the range in the actual text.
    pub new_len: usize,
    /// The lines of the operation.
    pub lines: Seq<(DiffTag, Seq<char>)>,
}

/// A diff operation: line ranges in the expected and actual texts, and its lines.
#[derive(Debug)]
pub struct DiffOp {
    /// First line of the range in the expected text (0-based).
    pub old_start: usize,
    /// Number of lines of the range in the expected text.
    pub old_len: usize,
    /// First line of the range in the actual text (0-based).
    pub new_start: usize,
    /// Number of lines of the range in the actual text.
    pub new_len: usize,
    /// The lines of the operation.
    pub lines: Vec<DiffLine>,
}

impl View for DiffOp {
    type V = DiffOpView;

    open spec fn view(&self) -> DiffOpView {
        DiffOpView {
            old_start: self.old_start,
            old_len: self.old_len,
            new_start: self.new_start,
            new_len: self.new_len,
            lines: self.lines@.map_values(|l: DiffLine| (l.tag, l.value@)),
        }
    }
}

/// What the `similar` crate's line diff of two texts gives when its
/// operations are grouped with `context` lines around each change
/// (`TextDiff::from_lines`, `grouped_ops`, `iter_changes`).
pub uninterp spec fn line_diff_groups(old: Seq<char>, new: Seq<char>, context: usize) -> Seq<Seq<DiffOpView>>;

/// The line diff of two texts, grouped with `context` lines around each
/// change, by the `similar` crate. Trusted: the result is named by
/// `line_diff_groups`. The grouping doubles `context`, so it must not
/// exceed half the largest `usize`.
#[verifier::external_body]
fn grouped_line_diff(old: &str, new: &str, context: usize) -> (r: Vec<Vec<DiffOp>>)
    requires
        context <= usize::MAX / 2,
    ensures
        groups_view(r@) == line_diff_groups(old@, new@, context),
{
    let diff = TextDiff::from_lines(old, new);
    diff.grouped_ops(context).iter().map(|g| g.iter().map(|op| DiffOp {
        old_start: op.old_range().start, old_len: op.old_range().len(),
        new_start: op.new_range().start, new_len: op.new_range().len(),
        lines: diff.iter_changes(op).map(|c| DiffLine { value: c.value().to_string(), tag: match c.tag() {
            ChangeTag::Equal => DiffTag::Equal,
            ChangeTag::Delete => DiffTag::Delete,
            ChangeTag::Insert => DiffTag::Insert,
        } }).collect(),
    }).collect()).collect()
}

/// The operations of a group as values.
pub open spec fn ops_view(g: Vec<DiffOp>) -> Seq<DiffOpView> {
    g@.map_values(|o: DiffOp| o@)
}

/// The groups of operations as values.
pub open spec fn groups_view(gs: Seq<Vec<DiffOp>>) -> Seq<Seq<DiffOpView>> {
    gs.map_values(|g: Vec<DiffOp>| ops_view(g))
}

/// The line number after `n`; the counter is a 32-bit integer that wraps.
pub open spec fn next_line_number(n: i32) -> i32 {
    if n == i32::MAX {
        i32::MIN
    } else {
        (n + 1) as i32
    }
}

/// The number printed beside the `k`-th line of a diff (counting from 0).
pub open spec fn line_number(k: nat) -> i32
    decreases k,
{
    if k == 0 {
        1
    } else {
        next_line_number(line_number((k - 1) as nat))
    }
}

/// A signed number in decimal.
pub open spec fn signed_text(n: i32) -> Seq<char> {
    if n < 0 {
        seq!['-'] + decimal((-n) as nat)
    } else {
        decimal(n as nat)
    }
}

/// `n` spaces.
pub open spec fn spaces(n: nat) -> Seq<char> {
    Seq::new(n, |i: int| ' ')
}

/// A text right-aligned in a field of four characters (`{:>4}`).
pub open spec fn right_aligned4(t: Seq<char>) -> Seq<char> {
    if t.len() < 4 {
        spaces((4 - t.len()) as nat) + t
    } else {
        t
    }
}

/// Whether a text ends with a line feed.
pub open spec fn ends_with_newline(v: Seq<char>) -> bool {
    v.len() > 0 && v.last() == '\n'
}

/// One line of the diff: number, sign and the line, with a line feed added
/// where it had none; deleted lines in red, inserted lines in green.
pub open spec fn diff_line_text(l: (DiffTag, Seq<char>), n: i32) -> Seq<char> {
    match l.0 {
        DiffTag::Equal => diff_line_body(l, n),
        DiffTag::Delete => "\x1b[31m"@ + diff_line_body(l, n) + "\x1b[0m"@,
        DiffTag::Insert => "\x1b[32m"@ + diff_line_body(l, n) + "\x1b[0m"@,
    }
}

/// A diff line without its colour: number, sign, the line and a line feed
/// where it had none.
pub open spec fn diff_line_body(l: (DiffTag, Seq<char>), n: i32) -> Seq<char> {
    let sign = match l.0 {
        DiffTag::Equal => " "@,
        DiffTag::Delete => "-"@,
        DiffTag::Insert => "+"@,
    };
    right_aligned4(signed_text(n)) + " "@ + sign + " "@ + l.1 + if ends_with_newline(l.1) {
        Seq::empty()
    } else {
        "\n"@
    }
}

/// The lines of an operation, the first numbered as line `first` of the diff.
pub open spec fn lines_text(ls: Seq<(DiffTag, Seq<char>)>, first: nat) -> Seq<char>
    decreases ls.len(),
{
    if ls.len() == 0 {
        Seq::empty()
    } else {
        lines_text(ls.drop_last(), first) + diff_line_text(ls.last(), line_number((first + ls.len() - 1) as nat))
    }
}

/// `n + 1`, wrapping as a machine word.
pub open spec fn succ_usize(n: usize) -> usize {
    if n == usize::MAX {
        0
    } else {
        (n + 1) as usize
    }
}

/// An operation: its `@@ -a,b +c,d @@` line (1-based starts) and its lines.
pub open spec fn op_text(o: DiffOpView, first: nat) -> Seq<char> {
    op_header(o) + lines_text(o.lines, first)
}

/// The number of lines in the operations.
pub open spec fn op_lines(os: Seq<DiffOpView>) -> nat
    decreases os.len(),
{
    if os.len() == 0 {
        0
    } else {
        op_lines(os.drop_last()) + os.last().lines.len()
    }
}

/// The operations of a group, numbered from line `first` of the diff.
pub open spec fn ops_text(os: Seq<DiffOpView>, first: nat) -> Seq<char>
    decreases os.len(),
{
    if os.len() == 0 {
        Seq::empty()
    } else {
        ops_text(os.drop_last(), first) + op_text(os.last(), first + op_lines(os.drop_last()))
    }
}

/// The number of lines in the groups.
pub open spec fn group_lines(gs: Seq<Seq<DiffOpView>>) -> nat
    decreases gs.len(),
{
    if gs.len() == 0 {
        0
    } else {
        group_lines(gs.drop_last()) + op_lines(gs.last())
    }
}

/// The groups, separated by `...` lines.
pub open spec fn groups_text(gs: Seq<Seq<DiffOpView>>) -> Seq<char>
    decreases gs.len(),
{
    if gs.len() == 0 {
        Seq::empty()
    } else {
        groups_text(gs.drop_last()) + (if gs.len() > 1 {
            "...\n"@
        } else {
            Seq::empty()
        }) + ops_text(gs.last(), group_lines(gs.drop_last()))
    }
}

/// The diff text: two title lines and the groups.
pub open spec fn diff_text(gs: Seq<Seq<DiffOpView>>) -> Seq<char> {
    "--- expected (golden)\n+++ actual\n"@ + groups_text(gs)
}

/// Appends `s`.
fn push_chars(out: &mut String, s: &Vec<char>)
    ensures
        final(out)@ == old(out)@ + s@,
{
    let mut i: usize = 0;
    while i < s.len()
        invariant
            i <= s@.len(),
            out@ == old(out)@ + s@.subrange(0, i as int),
        decreases s@.len() - i,
    {
        push_char(out, s[i]);
        assert(s@.subrange(0, i + 1) =~= s@.subrange(0, i as int).push(s@[i as int]));
        i = i + 1;
    }
    assert(s@.subrange(0, s@.len() as int) =~= s@);
}

/// Appends a signed number right-aligned in four characters.
fn push_number4(out: &mut String, n: i32)
    ensures
        final(out)@ == old(out)@ + right_aligned4(signed_text(n)),
{
    let mut t: Vec<char> = Vec::new();
    if n < 0 {
        t.push('-');
        let a: u64 = (-(n as i64)) as u64;
        let d = decimal_chars(a);
        let mut i: usize = 0;
        while i < d.len()
            invariant
                i <= d@.len(),
                t@ == seq!['-'] + d@.subrange(0, i as int),
            decreases d@.len() - i,
        {
            t.push(d[i]);
            assert(d@.subrange(0, i + 1) =~= d@.subrange(0, i as int).push(d@[i as int]));
            i = i + 1;
        }
        assert(d@.subrange(0, d@.len() as int) =~= d@);
    } else {
        t = decimal_chars(n as u64);
    }
    assert(t@ == signed_text(n));
    let ghost start = out@;
    if t.len() < 4 {
        let pad = 4 - t.len();
        let mut k: usize = 0;
        while k < pad
            invariant
                k <= pad,
                out@ == start + spaces(k as nat),
            decreases pad - k,
        {
            push_char(out, ' ');
            assert(spaces((k + 1) as nat) =~= spaces(k as nat).push(' '));
            k = k + 1;
        }
    }
    push_chars(out, &t);
}

/// Appends one line of the diff.
fn push_diff_line(out: &mut String, l: &DiffLine, n: i32)
    ensures
        final(out)@ == old(out)@ + diff_line_text((l.tag, l.value@), n),
{
    let body = diff_body(l, n);
    match l.tag {
        DiffTag::Delete => {
            out.append("\x1b[31m");
            out.append(body.as_str());
            out.append("\x1b[0m");
        },
        DiffTag::Insert => {
            out.append("\x1b[32m");
            out.append(body.as_str());
            out.append("\x1b[0m");
        },
        DiffTag::Equal => {
            out.append(body.as_str());
        },
    }
}

/// The uncoloured text of one diff line.
fn diff_body(l: &DiffLine, n: i32) -> (r: String)
    ensures
        r@ == diff_line_body((l.tag, l.value@), n),
{
    let mut out = String::new();
    push_number4(&mut out, n);
    out.append(" ");
    match l.tag {
        DiffTag::Equal => out.append(" "),
        DiffTag::Delete => out.append("-"),
        DiffTag::Insert => out.append("+"),
    }
    out.append(" ");
    out.append(l.value.as_str());
    let v = str_chars(l.value.as_str());
    if !(v.len() > 0 && v[v.len() - 1] == '\n') {
        out.append("\n");
    }
    assert(out@ =~= diff_line_body((l.tag, l.value@), n));
    out
}

/// Appends the lines of an operation numbered from line `first`; the
/// counter after them.
fn push_lines(out: &mut String, lines: &Vec<DiffLine>, line: i32, Ghost(first): Ghost<nat>) -> (next: i32)
    requires
        line == line_number(first),
    ensures
        final(out)@ == old(out)@ + lines_text(lines@.map_values(|l: DiffLine| (l.tag, l.value@)), first),
        next == line_number(first + lines@.len()),
{
    let ghost lv = lines@.map_values(|l: DiffLine| (l.tag, l.value@));
    let mut line = line;
    let mut j: usize = 0;
    while j < lines.len()
        invariant
            j <= lines@.len(),
            lv == lines@.map_values(|l: DiffLine| (l.tag, l.value@)),
            lv.len() == lines@.len(),
            line == line_number((first + j) as nat),
            out@ == old(out)@ + lines_text(lv.subrange(0, j as int), first),
        decreases lines@.len() - j,
    {
        let l = &lines[j];
        assert(lv[j as int] == (l.tag, l.value@));
        assert(lv.subrange(0, j + 1).drop_last() =~= lv.subrange(0, j as int));
        push_diff_line(out, l, line);
        line = if line == i32::MAX { i32::MIN } else { line + 1 };
        j = j + 1;
    }
    assert(lv.subrange(0, lv.len() as int) =~= lv);
    line
}

/// The `@@ -a,b +c,d @@` line of an operation.
pub open spec fn op_header(o: DiffOpView) -> Seq<char> {
    "@@ -"@ + decimal(succ_usize(o.old_start) as nat) + ","@ + decimal(o.old_len as nat) + " +"@ + decimal(
        succ_usize(o.new_start) as nat,
    ) + ","@ + decimal(o.new_len as nat) + " @@\n"@
}

/// Appends the `@@` line of an operation.
fn push_op_header(out: &mut String, op: &DiffOp)
    ensures
        final(out)@ == old(out)@ + op_header(op@),
{
    out.append("@@ -");
    push_decimal(out, if op.old_start == usize::MAX { 0 } else { op.old_start as u64 + 1 });
    out.append(",");
    push_decimal(out, op.old_len as u64);
    out.append(" +");
    push_decimal(out, if op.new_start == usize::MAX { 0 } else { op.new_start as u64 + 1 });
    out.append(",");
    push_decimal(out, op.new_len as u64);
    out.append(" @@\n");
    assert(out@ =~= old(out)@ + op_header(op@));
}

/// Appends the operations of a group numbered from line `base`; the
/// counter after them.
fn push_ops(out: &mut String, ops: &Vec<DiffOp>, line: i32, Ghost(base): Ghost<nat>) -> (next: i32)
    requires
        line == line_number(base),
    ensures
        final(out)@ == old(out)@ + ops_text(ops_view(*ops), base),
        next == line_number(base + op_lines(ops_view(*ops))),
{
    let ghost ov = ops_view(*ops);
    let mut line = line;
    let ghost mut count: nat = base;
    let mut o: usize = 0;
    while o < ops.len()
        invariant
            o <= ops@.len(),
            ov == ops_view(*ops),
            ov.len() == ops@.len(),
            count == base + op_lines(ov.subrange(0, o as int)),
            line == line_number(count),
            out@ == old(out)@ + ops_text(ov.subrange(0, o as int), base),
        decreases ops@.len() - o,
    {
        let op = &ops[o];
        assert(ov[o as int] == op@);
        assert(ov.subrange(0, o + 1).drop_last() =~= ov.subrange(0, o as int));
        let ghost op_head = out@;
        let ghost first = count;
        push_op_header(out, op);
        line = push_lines(out, &op.lines, line, Ghost(first));
        proof {
            count = count + op@.lines.len();
        }
        assert(out@ =~= op_head + op_text(op@, first));
        o = o + 1;
    }
    assert(ov.subrange(0, ov.len() as int) =~= ov);
    line
}

/// The diff text of grouped operations.
pub fn render_diff(groups: &Vec<Vec<DiffOp>>) -> (r: String)
    ensures
        r@ == diff_text(groups_view(groups@)),
{
    let ghost gv = groups_view(groups@);
    let mut out = String::new();
    out.append("--- expected (golden)\n+++ actual\n");
    let ghost head = out@;
    let mut line: i32 = 1;
    let ghost mut count: nat = 0;
    let mut g: usize = 0;
    while g < groups.len()
        invariant
            g <= groups@.len(),
            gv == groups_view(groups@),
            gv.len() == groups@.len(),
            head == "--- expected (golden)\n+++ actual\n"@,
            count == group_lines(gv.subrange(0, g as int)),
            line == line_number(count),
            out@ == head + groups_text(gv.subrange(0, g as int)),
        decreases groups@.len() - g,
    {
        let ghost base = count;
        assert(gv.subrange(0, g + 1).drop_last() =~= gv.subrange(0, g as int));
        let ghost before = out@;
        if g > 0 {
            out.append("...\n");
        }
        let ops = &groups[g];
        assert(gv[g as int] == ops_view(*ops));
        line = push_ops(&mut out, ops, line, Ghost(base));
        proof {
            count = count + op_lines(ops_view(*ops));
        }
        assert(out@ =~= head + groups_text(gv.subrange(0, g + 1)));
        g = g + 1;
    }
    assert(gv.subrange(0, gv.len() as int) =~= gv);
    out
}

/// A line diff from `expected` to `actual`: changes grouped with three
/// lines of context, each line numbered, deletions in red and insertions
/// in green.
pub fn generate_diff(expected: &str, actual: &str) -> (r: String)
    ensures
        r@ == diff_text(line_diff_groups(expected@, actual@, 3)),
{
    let groups = grouped_line_diff(expected, actual, 3);
    render_diff(&groups)
}

} // verus!
