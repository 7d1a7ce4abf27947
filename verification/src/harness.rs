//! The decisions of the test harness that drives an application in a
//! pseudo-terminal: memory estimates, assertions on screen text and layout,
//! screenshots, the recording format, and the steps of its wait loops.

use vstd::prelude::*;
use vstd::arithmetic::div_mod::{lemma_div_denominator, lemma_fundamental_div_mod};
use crate::error::TermTestError;
use crate::scan::str_chars;
use crate::screen::{row_text, screen_text, sat_add16, view_wf, Rect, ScreenState, SixelRegion, TermView};
use crate::text::{decimal, digit_char, push_char, push_decimal, push_decimal_wide};

verus! {

/// Estimated memory use of a test harness.
#[derive(Debug, Clone, Copy, PartialEq, Eq, Structural)]
pub struct MemoryResults {
    /// Current estimated memory usage in bytes.
    pub current_bytes: usize,
    /// Peak estimated memory usage in bytes.
    pub peak_bytes: usize,
}

/// Below this every integer is exactly a double.
pub open spec fn exact_double_limit() -> nat {
    0x20_0000_0000_0000
}

/// The spacing of doubles around `n`: 1 below 2^53, doubling with each bit above.
pub open spec fn double_scale(n: nat) -> nat
    decreases n,
{
    if n < exact_double_limit() {
        1
    } else {
        2 * double_scale(n / 2)
    }
}

/// `n` converted to a double: the nearest multiple of the spacing, ties to
/// an even multiple.
pub open spec fn to_double(n: nat) -> nat {
    let p = double_scale(n);
    let q = n / p;
    let r = n % p;
    if 2 * r > p || (2 * r == p && q % 2 == 1) {
        (q + 1) * p
    } else {
        q * p
    }
}

/// `x / 1024` in hundredths, rounded to the nearest, ties to even.
pub open spec fn kib_hundredths(x: nat) -> nat {
    let h = x * 100 / 1024;
    let r = x * 100 % 1024;
    if 2 * r > 1024 || (2 * r == 1024 && h % 2 == 1) {
        h + 1
    } else {
        h
    }
}

/// Hundredths written with two decimals.
pub open spec fn fixed2(h: nat) -> Seq<char> {
    decimal(h / 100) + "."@ + seq![digit_char((h % 100) / 10), digit_char(h % 10)]
}

/// A byte count in kibibytes with two decimals, as `{:.2}` prints the
/// double `n as f64 / 1024.0`.
pub open spec fn kib_text(n: usize) -> Seq<char> {
    fixed2(kib_hundredths(to_double(n as nat)))
}

/// The summary of memory results.
pub open spec fn memory_summary(m: MemoryResults) -> Seq<char> {
    "Memory Usage:\n  Current: "@ + decimal(m.current_bytes as nat) + " bytes ("@ + kib_text(
        m.current_bytes,
    ) + " KB)\n  Peak: "@ + decimal(m.peak_bytes as nat) + " bytes ("@ + kib_text(m.peak_bytes)
        + " KB)"@
}

/// The spacing of doubles around `x`.
fn double_scale_of(x: u128) -> (p: u128)
    requires
        x < 0x1_0000_0000_0000_0000,
    ensures
        p == double_scale(x as nat),
        0 < p <= 0x1_0000_0000_0000_0000,
{
    let mut p: u128 = 1;
    let mut q: u128 = x;
    while q >= 0x20_0000_0000_0000
        invariant
            0 < p <= 0x1_0000_0000_0000_0000,
            x < 0x1_0000_0000_0000_0000,
            q == x / p,
            p * double_scale(q as nat) == double_scale(x as nat),
        decreases q,
    {
        proof {
            lemma_fundamental_div_mod(x as int, p as int);
            assert(p * q <= x);
            assert(2 * p <= p * q) by (nonlinear_arith)
                requires
                    q >= 2,
                    p > 0,
            ;
            lemma_div_denominator(x as int, p as int, 2);
            let s = double_scale((q / 2) as nat);
            assert(double_scale(q as nat) == 2 * s);
            assert(p * (2 * s) == (2 * p) * s) by (nonlinear_arith);
        }
        q = q / 2;
        p = p * 2;
    }
    assert(double_scale(q as nat) == 1);
    assert(p * 1 == p);
    p
}

/// The hundredths of a kibibyte shown for a byte count.
fn kib_hundredths_of(n: usize) -> (h: u128)
    ensures
        h == kib_hundredths(to_double(n as nat)),
{
    let x: u128 = n as u128;
    let p = double_scale_of(x);
    let q = x / p;
    let r = x % p;
    proof {
        lemma_fundamental_div_mod(x as int, p as int);
        assert(q * p <= x) by (nonlinear_arith)
            requires
                x == p * q + r,
                r >= 0,
        ;
        assert((q + 1) * p <= x + p) by (nonlinear_arith)
            requires
                q * p <= x,
        ;
    }
    let f: u128 = if 2 * r > p || (2 * r == p && q % 2 == 1) {
        (q + 1) * p
    } else {
        q * p
    };
    let y = f * 100;
    let h = y / 1024;
    let rr = y % 1024;
    if 2 * rr > 1024 || (2 * rr == 1024 && h % 2 == 1) {
        h + 1
    } else {
        h
    }
}

/// Appends hundredths written with two decimals.
fn push_fixed2(s: &mut String, h: u128)
    ensures
        final(s)@ == old(s)@ + fixed2(h as nat),
{
    push_decimal_wide(s, h / 100);
    s.append(".");
    let tens = ((h % 100) / 10) as u8;
    let ones = (h % 10) as u8;
    push_char(s, (tens + 48) as char);
    push_char(s, (ones + 48) as char);
    assert(s@ =~= old(s)@ + fixed2(h as nat));
}

impl MemoryResults {
    /// Memory results from byte counts.
    pub fn new(current_bytes: usize, peak_bytes: usize) -> (m: MemoryResults)
        ensures
            m.current_bytes == current_bytes,
            m.peak_bytes == peak_bytes,
    {
        MemoryResults { current_bytes, peak_bytes }
    }

    /// A three-line summary: current and peak bytes, each also in kibibytes
    /// with two decimals.
    pub fn summary(&self) -> (r: String)
        ensures
            r@ == memory_summary(*self),
    {
        let mut r = String::new();
        r.append("Memory Usage:\n  Current: ");
        push_decimal(&mut r, self.current_bytes as u64);
        r.append(" bytes (");
        push_fixed2(&mut r, kib_hundredths_of(self.current_bytes));
        r.append(" KB)\n  Peak: ");
        push_decimal(&mut r, self.peak_bytes as u64);
        r.append(" bytes (");
        push_fixed2(&mut r, kib_hundredths_of(self.peak_bytes));
        r.append(" KB)");
        r
    }
}

/// Axis for alignment checking.
#[derive(Debug, Clone, Copy, PartialEq, Eq, Structural)]
pub enum Axis {
    /// Horizontal axis (same Y coordinate).
    Horizontal,
    /// Vertical axis (same X coordinate).
    Vertical,
}

/// `(x=.., y=.., width=.., height=..)`.
pub open spec fn rect_text(r: Rect) -> Seq<char> {
    "(x="@ + decimal(r.x as nat) + ", y="@ + decimal(r.y as nat) + ", width="@ + decimal(r.width as nat)
        + ", height="@ + decimal(r.height as nat) + ")"@
}

/// The larger of two coordinates.
pub open spec fn max16(a: u16, b: u16) -> u16 {
    if a >= b {
        a
    } else {
        b
    }
}

/// The smaller of two coordinates.
pub open spec fn min16(a: u16, b: u16) -> u16 {
    if a <= b {
        a
    } else {
        b
    }
}

/// The message of two overlapping rectangles.
pub open spec fn overlap_message(r1: Rect, r2: Rect) -> Seq<char> {
    "Rectangles overlap!\nRect 1: "@ + rect_text(r1) + "\nRect 2: "@ + rect_text(r2)
        + "\nOverlap region exists between x=["@ + decimal(max16(r1.x, r2.x) as nat) + ", "@ + decimal(
        min16(r1.right_edge(), r2.right_edge()) as nat,
    ) + ") and y=["@ + decimal(max16(r1.y, r2.y) as nat) + ", "@ + decimal(
        min16(r1.bottom_edge(), r2.bottom_edge()) as nat,
    ) + ")"@
}

/// Appends `(x=.., y=.., width=.., height=..)`.
fn push_rect(s: &mut String, r: Rect)
    ensures
        final(s)@ == old(s)@ + rect_text(r),
{
    s.append("(x=");
    push_decimal(s, r.x as u64);
    s.append(", y=");
    push_decimal(s, r.y as u64);
    s.append(", width=");
    push_decimal(s, r.width as u64);
    s.append(", height=");
    push_decimal(s, r.height as u64);
    s.append(")");
    assert(s@ =~= old(s)@ + rect_text(r));
}

/// `Ok` when the rectangles share no cell; otherwise a `Parse` error that
/// gives both and where they overlap.
pub fn assert_no_overlap(rect1: Rect, rect2: Rect) -> (r: Result<(), TermTestError>)
    ensures
        r is Ok <==> !(rect1.x < rect2.right_edge() && rect1.right_edge() > rect2.x && rect1.y
            < rect2.bottom_edge() && rect1.bottom_edge() > rect2.y),
        r matches Err(e) ==> (e matches TermTestError::Parse(m) && m@ == overlap_message(rect1, rect2)),
{
    if rect1.intersects(&rect2) {
        let mut m = String::new();
        m.append("Rectangles overlap!\nRect 1: ");
        push_rect(&mut m, rect1);
        m.append("\nRect 2: ");
        push_rect(&mut m, rect2);
        m.append("\nOverlap region exists between x=[");
        push_decimal(&mut m, if rect1.x >= rect2.x { rect1.x } else { rect2.x } as u64);
        m.append(", ");
        let (a, b) = (rect1.right(), rect2.right());
        push_decimal(&mut m, if a <= b { a } else { b } as u64);
        m.append(") and y=[");
        push_decimal(&mut m, if rect1.y >= rect2.y { rect1.y } else { rect2.y } as u64);
        m.append(", ");
        let (c, d) = (rect1.bottom(), rect2.bottom());
        push_decimal(&mut m, if c <= d { c } else { d } as u64);
        m.append(")");
        assert(m@ =~= overlap_message(rect1, rect2));
        return Err(TermTestError::Parse(m));
    }
    Ok(())
}

/// `y=.. (x=.., width=.., height=..)`, the form of a horizontal check.
pub open spec fn rect_y_first(r: Rect) -> Seq<char> {
    "y="@ + decimal(r.y as nat) + " (x="@ + decimal(r.x as nat) + ", width="@ + decimal(r.width as nat)
        + ", height="@ + decimal(r.height as nat) + ")"@
}

/// `x=.. (y=.., width=.., height=..)`, the form of a vertical check.
pub open spec fn rect_x_first(r: Rect) -> Seq<char> {
    "x="@ + decimal(r.x as nat) + " (y="@ + decimal(r.y as nat) + ", width="@ + decimal(r.width as nat)
        + ", height="@ + decimal(r.height as nat) + ")"@
}

/// The message of two rectangles that are not aligned on an axis.
pub open spec fn misaligned_message(r1: Rect, r2: Rect, axis: Axis) -> Seq<char> {
    match axis {
        Axis::Horizontal => "Rectangles not horizontally aligned (different Y coordinates)\nRect 1: "@
            + rect_y_first(r1) + "\nRect 2: "@ + rect_y_first(r2),
        Axis::Vertical => "Rectangles not vertically aligned (different X coordinates)\nRect 1: "@
            + rect_x_first(r1) + "\nRect 2: "@ + rect_x_first(r2),
    }
}

/// Appends a rectangle with one coordinate first.
fn push_rect_lead(s: &mut String, r: Rect, y_first: bool)
    ensures
        final(s)@ == old(s)@ + if y_first {
            rect_y_first(r)
        } else {
            rect_x_first(r)
        },
{
    if y_first {
        s.append("y=");
        push_decimal(s, r.y as u64);
        s.append(" (x=");
        push_decimal(s, r.x as u64);
    } else {
        s.append("x=");
        push_decimal(s, r.x as u64);
        s.append(" (y=");
        push_decimal(s, r.y as u64);
    }
    s.append(", width=");
    push_decimal(s, r.width as u64);
    s.append(", height=");
    push_decimal(s, r.height as u64);
    s.append(")");
    assert(s@ =~= old(s)@ + if y_first {
        rect_y_first(r)
    } else {
        rect_x_first(r)
    });
}

/// `Ok` when the rectangles share their row (horizontal) or their column
/// (vertical); otherwise a `Parse` error that gives both.
pub fn assert_aligned(rect1: Rect, rect2: Rect, axis: Axis) -> (r: Result<(), TermTestError>)
    ensures
        r is Ok <==> match axis {
            Axis::Horizontal => rect1.y == rect2.y,
            Axis::Vertical => rect1.x == rect2.x,
        },
        r matches Err(e) ==> (e matches TermTestError::Parse(m) && m@ == misaligned_message(rect1, rect2, axis)),
{
    match axis {
        Axis::Horizontal => {
            if rect1.y != rect2.y {
                let mut m = String::new();
                m.append("Rectangles not horizontally aligned (different Y coordinates)\nRect 1: ");
                push_rect_lead(&mut m, rect1, true);
                m.append("\nRect 2: ");
                push_rect_lead(&mut m, rect2, true);
                return Err(TermTestError::Parse(m));
            }
        },
        Axis::Vertical => {
            if rect1.x != rect2.x {
                let mut m = String::new();
                m.append("Rectangles not vertically aligned (different X coordinates)\nRect 1: ");
                push_rect_lead(&mut m, rect1, false);
                m.append("\nRect 2: ");
                push_rect_lead(&mut m, rect2, false);
                return Err(TermTestError::Parse(m));
            }
        },
    }
    Ok(())
}

/// What `format!("{:?}", s)` gives for a string: quoted, with escapes.
pub uninterp spec fn str_debug(s: Seq<char>) -> Seq<char>;

/// `Debug` of a string slice. Trusted: the text is named by `str_debug`.
#[verifier::external_body]
fn debug_quoted(s: &str) -> (r: String)
    ensures
        r@ == str_debug(s@),
{
    format!("{:?}", s)
}

/// The characters shown from (row, col) over the length of a text, up to
/// the right edge of the screen.
pub open spec fn shown_at(v: TermView, row: u16, col: u16, n: nat) -> Seq<char> {
    let end: int = if col + n < v.width {
        col + n
    } else {
        v.width as int
    };
    row_text(v.grid[row as int]).subrange(col as int, end)
}

/// The message of a text that is not at a position.
pub open spec fn mismatch_message(v: TermView, row: u16, col: u16, text: Seq<char>) -> Seq<char> {
    "Text mismatch at position ("@ + decimal(row as nat) + ", "@ + decimal(col as nat) + ")\n  Expected: "@
        + str_debug(text) + "\n  Found:    "@ + str_debug(shown_at(v, row, col, text.len()))
        + "\n\nScreen state:\n"@ + screen_text(v.grid)
}

/// `Ok` when the screen shows `text` from (row, col) on; otherwise a
/// `Parse` error: the position is outside the screen, or the text differs
/// (the text shown is cut at the right edge).
pub fn assert_text_at_position(state: &ScreenState, text: &str, row: u16, col: u16) -> (r: Result<
    (),
    TermTestError,
>)
    requires
        state.inv(),
    ensures
        row >= state.term().height ==> (r matches Err(TermTestError::Parse(m)) && m@ == "Row "@ + decimal(
            row as nat,
        ) + " is out of bounds (screen height: "@ + decimal(state.term().height as nat) + ")"@),
        row < state.term().height && col >= state.term().width ==> (r matches Err(
            TermTestError::Parse(m),
        ) && m@ == "Column "@ + decimal(col as nat) + " is out of bounds (screen width: "@ + decimal(
            state.term().width as nat,
        ) + ")"@),
        row < state.term().height && col < state.term().width ==> (r is Ok <==> shown_at(
            state.term(),
            row,
            col,
            text@.len(),
        ) == text@),
        row < state.term().height && col < state.term().width && r is Err ==> (r matches Err(
            TermTestError::Parse(m),
        ) && m@ == mismatch_message(state.term(), row, col, text@)),
{
    let (width, height) = state.size();
    proof {
        state.lemma_shape();
    }
    if row >= height {
        let mut m = String::new();
        m.append("Row ");
        push_decimal(&mut m, row as u64);
        m.append(" is out of bounds (screen height: ");
        push_decimal(&mut m, height as u64);
        m.append(")");
        return Err(TermTestError::Parse(m));
    }
    if col >= width {
        let mut m = String::new();
        m.append("Column ");
        push_decimal(&mut m, col as u64);
        m.append(" is out of bounds (screen width: ");
        push_decimal(&mut m, width as u64);
        m.append(")");
        return Err(TermTestError::Parse(m));
    }
    let t = str_chars(text);
    let ghost v = state.term();
    let ghost line = row_text(v.grid[row as int]);
    assert(line.len() == v.width);
    let mut actual: Vec<char> = Vec::new();
    let mut cur: u16 = col;
    let mut i: usize = 0;
    while i < t.len() && cur < width
        invariant
            v == state.term(),
            state.inv(),
            view_wf(v),
            width == v.width,
            row < v.height,
            col < width,
            line == row_text(v.grid[row as int]),
            i <= t@.len(),
            cur == col + i,
            col + i <= width,
            line.len() == width,
            actual@ == line.subrange(col as int, col + i),
        decreases t@.len() - i,
    {
        let c = state.text_at(row, cur);
        match c {
            Some(ch) => {
                actual.push(ch);
            },
            None => {},
        }
        assert(line.subrange(col as int, col + i + 1) =~= line.subrange(col as int, col + i).push(
            line[col + i],
        ));
        i = i + 1;
        cur = cur + 1;
    }
    assert(actual@ == shown_at(v, row, col, t@.len()));
    let same = actual.len() == t.len() && crate::scan::range_eq(&actual, 0, actual.len(), &t);
    proof {
        if actual.len() == t.len() {
            assert(actual@.subrange(0, actual@.len() as int) =~= actual@);
        }
    }
    if same {
        return Ok(());
    }
    let shown = crate::scan::string_from_chars(&actual);
    let mut m = String::new();
    m.append("Text mismatch at position (");
    push_decimal(&mut m, row as u64);
    m.append(", ");
    push_decimal(&mut m, col as u64);
    m.append(")\n  Expected: ");
    let dt = debug_quoted(text);
    m.append(dt.as_str());
    m.append("\n  Found:    ");
    let da = debug_quoted(shown.as_str());
    m.append(da.as_str());
    m.append("\n\nScreen state:\n");
    let contents = state.debug_contents();
    m.append(contents.as_str());
    assert(m@ =~= mismatch_message(v, row, col, text@));
    Err(TermTestError::Parse(m))
}

/// The screenshot text: size, cursor and the screen text, between rules.
pub open spec fn screenshot_text(v: TermView) -> Seq<char> {
    "=== Screen State ===\nSize: "@ + decimal(v.width as nat) + "x"@ + decimal(v.height as nat)
        + "\nCursor: row="@ + decimal(v.cursor.0 as nat) + ", col="@ + decimal(v.cursor.1 as nat) + "\n"@
        + screen_text(v.grid) + "\n==================="@
}

/// A text rendering of the screen for diagnostics.
pub fn screenshot_string(state: &ScreenState) -> (r: String)
    requires
        state.inv(),
    ensures
        r@ == screenshot_text(state.term()),
{
    let cursor = state.cursor_position();
    let contents = state.debug_contents();
    let (width, height) = state.size();
    let mut r = String::new();
    r.append("=== Screen State ===\nSize: ");
    push_decimal(&mut r, width as u64);
    r.append("x");
    push_decimal(&mut r, height as u64);
    r.append("\nCursor: row=");
    push_decimal(&mut r, cursor.0 as u64);
    r.append(", col=");
    push_decimal(&mut r, cursor.1 as u64);
    r.append("\n");
    r.append(contents.as_str());
    r.append("\n===================");
    r
}

/// The number of Sixel regions on the screen.
pub fn sixel_count(state: &ScreenState) -> (n: usize)
    requires
        state.inv(),
    ensures
        n == state.term().sixels.len(),
{
    state.sixel_regions().len()
}

/// The first Sixel region drawn at (row, col), if any.
pub fn sixel_at(state: &ScreenState, row: u16, col: u16) -> (r: Option<&SixelRegion>)
    requires
        state.inv(),
    ensures
        r is None <==> forall|i: int| 0 <= i < state.term().sixels.len() ==> !((#[trigger] state.term().sixels[i]).start_row
            == row && state.term().sixels[i].start_col == col),
        r matches Some(s) ==> exists|i: int| 0 <= i < state.term().sixels.len() && s@ == #[trigger] state.term().sixels[i]
            && s.start_row == row && s.start_col == col && forall|k: int| 0 <= k < i ==> !((#[trigger] state.term().sixels[k]).start_row
            == row && state.term().sixels[k].start_col == col),
{
    let regions = state.sixel_regions();
    let ghost sv = state.term().sixels;
    let mut i: usize = 0;
    while i < regions.len()
        invariant
            i <= regions@.len(),
            sv == state.term().sixels,
            regions@.map_values(|x: SixelRegion| x@) == sv,
            forall|k: int| 0 <= k < i ==> !((#[trigger] sv[k]).start_row == row && sv[k].start_col == col),
        decreases regions@.len() - i,
    {
        let s = &regions[i];
        assert(sv[i as int] == s@);
        if s.start_row == row && s.start_col == col {
            return Some(s);
        }
        i = i + 1;
    }
    None
}

/// Text of `t` fits at (row, col): it ends inside the area and the screen,
/// and the row shows it there.
pub open spec fn text_fits_at(v: TermView, t: Seq<char>, area: Rect, row: int, col: int) -> bool {
    &&& col + t.len() <= area.right_edge()
    &&& col + t.len() <= v.width
    &&& row_text(v.grid[row]).subrange(col, col + t.len()) == t
}

/// The rows of the area that are on the screen.
pub open spec fn rows_end(v: TermView, area: Rect) -> int {
    min16(area.bottom_edge(), v.height) as int
}

/// The columns of the area that are on the screen.
pub open spec fn cols_end(v: TermView, area: Rect) -> int {
    min16(area.right_edge(), v.width) as int
}

/// Some start position in the area holds the text.
pub open spec fn text_found_within(v: TermView, t: Seq<char>, area: Rect) -> bool {
    exists|row: int, col: int|
        area.y <= row < rows_end(v, area) && area.x <= col < cols_end(v, area) && #[trigger] text_fits_at(
            v,
            t,
            area,
            row,
            col,
        )
}

/// The message of a text not found in an area.
pub open spec fn not_within_message(v: TermView, t: Seq<char>, area: Rect) -> Seq<char> {
    "Text "@ + str_debug(t) + " not found within bounds (x="@ + decimal(area.x as nat) + ", y="@ + decimal(
        area.y as nat,
    ) + ", width="@ + decimal(area.width as nat) + ", height="@ + decimal(area.height as nat)
        + ")\n\nScreen state:\n"@ + screen_text(v.grid)
}

/// Whether the text fits at (row, col).
fn fits_at(state: &ScreenState, t: &Vec<char>, area: Rect, row: u16, col: u16) -> (r: bool)
    requires
        state.inv(),
        row < state.term().height,
        col < state.term().width,
        col < area.right_edge(),
    ensures
        r == text_fits_at(state.term(), t@, area, row as int, col as int),
{
    let ghost v = state.term();
    proof {
        state.lemma_shape();
    }
    let ghost line = row_text(v.grid[row as int]);
    assert(line.len() == v.width);
    let (width, _) = state.size();
    let right = area.right();
    let n = t.len();
    if n > (width - col) as usize || n > (right - col) as usize {
        return false;
    }
    let mut i: usize = 0;
    while i < n
        invariant
            v == state.term(),
            state.inv(),
            view_wf(v),
            line == row_text(v.grid[row as int]),
            line.len() == width,
            row < v.height,
            width == v.width,
            n == t@.len(),
            col + n <= width,
            i <= n,
            line.subrange(col as int, col + i) == t@.subrange(0, i as int),
        decreases n - i,
    {
        let cur: u16 = col + i as u16;
        if state.text_at(row, cur) != Some(t[i]) {
            assert(line.subrange(col as int, col + n)[i as int] == line[col + i]);
            assert(line.subrange(col as int, col + n)[i as int] != t@[i as int]);
            return false;
        }
        assert(line.subrange(col as int, col + i + 1) =~= line.subrange(col as int, col + i).push(
            line[col + i],
        ));
        assert(t@.subrange(0, i + 1) =~= t@.subrange(0, i as int).push(t@[i as int]));
        i = i + 1;
    }
    assert(t@.subrange(0, n as int) =~= t@);
    true
}

/// `Ok` when the text shows somewhere inside the area (wholly inside it
/// and on the screen); otherwise a `Parse` error.
pub fn assert_text_within_bounds(state: &ScreenState, text: &str, area: Rect) -> (r: Result<(), TermTestError>)
    requires
        state.inv(),
    ensures
        r is Ok <==> text_found_within(state.term(), text@, area),
        r matches Err(e) ==> (e matches TermTestError::Parse(m) && m@ == not_within_message(
            state.term(),
            text@,
            area,
        )),
{
    let ghost v = state.term();
    let t = str_chars(text);
    let (width, height) = state.size();
    let bottom = area.bottom();
    let right = area.right();
    let row_end = if bottom <= height { bottom } else { height };
    let col_end = if right <= width { right } else { width };
    let mut row = area.y;
    while row < row_end
        invariant
            v == state.term(),
            state.inv(),
            t@ == text@,
            width == v.width,
            height == v.height,
            row_end == rows_end(v, area),
            col_end == cols_end(v, area),
            area.y <= row,
            forall|r2: int, c2: int|
                area.y <= r2 < row && area.x <= c2 < col_end ==> !#[trigger] text_fits_at(v, t@, area, r2, c2),
        decreases row_end - row,
    {
        let mut col = area.x;
        while col < col_end
            invariant
                v == state.term(),
                state.inv(),
                width == v.width,
                height == v.height,
                row_end == rows_end(v, area),
                col_end == cols_end(v, area),
                t@ == text@,
                area.y <= row < row_end,
                area.x <= col,
                forall|c2: int| area.x <= c2 < col ==> !#[trigger] text_fits_at(v, t@, area, row as int, c2),
            decreases col_end - col,
        {
            if fits_at(state, &t, area, row, col) {
                return Ok(());
            }
            col = col + 1;
        }
        row = row + 1;
    }
    let mut m = String::new();
    m.append("Text ");
    let dt = debug_quoted(text);
    m.append(dt.as_str());
    m.append(" not found within bounds (x=");
    push_decimal(&mut m, area.x as u64);
    m.append(", y=");
    push_decimal(&mut m, area.y as u64);
    m.append(", width=");
    push_decimal(&mut m, area.width as u64);
    m.append(", height=");
    push_decimal(&mut m, area.height as u64);
    m.append(")\n\nScreen state:\n");
    let contents = state.debug_contents();
    m.append(contents.as_str());
    assert(m@ =~= not_within_message(v, text@, area));
    Err(TermTestError::Parse(m))
}

/// The bytes of Sixel data on the screen.
pub open spec fn sixel_bytes(rs: Seq<crate::screen::RegionView>) -> nat
    decreases rs.len(),
{
    if rs.len() == 0 {
        0
    } else {
        sixel_bytes(rs.drop_last()) + rs.last().data.len()
    }
}

/// The estimated memory of a screen: its cells at `cell_size` bytes each,
/// plus the Sixel data it holds.
pub open spec fn memory_estimate(v: TermView, cell_size: nat) -> nat {
    ((v.width as nat) * (v.height as nat) * cell_size + sixel_bytes(v.sixels)) as nat
}

/// The estimated memory of a screen (current and peak are the same).
pub fn memory_usage_of(state: &ScreenState, cell_size: usize) -> (m: MemoryResults)
    requires
        state.inv(),
        memory_estimate(state.term(), cell_size as nat) <= usize::MAX,
    ensures
        m.current_bytes == memory_estimate(state.term(), cell_size as nat),
        m.peak_bytes == m.current_bytes,
{
    let (width, height) = state.size();
    let ghost v = state.term();
    proof {
        assert((width as nat) * (height as nat) <= 65535 * 65535) by (nonlinear_arith)
            requires
                width <= 65535,
                height <= 65535,
        ;
        assert((width as nat) * (height as nat) * (cell_size as nat) <= memory_estimate(v, cell_size as nat));
        assert((width as nat) * (height as nat) <= (width as nat) * (height as nat) * (cell_size as nat)
            || cell_size == 0) by (nonlinear_arith);
    }
    let cells: usize = if cell_size == 0 { 0 } else { (width as usize) * (height as usize) };
    let screen_bytes: usize = cells * cell_size;
    assert(screen_bytes == (width as nat) * (height as nat) * (cell_size as nat)) by (nonlinear_arith)
        requires
            cells == (if cell_size == 0 { 0 } else { (width as nat) * (height as nat) }),
            screen_bytes == cells * cell_size,
    ;
    let regions = state.sixel_regions();
    let mut total: usize = screen_bytes;
    let mut i: usize = 0;
    while i < regions.len()
        invariant
            v == state.term(),
            i <= regions@.len(),
            regions@.map_values(|x: SixelRegion| x@) == v.sixels,
            screen_bytes == (width as nat) * (height as nat) * (cell_size as nat),
            total == screen_bytes + sixel_bytes(v.sixels.subrange(0, i as int)),
            memory_estimate(v, cell_size as nat) <= usize::MAX,
            width == v.width,
            height == v.height,
        decreases regions@.len() - i,
    {
        assert(v.sixels.subrange(0, i + 1).drop_last() =~= v.sixels.subrange(0, i as int));
        assert(v.sixels[i as int] == regions@[i as int]@);
        proof {
            lemma_sixel_bytes_prefix(v.sixels, i + 1);
        }
        total = total + regions[i].data.len();
        i = i + 1;
    }
    assert(v.sixels.subrange(0, v.sixels.len() as int) =~= v.sixels);
    MemoryResults::new(total, total)
}

/// The estimated memory of a screen when it fits in a `usize`, else `None`.
pub fn memory_estimate_checked(state: &ScreenState, cell_size: usize) -> (r: Option<usize>)
    requires
        state.inv(),
    ensures
        r is Some <==> memory_estimate(state.term(), cell_size as nat) <= usize::MAX,
        r matches Some(n) ==> n == memory_estimate(state.term(), cell_size as nat),
{
    let (width, height) = state.size();
    let ghost v = state.term();
    assert((width as nat) * (height as nat) <= 0xffff_ffff) by (nonlinear_arith)
        requires
            width <= 65535,
            height <= 65535,
    ;
    let cells: u64 = (width as u64) * (height as u64);
    assert((cells as nat) * (cell_size as nat) <= 0xffff_ffff * 0xffff_ffff_ffff_ffff) by (nonlinear_arith)
        requires
            cells <= 0xffff_ffff,
            cell_size <= 0xffff_ffff_ffff_ffff,
    ;
    let screen: u128 = (cells as u128) * (cell_size as u128);
    assert(screen == (width as nat) * (height as nat) * (cell_size as nat)) by (nonlinear_arith)
        requires
            cells == (width as nat) * (height as nat),
            screen == cells * cell_size,
    ;
    if screen > usize::MAX as u128 {
        return None;
    }
    let regions = state.sixel_regions();
    let mut total: usize = screen as usize;
    let mut i: usize = 0;
    while i < regions.len()
        invariant
            v == state.term(),
            i <= regions@.len(),
            regions@.map_values(|x: SixelRegion| x@) == v.sixels,
            screen == (width as nat) * (height as nat) * (cell_size as nat),
            total == screen + sixel_bytes(v.sixels.subrange(0, i as int)),
            width == v.width,
            height == v.height,
        decreases regions@.len() - i,
    {
        assert(v.sixels.subrange(0, i + 1).drop_last() =~= v.sixels.subrange(0, i as int));
        assert(v.sixels[i as int] == regions@[i as int]@);
        let n = regions[i].data.len();
        if total > usize::MAX - n {
            proof {
                lemma_sixel_bytes_prefix(v.sixels, i + 1);
            }
            return None;
        }
        total = total + n;
        i = i + 1;
    }
    assert(v.sixels.subrange(0, v.sixels.len() as int) =~= v.sixels);
    Some(total)
}

/// The data of a prefix of the regions is no more than that of all.
proof fn lemma_sixel_bytes_prefix(rs: Seq<crate::screen::RegionView>, n: int)
    requires
        0 <= n <= rs.len(),
    ensures
        sixel_bytes(rs.subrange(0, n)) <= sixel_bytes(rs),
    decreases rs.len() - n,
{
    if n < rs.len() {
        assert(rs.subrange(0, n + 1).drop_last() =~= rs.subrange(0, n));
        lemma_sixel_bytes_prefix(rs, n + 1);
    } else {
        assert(rs.subrange(0, n) =~= rs);
    }
}

/// `Ok` when the current estimate is within `limit_bytes`; otherwise a
/// `Parse` error with both figures and the summary.
pub fn assert_memory_under(memory: &MemoryResults, limit_bytes: usize) -> (r: Result<(), TermTestError>)
    ensures
        r is Ok <==> memory.current_bytes <= limit_bytes,
        r matches Err(e) ==> (e matches TermTestError::Parse(m) && m@ == "Memory usage exceeds limit: "@
            + decimal(memory.current_bytes as nat) + " bytes > "@ + decimal(limit_bytes as nat)
            + " bytes (limit)\n"@ + memory_summary(*memory)),
{
    if memory.current_bytes > limit_bytes {
        let mut m = String::new();
        m.append("Memory usage exceeds limit: ");
        push_decimal(&mut m, memory.current_bytes as u64);
        m.append(" bytes > ");
        push_decimal(&mut m, limit_bytes as u64);
        m.append(" bytes (limit)\n");
        let s = memory.summary();
        m.append(s.as_str());
        return Err(TermTestError::Parse(m));
    }
    Ok(())
}

/// An event recorded during a test session.
#[derive(Debug)]
pub enum RecordedEvent {
    /// Input data sent to the PTY.
    Input(Vec<u8>),
    /// Output data received from the PTY.
    Output(Vec<u8>),
    /// Screen state changed (e.g., after processing escape sequences).
    StateChange {
        /// Snapshot of screen contents at this point.
        contents: String,
        /// Cursor position (row, col).
        cursor: (u16, u16),
    },
}

/// A recorded event with the milliseconds since recording started.
#[derive(Debug)]
pub struct TimestampedEvent {
    /// Milliseconds since the recording started.
    pub timestamp_ms: u128,
    /// The recorded event.
    pub event: RecordedEvent,
}

/// Bytes as `Debug` prints a byte vector: `[1, 2, 3]`.
pub open spec fn byte_list(b: Seq<u8>) -> Seq<char>
    decreases b.len(),
{
    if b.len() == 0 {
        Seq::empty()
    } else if b.len() == 1 {
        decimal(b[0] as nat)
    } else {
        byte_list(b.drop_last()) + ", "@ + decimal(b.last() as nat)
    }
}

/// Bytes in brackets.
pub open spec fn bytes_debug(b: Seq<u8>) -> Seq<char> {
    "["@ + byte_list(b) + "]"@
}

/// A character escaped for a JSON string: backslash, quote, line feed,
/// carriage return and tab.
pub open spec fn json_escape_char(c: char) -> Seq<char> {
    if c == '\\' {
        "\\\\"@
    } else if c == '"' {
        "\\\""@
    } else if c == '\n' {
        "\\n"@
    } else if c == '\r' {
        "\\r"@
    } else if c == '\t' {
        "\\t"@
    } else {
        seq![c]
    }
}

/// A text escaped for a JSON string.
pub open spec fn json_escape(s: Seq<char>) -> Seq<char>
    decreases s.len(),
{
    if s.len() == 0 {
        Seq::empty()
    } else {
        json_escape(s.drop_last()) + json_escape_char(s.last())
    }
}

/// The type and data of an event in the recording.
pub open spec fn event_body(ev: RecordedEvent) -> Seq<char> {
    match ev {
        RecordedEvent::Input(d) => "\"Input\", \"data\": "@ + bytes_debug(d@),
        RecordedEvent::Output(d) => "\"Output\", \"data\": "@ + bytes_debug(d@),
        RecordedEvent::StateChange { contents, cursor } => "\"StateChange\", \"contents\": \""@ + json_escape(
            contents@,
        ) + "\", \"cursor\": ["@ + decimal(cursor.0 as nat) + ", "@ + decimal(cursor.1 as nat) + "]"@,
    }
}

/// One event as a line of the recording (without its line feed).
pub open spec fn event_json(e: TimestampedEvent, comma: Seq<char>) -> Seq<char> {
    "  {\"timestamp_ms\": "@ + decimal(e.timestamp_ms as nat) + ", \"event\": {\"type\": "@ + event_body(e.event)
        + "}}"@ + comma
}

/// The event lines of a recording of `total` events, each followed by a
/// line feed, all but the last with a comma.
pub open spec fn event_lines(es: Seq<TimestampedEvent>, total: nat) -> Seq<char>
    decreases es.len(),
{
    if es.len() == 0 {
        Seq::empty()
    } else {
        event_lines(es.drop_last(), total) + event_json(
            es.last(),
            if es.len() < total {
                ","@
            } else {
                Seq::empty()
            },
        ) + "\n"@
    }
}

/// A recording as a JSON array, one event per line.
pub open spec fn recording_text(es: Seq<TimestampedEvent>) -> Seq<char> {
    "[\n"@ + event_lines(es, es.len()) + "]\n"@
}

/// Appends bytes in brackets.
fn push_bytes_debug(s: &mut String, b: &Vec<u8>)
    ensures
        final(s)@ == old(s)@ + bytes_debug(b@),
{
    s.append("[");
    let ghost head = s@;
    let mut i: usize = 0;
    while i < b.len()
        invariant
            i <= b@.len(),
            s@ == head + byte_list(b@.subrange(0, i as int)),
        decreases b@.len() - i,
    {
        assert(b@.subrange(0, i + 1).drop_last() =~= b@.subrange(0, i as int));
        if i > 0 {
            s.append(", ");
        }
        push_decimal(s, b[i] as u64);
        i = i + 1;
    }
    assert(b@.subrange(0, b@.len() as int) =~= b@);
    s.append("]");
}

/// Appends a text escaped for a JSON string.
fn push_json_escaped(s: &mut String, text: &str)
    ensures
        final(s)@ == old(s)@ + json_escape(text@),
{
    let t = str_chars(text);
    let mut i: usize = 0;
    while i < t.len()
        invariant
            i <= t@.len(),
            t@ == text@,
            s@ == old(s)@ + json_escape(t@.subrange(0, i as int)),
        decreases t@.len() - i,
    {
        assert(t@.subrange(0, i + 1).drop_last() =~= t@.subrange(0, i as int));
        let c = t[i];
        if c == '\\' {
            s.append("\\\\");
        } else if c == '"' {
            s.append("\\\"");
        } else if c == '\n' {
            s.append("\\n");
        } else if c == '\r' {
            s.append("\\r");
        } else if c == '\t' {
            s.append("\\t");
        } else {
            push_char(s, c);
        }
        i = i + 1;
    }
    assert(t@.subrange(0, t@.len() as int) =~= t@);
}

/// Appends the type and data of an event.
fn push_event_body(s: &mut String, ev: &RecordedEvent)
    ensures
        final(s)@ == old(s)@ + event_body(*ev),
{
    match ev {
        RecordedEvent::Input(d) => {
            s.append("\"Input\", \"data\": ");
            push_bytes_debug(s, d);
        },
        RecordedEvent::Output(d) => {
            s.append("\"Output\", \"data\": ");
            push_bytes_debug(s, d);
        },
        RecordedEvent::StateChange { contents, cursor } => {
            s.append("\"StateChange\", \"contents\": \"");
            push_json_escaped(s, contents.as_str());
            s.append("\", \"cursor\": [");
            push_decimal(s, cursor.0 as u64);
            s.append(", ");
            push_decimal(s, cursor.1 as u64);
            s.append("]");
        },
    }
    assert(s@ =~= old(s)@ + event_body(*ev));
}

/// Appends one event line with its line feed.
fn push_event_line(s: &mut String, e: &TimestampedEvent, last: bool)
    ensures
        final(s)@ == old(s)@ + event_json(*e, if last { Seq::empty() } else { ","@ }) + "\n"@,
{
    s.append("  {\"timestamp_ms\": ");
    push_decimal_wide(s, e.timestamp_ms);
    s.append(", \"event\": {\"type\": ");
    push_event_body(s, &e.event);
    s.append("}}");
    if !last {
        s.append(",");
    }
    s.append("\n");
    assert(s@ =~= old(s)@ + event_json(*e, if last { Seq::empty() } else { ","@ }) + "\n"@);
}

/// The recording as a JSON array, one event per line.
pub fn recording_json(events: &Vec<TimestampedEvent>) -> (r: String)
    ensures
        r@ == recording_text(events@),
{
    let mut s = String::new();
    s.append("[\n");
    let ghost head = s@;
    let n = events.len();
    let mut i: usize = 0;
    while i < n
        invariant
            n == events@.len(),
            i <= n,
            head == "[\n"@,
            s@ == head + event_lines(events@.subrange(0, i as int), n as nat),
        decreases n - i,
    {
        assert(events@.subrange(0, i + 1).drop_last() =~= events@.subrange(0, i as int));
        push_event_line(&mut s, &events[i], i + 1 == n);
        assert(events@.subrange(0, i + 1).last() == events@[i as int]);
        i = i + 1;
    }
    assert(events@.subrange(0, n as int) =~= events@);
    s.append("]\n");
    s
}

/// The events of a recording session: kept only while recording.
pub struct Recording {
    active: bool,
    events: Vec<TimestampedEvent>,
}

impl Recording {
    /// Whether events are being recorded.
    pub closed spec fn is_active(&self) -> bool {
        self.active
    }

    /// The recorded events, oldest first.
    pub closed spec fn events_view(&self) -> Seq<TimestampedEvent> {
        self.events@
    }

    /// A session that records nothing yet.
    pub fn new() -> (r: Recording)
        ensures
            !r.is_active(),
            r.events_view().len() == 0,
    {
        Recording { active: false, events: Vec::new() }
    }

    /// Starts recording, forgetting earlier events.
    pub fn start(&mut self)
        ensures
            final(self).is_active(),
            final(self).events_view().len() == 0,
    {
        self.active = true;
        self.events.clear();
    }

    /// Stops recording; the events stay.
    pub fn stop(&mut self)
        ensures
            !final(self).is_active(),
            final(self).events_view() == old(self).events_view(),
    {
        self.active = false;
    }

    /// Whether events are being recorded.
    pub fn is_recording(&self) -> (r: bool)
        ensures
            r == self.is_active(),
    {
        self.active
    }

    /// Records an event at a time, while recording.
    pub fn record(&mut self, event: RecordedEvent, timestamp_ms: u128)
        ensures
            final(self).is_active() == old(self).is_active(),
            final(self).events_view() == if old(self).is_active() {
                old(self).events_view().push(TimestampedEvent { timestamp_ms, event })
            } else {
                old(self).events_view()
            },
    {
        if self.active {
            self.events.push(TimestampedEvent { timestamp_ms, event });
        }
    }

    /// The recorded events.
    pub fn events(&self) -> (r: &Vec<TimestampedEvent>)
        ensures
            r@ == self.events_view(),
    {
        &self.events
    }
}

/// What updating the screen from the terminal gave.
#[derive(Debug, Clone, Copy, PartialEq, Eq, Structural)]
pub enum UpdateOutcome {
    /// The output was read.
    Updated,
    /// The child process has exited.
    Exited,
    /// Reading failed with another error.
    Failed,
}

/// What a wait loop does next.
#[derive(Debug, Clone, Copy, PartialEq, Eq, Structural)]
pub enum WaitStep {
    /// The condition holds: done.
    Satisfied,
    /// The process exited without the condition holding: fail so.
    Exited,
    /// Pass the update's error on.
    Failed,
    /// The time is up: fail with a timeout.
    TimedOut,
    /// Sleep one poll interval and update again.
    Poll,
}

/// The next step of a wait: the condition is checked after every update,
/// also after the process exited, and the time only when it does not hold.
pub fn wait_step(update: UpdateOutcome, condition_met: bool, elapsed_nanos: u128, timeout_nanos: u128) -> (s: WaitStep)
    ensures
        s == match update {
            UpdateOutcome::Failed => WaitStep::Failed,
            UpdateOutcome::Exited => if condition_met {
                WaitStep::Satisfied
            } else {
                WaitStep::Exited
            },
            UpdateOutcome::Updated => if condition_met {
                WaitStep::Satisfied
            } else if elapsed_nanos >= timeout_nanos {
                WaitStep::TimedOut
            } else {
                WaitStep::Poll
            },
        },
{
    match update {
        UpdateOutcome::Failed => WaitStep::Failed,
        UpdateOutcome::Exited => if condition_met {
            WaitStep::Satisfied
        } else {
            WaitStep::Exited
        },
        UpdateOutcome::Updated => if condition_met {
            WaitStep::Satisfied
        } else if elapsed_nanos >= timeout_nanos {
            WaitStep::TimedOut
        } else {
            WaitStep::Poll
        },
    }
}

/// The timeout error of a wait of `timeout_nanos`: whole milliseconds,
/// truncated to 64 bits.
pub fn timeout_error(timeout_nanos: u128) -> (e: TermTestError)
    ensures
        e == (TermTestError::Timeout { timeout_ms: (timeout_nanos / 1_000_000) as u64 }),
{
    TermTestError::Timeout { timeout_ms: #[verifier::truncate] ((timeout_nanos / 1_000_000) as u64) }
}

/// The description of a wait for text: `text '<text>'`.
pub fn text_wait_description(text: &str) -> (r: String)
    ensures
        r@ == "text '"@ + text@ + "'"@,
{
    let mut r = String::new();
    r.append("text '");
    r.append(text);
    r.append("'");
    r
}

/// The description of a wait for the cursor: `cursor at (row, col)`.
pub fn cursor_wait_description(pos: (u16, u16)) -> (r: String)
    ensures
        r@ == "cursor at ("@ + decimal(pos.0 as nat) + ", "@ + decimal(pos.1 as nat) + ")"@,
{
    let mut r = String::new();
    r.append("cursor at (");
    push_decimal(&mut r, pos.0 as u64);
    r.append(", ");
    push_decimal(&mut r, pos.1 as u64);
    r.append(")");
    r
}

/// What one read of the terminal gave.
#[derive(Debug, Clone, Copy, PartialEq, Eq, Structural)]
pub enum ReadOutcome {
    /// This many bytes (more than zero) were read.
    Data(usize),
    /// Nothing more to read now.
    Empty,
    /// The read would block.
    WouldBlock,
    /// Another error.
    Error,
}

/// What an update does with a read.
#[derive(Debug, Clone, Copy, PartialEq, Eq, Structural)]
pub enum ReadStep {
    /// Record and feed these bytes, then read again.
    Process(usize),
    /// Stop reading.
    Stop,
    /// Stop and pass the read's error on.
    Fail,
}

/// The step of an update after a read: data is processed; no data or a
/// read that would block ends the reading; another error fails the update
/// while the process runs, and only ends the reading of what an exited
/// process left.
pub fn read_step(running: bool, outcome: ReadOutcome) -> (s: ReadStep)
    ensures
        s == match outcome {
            ReadOutcome::Data(n) => ReadStep::Process(n),
            ReadOutcome::Empty => ReadStep::Stop,
            ReadOutcome::WouldBlock => ReadStep::Stop,
            ReadOutcome::Error => if running {
                ReadStep::Fail
            } else {
                ReadStep::Stop
            },
        },
{
    match outcome {
        ReadOutcome::Data(n) => ReadStep::Process(n),
        ReadOutcome::Empty => ReadStep::Stop,
        ReadOutcome::WouldBlock => ReadStep::Stop,
        ReadOutcome::Error => if running {
            ReadStep::Fail
        } else {
            ReadStep::Stop
        },
    }
}

/// What `Duration::from_millis` gives.
pub uninterp spec fn duration_from_millis(ms: u64) -> std::time::Duration;

/// `Duration::from_millis`. Trusted: the duration is named by `duration_from_millis`.
pub assume_specification[ std::time::Duration::from_millis ](ms: u64) -> (d: std::time::Duration)
    ensures
        d == duration_from_millis(ms),
;

/// Settings of a test harness before it is built.
#[derive(Debug, Clone, Copy)]
pub struct TuiTestHarnessBuilder {
    width: u16,
    height: u16,
    timeout: std::time::Duration,
    poll_interval: std::time::Duration,
    buffer_size: usize,
}

impl Default for TuiTestHarnessBuilder {
    fn default() -> (b: TuiTestHarnessBuilder)
        ensures
            b.size_view() == (80u16, 24u16),
            b.timeout_view() == crate::ipc::duration_from_secs(5),
            b.poll_interval_view() == duration_from_millis(100),
            b.buffer_size_view() == 4096,
    {
        TuiTestHarnessBuilder {
            width: 80,
            height: 24,
            timeout: std::time::Duration::from_secs(5),
            poll_interval: std::time::Duration::from_millis(100),
            buffer_size: 4096,
        }
    }
}

impl TuiTestHarnessBuilder {
    /// The terminal size (width, height).
    pub closed spec fn size_view(&self) -> (u16, u16) {
        (self.width, self.height)
    }

    /// The timeout of wait operations.
    pub closed spec fn timeout_view(&self) -> std::time::Duration {
        self.timeout
    }

    /// The polling interval of wait operations.
    pub closed spec fn poll_interval_view(&self) -> std::time::Duration {
        self.poll_interval
    }

    /// The size of the buffer for reading output.
    pub closed spec fn buffer_size_view(&self) -> usize {
        self.buffer_size
    }

    /// Sets the terminal size.
    pub fn with_size(self, width: u16, height: u16) -> (b: TuiTestHarnessBuilder)
        ensures
            b.size_view() == (width, height),
            b.timeout_view() == self.timeout_view(),
            b.poll_interval_view() == self.poll_interval_view(),
            b.buffer_size_view() == self.buffer_size_view(),
    {
        TuiTestHarnessBuilder { width, height, ..self }
    }

    /// Sets the timeout for wait operations.
    pub fn with_timeout(self, timeout: std::time::Duration) -> (b: TuiTestHarnessBuilder)
        ensures
            b.size_view() == self.size_view(),
            b.timeout_view() == timeout,
            b.poll_interval_view() == self.poll_interval_view(),
            b.buffer_size_view() == self.buffer_size_view(),
    {
        TuiTestHarnessBuilder { timeout, ..self }
    }

    /// Sets the polling interval for wait operations.
    pub fn with_poll_interval(self, interval: std::time::Duration) -> (b: TuiTestHarnessBuilder)
        ensures
            b.size_view() == self.size_view(),
            b.timeout_view() == self.timeout_view(),
            b.poll_interval_view() == interval,
            b.buffer_size_view() == self.buffer_size_view(),
    {
        TuiTestHarnessBuilder { poll_interval: interval, ..self }
    }

    /// Sets the buffer size for reading output.
    pub fn with_buffer_size(self, size: usize) -> (b: TuiTestHarnessBuilder)
        ensures
            b.size_view() == self.size_view(),
            b.timeout_view() == self.timeout_view(),
            b.poll_interval_view() == self.poll_interval_view(),
            b.buffer_size_view() == size,
    {
        TuiTestHarnessBuilder { buffer_size: size, ..self }
    }

    /// The terminal size (width, height).
    pub fn size(&self) -> (r: (u16, u16))
        ensures
            r == self.size_view(),
    {
        (self.width, self.height)
    }

    /// The timeout of wait operations.
    pub fn timeout(&self) -> (r: std::time::Duration)
        ensures
            r == self.timeout_view(),
    {
        self.timeout
    }

    /// The polling interval of wait operations.
    pub fn poll_interval(&self) -> (r: std::time::Duration)
        ensures
            r == self.poll_interval_view(),
    {
        self.poll_interval
    }

    /// The size of the buffer for reading output.
    pub fn buffer_size(&self) -> (r: usize)
        ensures
            r == self.buffer_size_view(),
    {
        self.buffer_size
    }
}

/// Result of a wait for one of several conditions.
#[derive(Debug, Clone, Copy, PartialEq, Eq, Structural)]
pub enum WaitResult {
    /// The condition was met.
    Satisfied,
    /// One of multiple conditions was met (index of the condition).
    Condition(usize),
    /// The operation timed out (after this many milliseconds).
    Timeout(u64),
}

/// The first condition that holds, if any.
pub open spec fn first_met(met: Seq<bool>, i: int) -> Option<int>
    decreases met.len() - i,
{
    if i < 0 || i >= met.len() {
        None
    } else if met[i] {
        Some(i)
    } else {
        first_met(met, i + 1)
    }
}

/// The step of a wait for any of several conditions, given which hold now:
/// the first that holds ends it; else the time running out ends it (a
/// timeout result, in whole milliseconds truncated to 64 bits); else `None`,
/// wait another interval.
pub fn wait_any_step(met: &Vec<bool>, elapsed_nanos: u128, timeout_nanos: u128) -> (r: Option<WaitResult>)
    ensures
        first_met(met@, 0) matches Some(i) ==> r == Some(WaitResult::Condition(i as usize)),
        first_met(met@, 0) is None && elapsed_nanos >= timeout_nanos ==> r == Some(
            WaitResult::Timeout((timeout_nanos / 1_000_000) as u64),
        ),
        first_met(met@, 0) is None && elapsed_nanos < timeout_nanos ==> r is None,
{
    let mut i: usize = 0;
    while i < met.len()
        invariant
            i <= met@.len(),
            first_met(met@, 0) == first_met(met@, i as int),
        decreases met@.len() - i,
    {
        if met[i] {
            return Some(WaitResult::Condition(i));
        }
        i = i + 1;
    }
    if elapsed_nanos >= timeout_nanos {
        return Some(WaitResult::Timeout(#[verifier::truncate] ((timeout_nanos / 1_000_000) as u64)));
    }
    None
}

} // verus!
