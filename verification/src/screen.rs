//! Terminal screen state: a grid of cells with a cursor and a pen, driven by
//! the actions of a VT parser, with Sixel, Kitty and iTerm2 graphics regions
//! recorded where they were drawn.

use vstd::prelude::*;
use crate::dims::{iterm2_bytes, iterm2_dimensions, kitty_bytes, kitty_dimensions, raster_attributes, raster_bytes};
use crate::vt::{classify_action, csi_arg, csi_arg_of, new_parser, parse_actions, parsed_of, vt_actions, vt_next, CsiArg, ParsedAction};

verus! {

/// One terminal cell: a character and its attributes.
#[derive(Debug, Clone, Copy, PartialEq, Eq, Structural)]
pub struct Cell {
    /// The character displayed in this cell.
    pub c: char,
    /// Foreground color (None = default, Some(0-255) = ANSI color).
    pub fg: Option<u8>,
    /// Background color (None = default, Some(0-255) = ANSI color).
    pub bg: Option<u8>,
    /// Bold attribute.
    pub bold: bool,
    /// Italic attribute.
    pub italic: bool,
    /// Underline attribute.
    pub underline: bool,
}

/// A space with default colors and no attributes.
pub open spec fn blank_cell() -> Cell {
    Cell { c: ' ', fg: None, bg: None, bold: false, italic: false, underline: false }
}

impl Default for Cell {
    fn default() -> (c: Cell)
        ensures
            c == blank_cell(),
    {
        Cell { c: ' ', fg: None, bg: None, bold: false, italic: false, underline: false }
    }
}

/// A rectangle in cell coordinates: column `x`, row `y`, `width` columns, `height` rows.
#[derive(Debug, Clone, Copy, PartialEq, Eq, Hash, Structural)]
pub struct Rect {
    /// X coordinate (column, 0-indexed).
    pub x: u16,
    /// Y coordinate (row, 0-indexed).
    pub y: u16,
    /// Width in columns.
    pub width: u16,
    /// Height in rows.
    pub height: u16,
}

/// `a + b`, capped at `u16::MAX`.
pub open spec fn sat_add16(a: u16, b: u16) -> u16 {
    if a + b > u16::MAX {
        u16::MAX
    } else {
        (a + b) as u16
    }
}

impl Rect {
    /// The right edge, `x + width` (capped at `u16::MAX`).
    pub open spec fn right_edge(self) -> u16 {
        sat_add16(self.x, self.width)
    }

    /// The bottom edge, `y + height` (capped at `u16::MAX`).
    pub open spec fn bottom_edge(self) -> u16 {
        sat_add16(self.y, self.height)
    }

    /// A rectangle with the given position and size.
    pub fn new(x: u16, y: u16, width: u16, height: u16) -> (r: Rect)
        ensures
            r == (Rect { x, y, width, height }),
    {
        Rect { x, y, width, height }
    }

    /// The right edge (`x + width`, saturating).
    pub fn right(&self) -> (r: u16)
        ensures
            r == self.right_edge(),
    {
        self.x.saturating_add(self.width)
    }

    /// The bottom edge (`y + height`, saturating).
    pub fn bottom(&self) -> (r: u16)
        ensures
            r == self.bottom_edge(),
    {
        self.y.saturating_add(self.height)
    }

    /// The point (`x`, `y`) lies inside.
    pub open spec fn holds_point(self, x: u16, y: u16) -> bool {
        self.x <= x < self.right_edge() && self.y <= y < self.bottom_edge()
    }

    /// `other` lies entirely inside.
    pub open spec fn holds_rect(self, other: Rect) -> bool {
        other.x >= self.x && other.y >= self.y && other.right_edge() <= self.right_edge()
            && other.bottom_edge() <= self.bottom_edge()
    }

    /// The two rectangles share a cell.
    pub open spec fn meets(self, other: Rect) -> bool {
        self.x < other.right_edge() && self.right_edge() > other.x && self.y < other.bottom_edge()
            && self.bottom_edge() > other.y
    }

    /// Whether the point (`x`, `y`) lies inside.
    pub fn contains(&self, x: u16, y: u16) -> (r: bool)
        ensures
            r == self.holds_point(x, y),
    {
        x >= self.x && x < self.right() && y >= self.y && y < self.bottom()
    }

    /// Whether `other` lies entirely inside.
    pub fn contains_rect(&self, other: &Rect) -> (r: bool)
        ensures
            r == self.holds_rect(*other),
    {
        other.x >= self.x && other.y >= self.y && other.right() <= self.right() && other.bottom()
            <= self.bottom()
    }

    /// Whether the two rectangles share a cell.
    pub fn intersects(&self, other: &Rect) -> (r: bool)
        ensures
            r == self.meets(*other),
    {
        self.x < other.right() && self.right() > other.x && self.y < other.bottom() && self.bottom()
            > other.y
    }
}

/// Intersection is symmetric: `a` meets `b` exactly when `b` meets `a`.
pub proof fn law_intersects_symmetric(a: Rect, b: Rect)
    ensures
        a.meets(b) == b.meets(a),
{
}

/// Containment is reflexive, and a point inside a contained rectangle lies
/// inside the containing one.
pub proof fn law_contains_rect(a: Rect, b: Rect, x: u16, y: u16)
    ensures
        a.holds_rect(a),
        a.holds_rect(b) && b.holds_point(x, y) ==> a.holds_point(x, y),
{
}

/// A rectangle meets every rectangle it contains that has a cell (whose
/// edges, capped at the largest coordinate, lie beyond its corner).
pub proof fn law_containment_meets(a: Rect, b: Rect)
    requires
        a.holds_rect(b),
        b.right_edge() > b.x,
        b.bottom_edge() > b.y,
    ensures
        a.meets(b),
{
}

/// A graphics region as a value: where it was drawn, its size and its raw data.
pub struct RegionView {
    /// Starting row (0-indexed).
    pub start_row: u16,
    /// Starting column (0-indexed).
    pub start_col: u16,
    /// Width (pixels for Sixel and Kitty, cells for iTerm2).
    pub width: u32,
    /// Height (pixels for Sixel and Kitty, cells for iTerm2).
    pub height: u32,
    /// Raw escape-sequence data.
    pub data: Seq<u8>,
}

/// A Sixel graphics region.
#[derive(Debug, Clone)]
pub struct SixelRegion {
    /// Starting row (0-indexed).
    pub start_row: u16,
    /// Starting column (0-indexed).
    pub start_col: u16,
    /// Width in pixels.
    pub width: u32,
    /// Height in pixels.
    pub height: u32,
    /// Raw Sixel escape sequence data.
    pub data: Vec<u8>,
}

impl View for SixelRegion {
    type V = RegionView;

    open spec fn view(&self) -> RegionView {
        RegionView {
            start_row: self.start_row,
            start_col: self.start_col,
            width: self.width,
            height: self.height,
            data: self.data@,
        }
    }
}

/// A Kitty graphics region.
#[derive(Debug, Clone)]
pub struct KittyRegion {
    /// Starting row (0-indexed).
    pub start_row: u16,
    /// Starting column (0-indexed).
    pub start_col: u16,
    /// Width in pixels.
    pub width: u32,
    /// Height in pixels.
    pub height: u32,
    /// Raw Kitty graphics escape sequence data.
    pub data: Vec<u8>,
}

impl View for KittyRegion {
    type V = RegionView;

    open spec fn view(&self) -> RegionView {
        RegionView {
            start_row: self.start_row,
            start_col: self.start_col,
            width: self.width,
            height: self.height,
            data: self.data@,
        }
    }
}

/// An iTerm2 inline image region.
#[derive(Debug, Clone)]
pub struct ITerm2Region {
    /// Starting row (0-indexed).
    pub start_row: u16,
    /// Starting column (0-indexed).
    pub start_col: u16,
    /// Width in cells.
    pub width: u32,
    /// Height in cells.
    pub height: u32,
    /// Raw iTerm2 inline image escape sequence data.
    pub data: Vec<u8>,
}

impl View for ITerm2Region {
    type V = RegionView;

    open spec fn view(&self) -> RegionView {
        RegionView {
            start_row: self.start_row,
            start_col: self.start_col,
            width: self.width,
            height: self.height,
            data: self.data@,
        }
    }
}

/// A copy of the whole screen grid with its size and cursor.
#[derive(Debug, PartialEq, Eq)]
pub struct GridSnapshot {
    /// Screen width in columns.
    pub width: u16,
    /// Screen height in rows.
    pub height: u16,
    /// The cells, row-major: `cells[row][col]`.
    pub cells: Vec<Vec<Cell>>,
    /// Cursor position as (row, col), 0-indexed.
    pub cursor: (u16, u16),
}

impl Clone for GridSnapshot {
    fn clone(&self) -> (r: GridSnapshot)
        ensures
            r.width == self.width,
            r.height == self.height,
            r.cursor == self.cursor,
    {
        let cursor: (u16, u16) = (self.cursor.0, self.cursor.1);
        GridSnapshot { width: self.width, height: self.height, cells: self.cells.clone(), cursor }
    }
}

/// The attributes given to newly printed characters.
#[derive(Debug, Clone, Copy, PartialEq, Eq, Structural)]
pub struct Pen {
    /// Foreground color.
    pub fg: Option<u8>,
    /// Background color.
    pub bg: Option<u8>,
    /// Bold.
    pub bold: bool,
    /// Italic.
    pub italic: bool,
    /// Underline.
    pub underline: bool,
}

/// Default colors, no attributes.
pub open spec fn default_pen() -> Pen {
    Pen { fg: None, bg: None, bold: false, italic: false, underline: false }
}

/// A parser action as a value.
pub enum EventView {
    /// A printable character.
    Print(char),
    /// A C0 or C1 control byte.
    Execute(u8),
    /// Start of a device control string with its final byte.
    DcsHook(u8),
    /// One data byte of a device control string.
    DcsPut(u8),
    /// End of a device control string.
    DcsUnhook,
    /// An escape sequence with its final byte.
    Esc(u8),
    /// A control sequence with its parameters and final byte.
    Csi(Seq<CsiArg>, u8),
    /// An operating system command with its parameters.
    Osc(Seq<Seq<u8>>),
    /// An application program command with its data.
    Apc(Seq<u8>),
}

/// The whole terminal state as a value.
pub struct TermView {
    /// Columns.
    pub width: u16,
    /// Rows.
    pub height: u16,
    /// Cursor (row, col).
    pub cursor: (u16, u16),
    /// Cells, row-major.
    pub grid: Seq<Seq<Cell>>,
    /// Attributes for printed characters.
    pub pen: Pen,
    /// Completed Sixel regions, oldest first.
    pub sixels: Seq<RegionView>,
    /// Kitty regions, oldest first.
    pub kitty: Seq<RegionView>,
    /// iTerm2 regions, oldest first.
    pub iterm2: Seq<RegionView>,
    /// Whether a Sixel device control string is open.
    pub in_sixel: bool,
    /// Data of the open Sixel string.
    pub sixel_data: Seq<u8>,
}

/// The largest index below `n`, or 0 when `n` is 0.
pub open spec fn last_index(n: u16) -> u16 {
    if n == 0 {
        0
    } else {
        (n - 1) as u16
    }
}

/// The smaller of two integers, as a `u16` bound.
pub open spec fn min16(a: int, b: u16) -> u16 {
    if a < b {
        a as u16
    } else {
        b
    }
}

/// A `height` by `width` grid of blank cells.
pub open spec fn blank_grid(width: u16, height: u16) -> Seq<Seq<Cell>> {
    Seq::new(height as nat, |r: int| Seq::new(width as nat, |c: int| blank_cell()))
}

/// A fresh terminal: blank grid, cursor at the origin, default pen, no graphics.
pub open spec fn initial_view(width: u16, height: u16) -> TermView {
    TermView {
        width,
        height,
        cursor: (0, 0),
        grid: blank_grid(width, height),
        pen: default_pen(),
        sixels: Seq::empty(),
        kitty: Seq::empty(),
        iterm2: Seq::empty(),
        in_sixel: false,
        sixel_data: Seq::empty(),
    }
}

/// The shape every reachable state has.
pub open spec fn view_wf(v: TermView) -> bool {
    &&& v.grid.len() == v.height
    &&& forall|r: int| 0 <= r < v.grid.len() ==> (#[trigger] v.grid[r]).len() == v.width
    &&& v.cursor.0 <= last_index(v.height)
    &&& v.cursor.1 <= last_index(v.width)
}

/// The cursor moved to `cursor`.
pub open spec fn with_cursor(v: TermView, cursor: (u16, u16)) -> TermView {
    TermView { cursor, ..v }
}

/// Printing `ch`: inside the grid the cell at the cursor takes `ch` and the
/// pen, and the cursor moves right unless it is in the last column (no wrap).
pub open spec fn print_step(v: TermView, ch: char) -> TermView {
    let (row, col) = v.cursor;
    if row < v.height && col < v.width {
        let cell = Cell {
            c: ch,
            fg: v.pen.fg,
            bg: v.pen.bg,
            bold: v.pen.bold,
            italic: v.pen.italic,
            underline: v.pen.underline,
        };
        TermView {
            grid: v.grid.update(row as int, v.grid[row as int].update(col as int, cell)),
            cursor: (row, if col + 1 < v.width {
                (col + 1) as u16
            } else {
                col
            }),
            ..v
        }
    } else {
        v
    }
}

/// The cursor one row down, unless on the last row.
pub open spec fn line_down(v: TermView) -> TermView {
    if v.cursor.0 + 1 < v.height {
        with_cursor(v, ((v.cursor.0 + 1) as u16, v.cursor.1))
    } else {
        v
    }
}

/// Control bytes: CR to column 0, LF one row down, TAB to the next multiple of 8
/// (at most the last column); others are ignored.
pub open spec fn execute_step(v: TermView, b: u8) -> TermView {
    if b == 0x0d {
        with_cursor(v, (v.cursor.0, 0))
    } else if b == 0x0a {
        line_down(v)
    } else if b == 0x09 {
        with_cursor(v, (v.cursor.0, min16((v.cursor.1 / 8 + 1) * 8, last_index(v.width))))
    } else {
        v
    }
}

/// Escape sequences: `ESC D` (index) one row down, `ESC E` (next line) one row
/// down and to column 0; others are ignored.
pub open spec fn esc_step(v: TermView, b: u8) -> TermView {
    if b == 0x44 {
        line_down(v)
    } else if b == 0x45 {
        with_cursor(line_down(v), (line_down(v).cursor.0, 0))
    } else {
        v
    }
}

/// The integer parameters, in order, skipping marker bytes.
pub open spec fn csi_ints(args: Seq<CsiArg>) -> Seq<i64>
    decreases args.len(),
{
    if args.len() == 0 {
        Seq::empty()
    } else {
        match args.last() {
            CsiArg::Integer(n) => csi_ints(args.drop_last()).push(n),
            CsiArg::Marker(_) => csi_ints(args.drop_last()),
        }
    }
}

/// The `i`-th integer parameter, or `dflt`.
pub open spec fn int_or(ints: Seq<i64>, i: int, dflt: i64) -> i64 {
    if i < ints.len() {
        ints[i]
    } else {
        dflt
    }
}

/// `n - 1` on `i64`, saturating at the lower bound.
pub open spec fn dec_i64(n: i64) -> i64 {
    if n == i64::MIN {
        n
    } else {
        (n - 1) as i64
    }
}

/// `a - b`, floored at 0.
pub open spec fn sub16(a: u16, b: u16) -> u16 {
    if a >= b {
        (a - b) as u16
    } else {
        0
    }
}

/// One SGR code applied to the pen (codes 38 and 48 are handled by `sgr_from`).
pub open spec fn sgr_one(p: Pen, x: i64) -> Pen {
    if x == 0 {
        default_pen()
    } else if x == 1 {
        Pen { bold: true, ..p }
    } else if x == 3 {
        Pen { italic: true, ..p }
    } else if x == 4 {
        Pen { underline: true, ..p }
    } else if x == 22 {
        Pen { bold: false, ..p }
    } else if x == 23 {
        Pen { italic: false, ..p }
    } else if x == 24 {
        Pen { underline: false, ..p }
    } else if 30 <= x <= 37 {
        Pen { fg: Some((x - 30) as u8), ..p }
    } else if 90 <= x <= 97 {
        Pen { fg: Some((x - 90 + 8) as u8), ..p }
    } else if x == 39 {
        Pen { fg: None, ..p }
    } else if 40 <= x <= 47 {
        Pen { bg: Some((x - 40) as u8), ..p }
    } else if 100 <= x <= 107 {
        Pen { bg: Some((x - 100 + 8) as u8), ..p }
    } else if x == 49 {
        Pen { bg: None, ..p }
    } else {
        p
    }
}

/// The SGR codes from index `i` on applied to the pen, left to right; `38;5;N`
/// and `48;5;N` set the foreground and background to `N` (truncated to a byte).
pub open spec fn sgr_from(p: Pen, ints: Seq<i64>, i: int) -> Pen
    decreases ints.len() - i,
{
    if i < 0 || i >= ints.len() {
        p
    } else {
        let x = ints[i];
        if (x == 38 || x == 48) && ints.len() - i > 2 && ints[i + 1] == 5 {
            let color = ints[i + 2] as u8;
            let q = if x == 38 {
                Pen { fg: Some(color), ..p }
            } else {
                Pen { bg: Some(color), ..p }
            };
            sgr_from(q, ints, i + 3)
        } else if x == 38 || x == 48 {
            sgr_from(p, ints, i + 1)
        } else {
            sgr_from(sgr_one(p, x), ints, i + 1)
        }
    }
}

/// Select Graphic Rendition: no integer parameters resets the pen.
pub open spec fn sgr(p: Pen, ints: Seq<i64>) -> Pen {
    if ints.len() == 0 {
        default_pen()
    } else {
        sgr_from(p, ints, 0)
    }
}

/// Control sequences: `H`/`f` move to (row, col) from 1-based parameters
/// (default 1), `A`/`B`/`C`/`D` move up/down/right/left by the first integer
/// parameter (default 1, truncated to 16 bits), `m` applies SGR; the cursor
/// stays on the grid and others are ignored.
pub open spec fn csi_step(v: TermView, args: Seq<CsiArg>, byte: u8) -> TermView {
    let ints = csi_ints(args);
    let n = int_or(ints, 0, 1) as u16;
    let (row, col) = v.cursor;
    if byte == 0x48 || byte == 0x66 {
        let r = dec_i64(int_or(ints, 0, 1)) as u16;
        let c = dec_i64(int_or(ints, 1, 1)) as u16;
        with_cursor(v, (min16(r as int, last_index(v.height)), min16(c as int, last_index(v.width))))
    } else if byte == 0x41 {
        with_cursor(v, (sub16(row, n), col))
    } else if byte == 0x42 {
        with_cursor(v, (min16(row + n, last_index(v.height)), col))
    } else if byte == 0x43 {
        with_cursor(v, (row, min16(col + n, last_index(v.width))))
    } else if byte == 0x44 {
        with_cursor(v, (row, sub16(col, n)))
    } else if byte == 0x6d {
        TermView { pen: sgr(v.pen, ints), ..v }
    } else {
        v
    }
}

/// A region at the cursor.
pub open spec fn region_at(v: TermView, dims: Option<(u32, u32)>, data: Seq<u8>) -> RegionView {
    let (w, h) = match dims {
        Some(d) => d,
        None => (0u32, 0u32),
    };
    RegionView { start_row: v.cursor.0, start_col: v.cursor.1, width: w, height: h, data }
}

/// Device control strings: final byte `q` opens a Sixel string, whose data
/// bytes are collected; closing it records a Sixel region at the cursor with
/// the size of its raster attributes (0 by 0 without them).
pub open spec fn dcs_hook_step(v: TermView, mode: u8) -> TermView {
    if mode == 0x71 {
        TermView { in_sixel: true, sixel_data: Seq::empty(), ..v }
    } else {
        v
    }
}

/// One byte of an open Sixel string is kept.
pub open spec fn dcs_put_step(v: TermView, b: u8) -> TermView {
    if v.in_sixel {
        TermView { sixel_data: v.sixel_data.push(b), ..v }
    } else {
        v
    }
}

/// Closing a Sixel string records its region.
pub open spec fn dcs_unhook_step(v: TermView) -> TermView {
    if v.in_sixel {
        TermView {
            sixels: v.sixels.push(region_at(v, raster_bytes(v.sixel_data), v.sixel_data)),
            in_sixel: false,
            sixel_data: Seq::empty(),
            ..v
        }
    } else {
        v
    }
}

/// The OSC parameters joined, each followed by `;`.
pub open spec fn join_params(params: Seq<Seq<u8>>) -> Seq<u8>
    decreases params.len(),
{
    if params.len() == 0 {
        Seq::empty()
    } else {
        join_params(params.drop_last()) + params.last().push(0x3bu8)
    }
}

/// `1337` as bytes.
pub open spec fn osc_1337() -> Seq<u8> {
    seq![0x31u8, 0x33, 0x33, 0x37]
}

/// `1337;File=` as bytes.
pub open spec fn osc_1337_file() -> Seq<u8> {
    seq![0x31u8, 0x33, 0x33, 0x37, 0x3b, 0x46, 0x69, 0x6c, 0x65, 0x3d]
}

/// Whether the first OSC parameter names an iTerm2 inline image: it is valid
/// UTF-8 and is `1337` or starts with `1337;File=`.
pub open spec fn is_iterm2_param(p: Seq<u8>) -> bool {
    vstd::utf8::valid_utf8(p) && (p == osc_1337() || (p.len() >= 10 && p.subrange(0, 10)
        == osc_1337_file()))
}

/// Operating system commands: an iTerm2 inline image records a region at the
/// cursor whose data is the joined parameters and whose size is read from them.
pub open spec fn osc_step(v: TermView, params: Seq<Seq<u8>>) -> TermView {
    if params.len() > 0 && is_iterm2_param(params[0]) {
        let data = join_params(params);
        TermView { iterm2: v.iterm2.push(region_at(v, iterm2_bytes(data), data)), ..v }
    } else {
        v
    }
}

/// Application program commands: data starting with `G` is a Kitty graphics
/// command and records a region at the cursor sized from its control data.
pub open spec fn apc_step(v: TermView, data: Seq<u8>) -> TermView {
    if data.len() > 0 && data[0] == 0x47 {
        TermView { kitty: v.kitty.push(region_at(v, kitty_bytes(data), data)), ..v }
    } else {
        v
    }
}

/// The effect of one parser action.
pub open spec fn step(v: TermView, e: EventView) -> TermView {
    match e {
        EventView::Print(c) => print_step(v, c),
        EventView::Execute(b) => execute_step(v, b),
        EventView::DcsHook(m) => dcs_hook_step(v, m),
        EventView::DcsPut(b) => dcs_put_step(v, b),
        EventView::DcsUnhook => dcs_unhook_step(v),
        EventView::Esc(b) => esc_step(v, b),
        EventView::Csi(args, b) => csi_step(v, args, b),
        EventView::Osc(p) => osc_step(v, p),
        EventView::Apc(d) => apc_step(v, d),
    }
}

/// The effect of a sequence of actions, first to last.
pub open spec fn run(v: TermView, es: Seq<EventView>) -> TermView
    decreases es.len(),
{
    if es.len() == 0 {
        v
    } else {
        step(run(v, es.drop_last()), es.last())
    }
}

/// One action keeps the screen's size and shape: the grid stays `height`
/// rows of `width` cells and the cursor stays on it.
proof fn lemma_step_keeps_shape(v: TermView, e: EventView)
    requires
        view_wf(v),
    ensures
        view_wf(step(v, e)),
        step(v, e).width == v.width,
        step(v, e).height == v.height,
{
    match e {
        EventView::Print(c) => {
            let w = print_step(v, c);
            let (row, col) = v.cursor;
            if row < v.height && col < v.width {
                assert forall|r: int| 0 <= r < w.grid.len() implies (#[trigger] w.grid[r]).len() == w.width by {
                    if r != row {
                        assert(w.grid[r] == v.grid[r]);
                    }
                }
            }
        },
        _ => {},
    }
}

/// Whatever the application writes, the screen keeps its size and shape:
/// the grid stays `height` rows of `width` cells and the cursor stays on it.
pub proof fn law_run_keeps_shape(v: TermView, es: Seq<EventView>)
    requires
        view_wf(v),
    ensures
        view_wf(run(v, es)),
        run(v, es).width == v.width,
        run(v, es).height == v.height,
    decreases es.len(),
{
    if es.len() > 0 {
        law_run_keeps_shape(v, es.drop_last());
        lemma_step_keeps_shape(run(v, es.drop_last()), es.last());
    }
}

/// The data bytes of a device control string as actions.
pub open spec fn put_actions(data: Seq<u8>) -> Seq<EventView> {
    data.map_values(|b: u8| EventView::DcsPut(b))
}

/// A Sixel device control string opened and given its data bytes.
pub open spec fn sixel_opened(data: Seq<u8>) -> Seq<EventView> {
    seq![EventView::DcsHook(0x71u8)] + put_actions(data)
}

/// What one SGR code does to the pen: 1, 3 and 4 turn bold, italic and
/// underline on and 22, 23 and 24 off; 30-37 and 90-97 set the foreground
/// to color 0-7 and 8-15, 40-47 and 100-107 the background likewise; 39 and
/// 49 restore the default foreground and background; nothing else changes.
pub proof fn law_sgr_single_codes(p: Pen, c: i64)
    ensures
        c == 1 ==> sgr(p, seq![c]) == (Pen { bold: true, ..p }),
        c == 3 ==> sgr(p, seq![c]) == (Pen { italic: true, ..p }),
        c == 4 ==> sgr(p, seq![c]) == (Pen { underline: true, ..p }),
        c == 22 ==> sgr(p, seq![c]) == (Pen { bold: false, ..p }),
        c == 23 ==> sgr(p, seq![c]) == (Pen { italic: false, ..p }),
        c == 24 ==> sgr(p, seq![c]) == (Pen { underline: false, ..p }),
        30 <= c <= 37 ==> sgr(p, seq![c]) == (Pen { fg: Some((c - 30) as u8), ..p }),
        90 <= c <= 97 ==> sgr(p, seq![c]) == (Pen { fg: Some((c - 82) as u8), ..p }),
        40 <= c <= 47 ==> sgr(p, seq![c]) == (Pen { bg: Some((c - 40) as u8), ..p }),
        100 <= c <= 107 ==> sgr(p, seq![c]) == (Pen { bg: Some((c - 92) as u8), ..p }),
        c == 39 ==> sgr(p, seq![c]) == (Pen { fg: None, ..p }),
        c == 49 ==> sgr(p, seq![c]) == (Pen { bg: None, ..p }),
        sgr(p, Seq::<i64>::empty()) == (Pen { fg: None, bg: None, bold: false, italic: false, underline: false }),
{
    if c != 38 && c != 48 {
        assert(sgr_from(p, seq![c], 0) == sgr_from(sgr_one(p, c), seq![c], 1));
    }
}

/// SGR 0 resets every attribute: whatever the pen was, the parameter list
/// `[0]` leaves no foreground or background color and no bold, italic or
/// underline.
pub proof fn law_sgr_reset_clears_all(p: Pen)
    ensures
        sgr(p, seq![0i64]) == (Pen { fg: None, bg: None, bold: false, italic: false, underline: false }),
        forall|c: i64| 30 <= c <= 37 ==> sgr(sgr(p, seq![c]), seq![0i64]).fg is None,
{
    assert(sgr_from(p, seq![0i64], 0) == sgr_from(sgr_one(p, 0), seq![0i64], 1));
    assert forall|c: i64| 30 <= c <= 37 implies sgr(sgr(p, seq![c]), seq![0i64]).fg is None by {
        let q = sgr(p, seq![c]);
        assert(sgr_from(p, seq![c], 0) == sgr_from(sgr_one(p, c), seq![c], 1));
        assert(sgr_from(q, seq![0i64], 0) == sgr_from(sgr_one(q, 0), seq![0i64], 1));
    }
}

/// The actions of a Sixel image: the `q` device control string, its data
/// bytes, and its end.
pub open spec fn sixel_actions(data: Seq<u8>) -> Seq<EventView> {
    sixel_opened(data).push(EventView::DcsUnhook)
}

/// An opened Sixel string collects its data bytes and changes nothing else.
proof fn lemma_sixel_collects(v: TermView, data: Seq<u8>)
    ensures
        run(v, sixel_opened(data)) == (TermView { in_sixel: true, sixel_data: data, ..v }),
    decreases data.len(),
{
    let es = sixel_opened(data);
    if data.len() == 0 {
        assert(es =~= seq![EventView::DcsHook(0x71u8)]);
        assert(es.drop_last() =~= Seq::<EventView>::empty());
        assert(run(v, es.drop_last()) == v);
        assert(es.last() == EventView::DcsHook(0x71u8));
        assert(Seq::<u8>::empty() =~= data);
    } else {
        let d0 = data.drop_last();
        lemma_sixel_collects(v, d0);
        assert(es.drop_last() =~= sixel_opened(d0));
        assert(es.last() == EventView::DcsPut(data.last()));
        assert(d0.push(data.last()) =~= data);
    }
}

/// Sixel position tracking: a Sixel image is recorded where the cursor was
/// when it was drawn, with the size its raster attributes give (0 by 0
/// without them) and its data; the cursor, grid and earlier images stay.
pub proof fn law_sixel_recorded_at_cursor(v: TermView, data: Seq<u8>)
    ensures
        run(v, sixel_actions(data)).sixels == v.sixels.push(
            RegionView {
                start_row: v.cursor.0,
                start_col: v.cursor.1,
                width: match raster_bytes(data) {
                    Some(d) => d.0,
                    None => 0u32,
                },
                height: match raster_bytes(data) {
                    Some(d) => d.1,
                    None => 0u32,
                },
                data,
            },
        ),
        run(v, sixel_actions(data)).cursor == v.cursor,
        run(v, sixel_actions(data)).grid == v.grid,
{
    let es = sixel_actions(data);
    lemma_sixel_collects(v, data);
    assert(es.drop_last() =~= sixel_opened(data));
    assert(es.last() == EventView::DcsUnhook);
}

/// The terminal state that parser actions update.
pub struct TerminalState {
    cursor_pos: (u16, u16),
    sixel_regions: Vec<SixelRegion>,
    current_sixel_data: Vec<u8>,
    in_sixel_mode: bool,
    kitty_regions: Vec<KittyRegion>,
    iterm2_regions: Vec<ITerm2Region>,
    width: u16,
    height: u16,
    cells: Vec<Vec<Cell>>,
    pen: Pen,
}

impl View for TerminalState {
    type V = TermView;

    closed spec fn view(&self) -> TermView {
        TermView {
            width: self.width,
            height: self.height,
            cursor: self.cursor_pos,
            grid: self.cells@.map_values(|r: Vec<Cell>| r@),
            pen: self.pen,
            sixels: self.sixel_regions@.map_values(|r: SixelRegion| r@),
            kitty: self.kitty_regions@.map_values(|r: KittyRegion| r@),
            iterm2: self.iterm2_regions@.map_values(|r: ITerm2Region| r@),
            in_sixel: self.in_sixel_mode,
            sixel_data: self.current_sixel_data@,
        }
    }
}

impl TerminalState {
    /// Every state this type's operations produce has this shape.
    pub open spec fn inv(&self) -> bool {
        view_wf(self@)
    }

    /// A blank `width` by `height` terminal with the cursor at the origin.
    pub fn new(width: u16, height: u16) -> (s: TerminalState)
        ensures
            s@ == initial_view(width, height),
            s.inv(),
    {
        let mut cells: Vec<Vec<Cell>> = Vec::new();
        let mut r: u16 = 0;
        while r < height
            invariant
                r <= height,
                cells@.len() == r,
                forall|i: int| 0 <= i < r ==> (#[trigger] cells@[i])@ == Seq::new(
                    width as nat,
                    |c: int| blank_cell(),
                ),
            decreases height - r,
        {
            let mut row: Vec<Cell> = Vec::new();
            let mut c: u16 = 0;
            while c < width
                invariant
                    c <= width,
                    row@ == Seq::new(c as nat, |k: int| blank_cell()),
                decreases width - c,
            {
                row.push(Cell::default());
                assert(row@ =~= Seq::new((c + 1) as nat, |k: int| blank_cell()));
                c = c + 1;
            }
            cells.push(row);
            r = r + 1;
        }
        let s = TerminalState {
            cursor_pos: (0, 0),
            sixel_regions: Vec::new(),
            current_sixel_data: Vec::new(),
            in_sixel_mode: false,
            kitty_regions: Vec::new(),
            iterm2_regions: Vec::new(),
            width,
            height,
            cells,
            pen: Pen { fg: None, bg: None, bold: false, italic: false, underline: false },
        };
        assert(s@.grid =~= blank_grid(width, height));
        assert(s@.sixels =~= Seq::<RegionView>::empty());
        assert(s@.kitty =~= Seq::<RegionView>::empty());
        assert(s@.iterm2 =~= Seq::<RegionView>::empty());
        s
    }

    /// Puts `ch` at the cursor with the current attributes and moves right
    /// (no wrap); nothing happens when the cursor is off the grid.
    pub fn put_char(&mut self, ch: char)
        requires
            old(self).inv(),
        ensures
            final(self).inv(),
            final(self)@ == print_step(old(self)@, ch),
    {
        let (row, col) = self.cursor_pos;
        if row < self.height && col < self.width {
            let cell = Cell {
                c: ch,
                fg: self.pen.fg,
                bg: self.pen.bg,
                bold: self.pen.bold,
                italic: self.pen.italic,
                underline: self.pen.underline,
            };
            let ghost old_cells = self.cells@;
            assert(self@.grid[row as int] == old_cells[row as int]@);
            let mut line = Vec::new();
            std::mem::swap(&mut line, &mut self.cells[row as usize]);
            line.set(col as usize, cell);
            std::mem::swap(&mut line, &mut self.cells[row as usize]);
            if col + 1 < self.width {
                self.cursor_pos = (row, col + 1);
            }
            assert(self@.grid =~= old(self)@.grid.update(
                row as int,
                old(self)@.grid[row as int].update(col as int, cell),
            ));
        }
    }

    /// Moves the cursor to (`row`, `col`), clamped to the last row and column.
    pub fn move_cursor(&mut self, row: u16, col: u16)
        requires
            old(self).inv(),
        ensures
            final(self).inv(),
            final(self)@ == with_cursor(
                old(self)@,
                (min16(row as int, last_index(old(self)@.height)), min16(
                    col as int,
                    last_index(old(self)@.width),
                )),
            ),
    {
        let lr: u16 = if self.height == 0 {
            0
        } else {
            self.height - 1
        };
        let lc: u16 = if self.width == 0 {
            0
        } else {
            self.width - 1
        };
        let r = if row < lr {
            row
        } else {
            lr
        };
        let c = if col < lc {
            col
        } else {
            lc
        };
        self.cursor_pos = (r, c);
    }

    fn line_down(&mut self)
        requires
            old(self).inv(),
        ensures
            final(self).inv(),
            final(self)@ == line_down(old(self)@),
    {
        if (self.cursor_pos.0 as u32) + 1 < self.height as u32 {
            self.cursor_pos = (self.cursor_pos.0 + 1, self.cursor_pos.1);
        }
    }

    /// Executes a C0/C1 control byte (CR, LF and TAB act; others are ignored).
    pub fn execute_c0_or_c1(&mut self, control: u8)
        requires
            old(self).inv(),
        ensures
            final(self).inv(),
            final(self)@ == execute_step(old(self)@, control),
    {
        if control == 0x0d {
            self.cursor_pos = (self.cursor_pos.0, 0);
        } else if control == 0x0a {
            self.line_down();
        } else if control == 0x09 {
            let next: u32 = ((self.cursor_pos.1 / 8) as u32 + 1) * 8;
            let lc: u16 = if self.width == 0 {
                0
            } else {
                self.width - 1
            };
            let col: u16 = if next < lc as u32 {
                next as u16
            } else {
                lc
            };
            self.cursor_pos = (self.cursor_pos.0, col);
        }
    }

    /// Handles an escape sequence by its final byte (`D` index, `E` next line).
    pub fn esc_dispatch(&mut self, byte: u8)
        requires
            old(self).inv(),
        ensures
            final(self).inv(),
            final(self)@ == esc_step(old(self)@, byte),
    {
        if byte == 0x44 {
            self.line_down();
        } else if byte == 0x45 {
            self.line_down();
            self.cursor_pos = (self.cursor_pos.0, 0);
        }
    }

    /// Handles a control sequence: cursor positioning and movement, and SGR.
    pub fn csi_dispatch(&mut self, args: &Vec<CsiArg>, byte: u8)
        requires
            old(self).inv(),
        ensures
            final(self).inv(),
            final(self)@ == csi_step(old(self)@, args@, byte),
    {
        let ints = integer_params(args);
        let first: i64 = if ints.len() > 0 {
            ints[0]
        } else {
            1
        };
        let n: u16 = first as u16;
        let (row, col) = self.cursor_pos;
        if byte == 0x48 || byte == 0x66 {
            let second: i64 = if ints.len() > 1 {
                ints[1]
            } else {
                1
            };
            let r0: i64 = if first == i64::MIN {
                first
            } else {
                first - 1
            };
            let c0: i64 = if second == i64::MIN {
                second
            } else {
                second - 1
            };
            let r: u16 = r0 as u16;
            let c: u16 = c0 as u16;
            self.move_cursor(r, c);
        } else if byte == 0x41 {
            self.cursor_pos = (row.saturating_sub(n), col);
        } else if byte == 0x42 {
            let lr: u16 = if self.height == 0 {
                0
            } else {
                self.height - 1
            };
            let target: u32 = row as u32 + n as u32;
            self.cursor_pos = (if target < lr as u32 {
                target as u16
            } else {
                lr
            }, col);
        } else if byte == 0x43 {
            let lc: u16 = if self.width == 0 {
                0
            } else {
                self.width - 1
            };
            let target: u32 = col as u32 + n as u32;
            self.cursor_pos = (row, if target < lc as u32 {
                target as u16
            } else {
                lc
            });
        } else if byte == 0x44 {
            self.cursor_pos = (row, col.saturating_sub(n));
        } else if byte == 0x6d {
            self.pen = apply_sgr(self.pen, &ints);
        }
    }

    /// Starts a device control string; final byte `q` opens a Sixel string.
    pub fn dcs_hook(&mut self, mode: u8)
        requires
            old(self).inv(),
        ensures
            final(self).inv(),
            final(self)@ == dcs_hook_step(old(self)@, mode),
    {
        if mode == 0x71 {
            self.in_sixel_mode = true;
            self.current_sixel_data = Vec::new();
        }
    }

    /// One byte of a device control string (kept while a Sixel string is open).
    pub fn dcs_put(&mut self, byte: u8)
        requires
            old(self).inv(),
        ensures
            final(self).inv(),
            final(self)@ == dcs_put_step(old(self)@, byte),
    {
        if self.in_sixel_mode {
            self.current_sixel_data.push(byte);
        }
    }

    /// Ends a device control string; a Sixel string becomes a region at the cursor.
    pub fn dcs_unhook(&mut self)
        requires
            old(self).inv(),
        ensures
            final(self).inv(),
            final(self)@ == dcs_unhook_step(old(self)@),
    {
        if self.in_sixel_mode {
            let mut data: Vec<u8> = Vec::new();
            std::mem::swap(&mut data, &mut self.current_sixel_data);
            let dims = raster_attributes(data.as_slice());
            let (width, height) = match dims {
                Some(d) => d,
                None => (0, 0),
            };
            let region = SixelRegion {
                start_row: self.cursor_pos.0,
                start_col: self.cursor_pos.1,
                width,
                height,
                data,
            };
            self.sixel_regions.push(region);
            self.in_sixel_mode = false;
            assert(self@.sixels =~= old(self)@.sixels.push(
                region_at(old(self)@, raster_bytes(old(self)@.sixel_data), old(self)@.sixel_data),
            ));
        }
    }

    /// Handles an operating system command; an iTerm2 inline image becomes a region.
    pub fn osc_dispatch(&mut self, params: &Vec<Vec<u8>>)
        requires
            old(self).inv(),
        ensures
            final(self).inv(),
            final(self)@ == osc_step(old(self)@, params@.map_values(|p: Vec<u8>| p@)),
    {
        let ghost ps = params@.map_values(|p: Vec<u8>| p@);
        if params.len() == 0 {
            return;
        }
        assert(ps[0] == params@[0]@);
        if is_iterm2_first(params[0].as_slice()) {
            let data = join_osc(params);
            let dims = iterm2_dimensions(data.as_slice());
            let (width, height) = match dims {
                Some(d) => d,
                None => (0, 0),
            };
            let region = ITerm2Region {
                start_row: self.cursor_pos.0,
                start_col: self.cursor_pos.1,
                width,
                height,
                data,
            };
            self.iterm2_regions.push(region);
            assert(self@.iterm2 =~= old(self)@.iterm2.push(
                region_at(old(self)@, iterm2_bytes(join_params(ps)), join_params(ps)),
            ));
        }
    }

    /// Handles an application program command; Kitty graphics (`G`) become a region.
    pub fn apc_dispatch(&mut self, data: Vec<u8>)
        requires
            old(self).inv(),
        ensures
            final(self).inv(),
            final(self)@ == apc_step(old(self)@, data@),
    {
        if data.len() > 0 && data[0] == 0x47 {
            let dims = kitty_dimensions(data.as_slice());
            let (width, height) = match dims {
                Some(d) => d,
                None => (0, 0),
            };
            let ghost d = data@;
            let region = KittyRegion {
                start_row: self.cursor_pos.0,
                start_col: self.cursor_pos.1,
                width,
                height,
                data,
            };
            self.kitty_regions.push(region);
            assert(self@.kitty =~= old(self)@.kitty.push(region_at(old(self)@, kitty_bytes(d), d)));
        }
    }

    /// Applies one parser action.
    pub fn apply(&mut self, event: VtEvent)
        requires
            old(self).inv(),
        ensures
            final(self).inv(),
            final(self)@ == step(old(self)@, event@),
    {
        match event {
            VtEvent::Print(c) => self.put_char(c),
            VtEvent::Execute(b) => self.execute_c0_or_c1(b),
            VtEvent::DcsHook(m) => self.dcs_hook(m),
            VtEvent::DcsPut(b) => self.dcs_put(b),
            VtEvent::DcsUnhook => self.dcs_unhook(),
            VtEvent::Esc(b) => self.esc_dispatch(b),
            VtEvent::Csi(args, b) => self.csi_dispatch(&args, b),
            VtEvent::Osc(p) => self.osc_dispatch(&p),
            VtEvent::Apc(d) => self.apc_dispatch(d),
        }
    }

    /// Sixel raster attributes (`"Pan;Pad;Ph;Pv` or `"Ph;Pv`) in DCS data, as
    /// (width, height) in pixels; both must be non-zero.
    pub fn parse_raster_attributes(&self, data: &[u8]) -> (r: Option<(u32, u32)>)
        ensures
            r == raster_bytes(data@),
    {
        raster_attributes(data)
    }

    /// Pixel dimensions as cells: 8 pixels per column, 6 per row, rounded up.
    pub fn pixels_to_cells(width_px: u32, height_px: u32) -> (r: (u16, u16))
        requires
            width_px <= u32::MAX - 7,
            height_px <= u32::MAX - 5,
        ensures
            r == (crate::dims::cells_for(width_px, 8), crate::dims::cells_for(height_px, 6)),
    {
        crate::dims::pixels_to_cells(width_px, height_px)
    }

    /// Kitty control-data dimensions (`w=` and `h=`), both non-zero.
    pub fn parse_kitty_dimensions(&self, data: &[u8]) -> (r: Option<(u32, u32)>)
        ensures
            r == kitty_bytes(data@),
    {
        kitty_dimensions(data)
    }

    /// iTerm2 parameter dimensions (`width=` and `height=`), both non-zero.
    pub fn parse_iterm2_dimensions(&self, data: &[u8]) -> (r: Option<(u32, u32)>)
        ensures
            r == iterm2_bytes(data@),
    {
        iterm2_dimensions(data)
    }
}

/// A parser action with plain values.
pub enum VtEvent {
    /// A printable character.
    Print(char),
    /// A C0 or C1 control byte.
    Execute(u8),
    /// Start of a device control string with its final byte.
    DcsHook(u8),
    /// One data byte of a device control string.
    DcsPut(u8),
    /// End of a device control string.
    DcsUnhook,
    /// An escape sequence with its final byte.
    Esc(u8),
    /// A control sequence with its parameters and final byte.
    Csi(Vec<CsiArg>, u8),
    /// An operating system command with its parameters.
    Osc(Vec<Vec<u8>>),
    /// An application program command with its data.
    Apc(Vec<u8>),
}

impl View for VtEvent {
    type V = EventView;

    open spec fn view(&self) -> EventView {
        match self {
            VtEvent::Print(c) => EventView::Print(*c),
            VtEvent::Execute(b) => EventView::Execute(*b),
            VtEvent::DcsHook(m) => EventView::DcsHook(*m),
            VtEvent::DcsPut(b) => EventView::DcsPut(*b),
            VtEvent::DcsUnhook => EventView::DcsUnhook,
            VtEvent::Esc(b) => EventView::Esc(*b),
            VtEvent::Csi(a, b) => EventView::Csi(a@, *b),
            VtEvent::Osc(p) => EventView::Osc(p@.map_values(|x: Vec<u8>| x@)),
            VtEvent::Apc(d) => EventView::Apc(d@),
        }
    }
}

/// The integer CSI parameters, in order.
pub fn integer_params(args: &Vec<CsiArg>) -> (r: Vec<i64>)
    ensures
        r@ == csi_ints(args@),
{
    let mut out: Vec<i64> = Vec::new();
    let mut i: usize = 0;
    while i < args.len()
        invariant
            i <= args@.len(),
            out@ == csi_ints(args@.subrange(0, i as int)),
        decreases args@.len() - i,
    {
        assert(args@.subrange(0, i + 1).drop_last() =~= args@.subrange(0, i as int));
        match args[i] {
            CsiArg::Integer(n) => out.push(n),
            CsiArg::Marker(_) => {},
        }
        i = i + 1;
    }
    assert(args@.subrange(0, args@.len() as int) =~= args@);
    out
}

/// Applies SGR parameters to a pen.
pub fn apply_sgr(pen: Pen, ints: &Vec<i64>) -> (r: Pen)
    ensures
        r == sgr(pen, ints@),
{
    if ints.len() == 0 {
        return Pen { fg: None, bg: None, bold: false, italic: false, underline: false };
    }
    let mut p = pen;
    let mut i: usize = 0;
    while i < ints.len()
        invariant
            i <= ints@.len() + 2,
            ints@.len() > 0,
            sgr_from(p, ints@, i as int) == sgr_from(pen, ints@, 0),
        decreases ints@.len() + 2 - i,
    {
        let x = ints[i];
        if (x == 38 || x == 48) && ints.len() - i > 2 && ints[i + 1] == 5 {
            let color: u8 = ints[i + 2] as u8;
            if x == 38 {
                p = Pen { fg: Some(color), ..p };
            } else {
                p = Pen { bg: Some(color), ..p };
            }
            i = i + 3;
        } else if x == 38 || x == 48 {
            i = i + 1;
        } else {
            p = sgr_code(p, x);
            i = i + 1;
        }
    }
    p
}

/// One SGR code (not 38 or 48) applied to a pen.
pub fn sgr_code(p: Pen, x: i64) -> (r: Pen)
    ensures
        r == sgr_one(p, x),
{
    if x == 0 {
        Pen { fg: None, bg: None, bold: false, italic: false, underline: false }
    } else if x == 1 {
        Pen { bold: true, ..p }
    } else if x == 3 {
        Pen { italic: true, ..p }
    } else if x == 4 {
        Pen { underline: true, ..p }
    } else if x == 22 {
        Pen { bold: false, ..p }
    } else if x == 23 {
        Pen { italic: false, ..p }
    } else if x == 24 {
        Pen { underline: false, ..p }
    } else if 30 <= x && x <= 37 {
        Pen { fg: Some((x - 30) as u8), ..p }
    } else if 90 <= x && x <= 97 {
        Pen { fg: Some((x - 90 + 8) as u8), ..p }
    } else if x == 39 {
        Pen { fg: None, ..p }
    } else if 40 <= x && x <= 47 {
        Pen { bg: Some((x - 40) as u8), ..p }
    } else if 100 <= x && x <= 107 {
        Pen { bg: Some((x - 100 + 8) as u8), ..p }
    } else if x == 49 {
        Pen { bg: None, ..p }
    } else {
        p
    }
}

/// Whether the first OSC parameter names an iTerm2 inline image.
pub fn is_iterm2_first(p: &[u8]) -> (r: bool)
    ensures
        r == is_iterm2_param(p@),
{
    if crate::dims::decode_str(p).is_none() {
        return false;
    }
    let is_1337 = p.len() == 4 && p[0] == 0x31 && p[1] == 0x33 && p[2] == 0x33 && p[3] == 0x37;
    if is_1337 {
        assert(p@ =~= osc_1337());
        return true;
    }
    assert(p@ != osc_1337());
    if p.len() < 10 {
        return false;
    }
    let prefix: [u8; 10] = [0x31, 0x33, 0x33, 0x37, 0x3b, 0x46, 0x69, 0x6c, 0x65, 0x3d];
    let mut i: usize = 0;
    while i < 10
        invariant
            i <= 10,
            p@.len() >= 10,
            prefix@ == osc_1337_file(),
            forall|k: int| 0 <= k < i ==> p@[k] == prefix@[k],
        decreases 10 - i,
    {
        if p[i] != prefix[i] {
            assert(p@.subrange(0, 10)[i as int] != osc_1337_file()[i as int]);
            return false;
        }
        i = i + 1;
    }
    assert(p@.subrange(0, 10) =~= osc_1337_file());
    true
}

/// The OSC parameters joined, each followed by `;`.
pub fn join_osc(params: &Vec<Vec<u8>>) -> (r: Vec<u8>)
    ensures
        r@ == join_params(params@.map_values(|p: Vec<u8>| p@)),
{
    let ghost ps = params@.map_values(|p: Vec<u8>| p@);
    let mut out: Vec<u8> = Vec::new();
    let mut i: usize = 0;
    while i < params.len()
        invariant
            i <= params@.len(),
            ps == params@.map_values(|p: Vec<u8>| p@),
            out@ == join_params(ps.subrange(0, i as int)),
        decreases params@.len() - i,
    {
        let ghost before = out@;
        let mut j: usize = 0;
        while j < params[i].len()
            invariant
                i < params@.len(),
                j <= params@[i as int]@.len(),
                out@ == before + params@[i as int]@.subrange(0, j as int),
            decreases params@[i as int]@.len() - j,
        {
            out.push(params[i][j]);
            assert(params@[i as int]@.subrange(0, j + 1) =~= params@[i as int]@.subrange(0, j as int).push(params@[i as int]@[j as int]));
            j = j + 1;
        }
        out.push(0x3b);
        assert(ps.subrange(0, i + 1).drop_last() =~= ps.subrange(0, i as int));
        assert(ps.subrange(0, i + 1).last() == params@[i as int]@);
        assert(params@[i as int]@.subrange(0, params@[i as int]@.len() as int) =~= params@[i as int]@);
        assert(out@ =~= join_params(ps.subrange(0, i as int)) + params@[i as int]@.push(0x3bu8));
        i = i + 1;
    }
    assert(ps.subrange(0, params@.len() as int) =~= ps);
    out
}

/// The rows of the grid as text, joined with newlines (`\n` between rows).
pub open spec fn screen_text(grid: Seq<Seq<Cell>>) -> Seq<char>
    decreases grid.len(),
{
    if grid.len() == 0 {
        Seq::empty()
    } else if grid.len() == 1 {
        row_text(grid[0])
    } else {
        screen_text(grid.drop_last()).push('\n') + row_text(grid.last())
    }
}

/// The characters of a row.
pub open spec fn row_text(row: Seq<Cell>) -> Seq<char> {
    row.map_values(|c: Cell| c.c)
}

/// Whether `needle` occurs in `hay` as a contiguous run (the empty run always does).
pub open spec fn occurs_in(hay: Seq<char>, needle: Seq<char>) -> bool {
    exists|i: int| 0 <= i && i + needle.len() <= hay.len() && #[trigger] hay.subrange(i, i + needle.len()) == needle
}

/// Whether `needle` occurs in `hay`.
pub fn seq_contains(hay: &Vec<char>, needle: &Vec<char>) -> (r: bool)
    ensures
        r == occurs_in(hay@, needle@),
{
    let n = needle.len();
    if n > hay.len() {
        assert forall|i: int| 0 <= i && i + n <= hay@.len() implies #[trigger] hay@.subrange(i, i + n) != needle@ by {}
        return false;
    }
    let mut i: usize = 0;
    while i <= hay.len() - n
        invariant
            n == needle@.len(),
            n <= hay@.len(),
            i <= hay@.len() - n + 1,
            forall|k: int| 0 <= k < i ==> #[trigger] hay@.subrange(k, k + n) != needle@,
        decreases hay@.len() - i,
    {
        let mut j: usize = 0;
        let mut same = true;
        while j < n
            invariant
                n == needle@.len(),
                i + n <= hay@.len(),
                hay@.len() <= usize::MAX,
                j <= n,
                same == (forall|m: int| 0 <= m < j ==> hay@[i + m] == needle@[m]),
            decreases n - j,
        {
            if hay[i + j] != needle[j] {
                same = false;
            }
            j = j + 1;
        }
        if same {
            assert(hay@.subrange(i as int, i + n) =~= needle@);
            return true;
        }
        assert(hay@.subrange(i as int, i + n)[0] == hay@[i as int]);
        assert(exists|m: int| 0 <= m < n && hay@[i + m] != needle@[m]);
        let ghost m = choose|m: int| 0 <= m < n && hay@[i + m] != needle@[m];
        assert(hay@.subrange(i as int, i + n)[m] != needle@[m]);
        i = i + 1;
    }
    false
}

/// Terminal screen state: a VT parser feeding a terminal state.
pub struct ScreenState {
    parser: vtparse::VTParser,
    state: TerminalState,
    width: u16,
    height: u16,
}

impl ScreenState {
    /// The parser's state, which holds a sequence left incomplete by the
    /// last bytes fed.
    pub closed spec fn parser(&self) -> vtparse::VTParser {
        self.parser
    }

    /// The terminal state as a value.
    pub closed spec fn term(&self) -> TermView {
        self.state@
    }

    /// The well-formedness of a screen.
    pub closed spec fn inv(&self) -> bool {
        &&& self.state.inv()
        &&& self.width == self.state@.width
        &&& self.height == self.state@.height
    }

    /// A well-formed screen has a grid of `height` rows of `width` cells and
    /// its cursor inside.
    pub proof fn lemma_shape(&self)
        requires
            self.inv(),
        ensures
            view_wf(self.term()),
    {
    }

    /// A blank screen of `width` columns and `height` rows, cursor at the origin.
    pub fn new(width: u16, height: u16) -> (s: ScreenState)
        ensures
            s.inv(),
            s.term() == initial_view(width, height),
    {
        let parser = new_parser();
        let state = TerminalState::new(width, height);
        ScreenState { parser, state, width, height }
    }

    /// Feeds output bytes: the parser turns them into actions (keeping any
    /// incomplete sequence for the next call), and each action updates the
    /// state in order.
    pub fn feed(&mut self, data: &[u8])
        requires
            old(self).inv(),
        ensures
            final(self).inv(),
            final(self).term() == run(old(self).term(), events_of(vt_actions(old(self).parser(), data@))),
            final(self).parser() == vt_next(old(self).parser(), data@),
    {
        let ghost acts = vt_actions(self.parser, data@);
        let actions = parse_actions(&mut self.parser, data);
        let ghost start = self.state@;
        let mut i: usize = 0;
        while i < actions.len()
            invariant
                self.inv(),
                actions@ == acts,
                i <= actions@.len(),
                self.state@ == run(start, events_of(acts.subrange(0, i as int))),
                self.width == old(self).width,
                self.height == old(self).height,
                self.parser == vt_next(old(self).parser, data@),
            decreases actions@.len() - i,
        {
            let event = to_event(classify_action(&actions[i]));
            let ghost before = events_of(acts.subrange(0, i as int));
            self.state.apply(event);
            proof {
                let after = events_of(acts.subrange(0, i + 1));
                assert(acts.subrange(0, i + 1) =~= acts.subrange(0, i as int).push(acts[i as int]));
                assert(after =~= before.push(event@));
                assert(after.drop_last() =~= before);
            }
            i = i + 1;
        }
        assert(acts.subrange(0, acts.len() as int) =~= acts);
    }

    /// The screen text: each row's characters, rows separated by `\n`.
    pub fn contents(&self) -> (r: String)
        requires
            self.inv(),
        ensures
            r@ == screen_text(self.term().grid),
    {
        let v = self.content_chars();
        crate::scan::string_from_chars(&v)
    }

    /// The screen text as characters.
    pub fn content_chars(&self) -> (r: Vec<char>)
        requires
            self.inv(),
        ensures
            r@ == screen_text(self.term().grid),
    {
        let ghost g = self.state@.grid;
        let mut out: Vec<char> = Vec::new();
        let mut r: usize = 0;
        while r < self.state.cells.len()
            invariant
                self.inv(),
                g == self.state@.grid,
                r <= g.len(),
                out@ == screen_text(g.subrange(0, r as int)),
            decreases g.len() - r,
        {
            let ghost before = out@;
            if r > 0 {
                out.push('\n');
            }
            let mut c: usize = 0;
            let row = &self.state.cells[r];
            assert(row@ == g[r as int]);
            while c < row.len()
                invariant
                    c <= row@.len(),
                    out@ == (if r > 0 { before.push('\n') } else { before }) + row_text(row@.subrange(0, c as int)),
                decreases row@.len() - c,
            {
                out.push(row[c].c);
                assert(row_text(row@.subrange(0, c + 1)) =~= row_text(row@.subrange(0, c as int)).push(row@[c as int].c));
                c = c + 1;
            }
            assert(row@.subrange(0, row@.len() as int) =~= row@);
            assert(g.subrange(0, r + 1).drop_last() =~= g.subrange(0, r as int));
            assert(g.subrange(0, r + 1).last() == g[r as int]);
            if r == 0 {
                assert(g.subrange(0, 1) =~= seq![g[0]]);
                assert(out@ =~= screen_text(g.subrange(0, 1)));
            } else {
                assert(out@ =~= screen_text(g.subrange(0, r + 1)));
            }
            r = r + 1;
        }
        assert(g.subrange(0, g.len() as int) =~= g);
        out
    }

    /// The text of row `row`, or the empty string outside the screen.
    pub fn row_contents(&self, row: u16) -> (r: String)
        requires
            self.inv(),
        ensures
            r@ == (if row < self.term().height {
                row_text(self.term().grid[row as int])
            } else {
                Seq::empty()
            }),
    {
        let mut out: Vec<char> = Vec::new();
        if row < self.height {
            let line = &self.state.cells[row as usize];
            assert(line@ == self.state@.grid[row as int]);
            let mut c: usize = 0;
            while c < line.len()
                invariant
                    c <= line@.len(),
                    out@ == row_text(line@.subrange(0, c as int)),
                decreases line@.len() - c,
            {
                out.push(line[c].c);
                assert(row_text(line@.subrange(0, c + 1)) =~= row_text(line@.subrange(0, c as int)).push(line@[c as int].c));
                c = c + 1;
            }
            assert(line@.subrange(0, line@.len() as int) =~= line@);
        }
        crate::scan::string_from_chars(&out)
    }

    /// The character at (`row`, `col`), or `None` outside the screen.
    pub fn text_at(&self, row: u16, col: u16) -> (r: Option<char>)
        requires
            self.inv(),
        ensures
            r == (if row < self.term().height && col < self.term().width {
                Some(self.term().grid[row as int][col as int].c)
            } else {
                None
            }),
    {
        if row < self.height && col < self.width {
            assert(self.state@.grid[row as int] == self.state.cells@[row as int]@);
            Some(self.state.cells[row as usize][col as usize].c)
        } else {
            None
        }
    }

    /// The cell at (`row`, `col`), or `None` outside the screen.
    pub fn get_cell(&self, row: u16, col: u16) -> (r: Option<&Cell>)
        requires
            self.inv(),
        ensures
            r == (if row < self.term().height && col < self.term().width {
                Some(&self.term().grid[row as int][col as int])
            } else {
                None
            }),
    {
        if row < self.height && col < self.width {
            assert(self.state@.grid[row as int] == self.state.cells@[row as int]@);
            Some(&self.state.cells[row as usize][col as usize])
        } else {
            None
        }
    }

    /// The cursor as (row, col).
    pub fn cursor_position(&self) -> (r: (u16, u16))
        requires
            self.inv(),
        ensures
            r == self.term().cursor,
    {
        self.state.cursor_pos
    }

    /// The size as (width, height).
    pub fn size(&self) -> (r: (u16, u16))
        requires
            self.inv(),
        ensures
            r == (self.term().width, self.term().height),
    {
        (self.width, self.height)
    }

    /// The width in columns.
    pub fn cols(&self) -> (r: u16)
        requires
            self.inv(),
        ensures
            r == self.term().width,
    {
        self.width
    }

    /// The height in rows.
    pub fn rows(&self) -> (r: u16)
        requires
            self.inv(),
        ensures
            r == self.term().height,
    {
        self.height
    }

    /// All rows, top to bottom.
    pub fn iter_rows(&self) -> (r: &[Vec<Cell>])
        requires
            self.inv(),
        ensures
            r@.map_values(|row: Vec<Cell>| row@) == self.term().grid,
    {
        self.state.cells.as_slice()
    }

    /// The cells of row `row`, or `None` outside the screen.
    pub fn iter_row(&self, row: u16) -> (r: Option<&[Cell]>)
        requires
            self.inv(),
        ensures
            r matches Some(cells) ==> row < self.term().height && cells@ == self.term().grid[row as int],
            r is None ==> row >= self.term().height,
    {
        if row < self.height {
            assert(self.state@.grid[row as int] == self.state.cells@[row as int]@);
            Some(self.state.cells[row as usize].as_slice())
        } else {
            None
        }
    }

    /// A copy of the grid with the size and cursor.
    pub fn snapshot(&self) -> (r: GridSnapshot)
        requires
            self.inv(),
        ensures
            r.width == self.term().width,
            r.height == self.term().height,
            r.cursor == self.term().cursor,
            r.cells@.map_values(|row: Vec<Cell>| row@) == self.term().grid,
    {
        let ghost g = self.state@.grid;
        let mut cells: Vec<Vec<Cell>> = Vec::new();
        let mut r: usize = 0;
        while r < self.state.cells.len()
            invariant
                self.inv(),
                g == self.state@.grid,
                r <= g.len(),
                cells@.len() == r,
                forall|k: int| 0 <= k < r ==> (#[trigger] cells@[k])@ == g[k],
            decreases g.len() - r,
        {
            let src = &self.state.cells[r];
            let mut row: Vec<Cell> = Vec::new();
            let mut c: usize = 0;
            while c < src.len()
                invariant
                    c <= src@.len(),
                    row@ == src@.subrange(0, c as int),
                decreases src@.len() - c,
            {
                row.push(src[c]);
                assert(src@.subrange(0, c + 1) =~= src@.subrange(0, c as int).push(src@[c as int]));
                c = c + 1;
            }
            assert(src@.subrange(0, src@.len() as int) =~= src@);
            cells.push(row);
            r = r + 1;
        }
        assert(cells@.map_values(|row: Vec<Cell>| row@) =~= g);
        GridSnapshot { width: self.width, height: self.height, cells, cursor: self.state.cursor_pos }
    }

    /// The Sixel regions, oldest first.
    pub fn sixel_regions(&self) -> (r: &[SixelRegion])
        requires
            self.inv(),
        ensures
            r@.map_values(|x: SixelRegion| x@) == self.term().sixels,
    {
        self.state.sixel_regions.as_slice()
    }

    /// The Sixel region list, for tests that add regions of their own.
    pub fn sixel_regions_mut(&mut self) -> (r: &mut Vec<SixelRegion>)
        requires
            old(self).inv(),
        ensures
            r@.map_values(|x: SixelRegion| x@) == old(self).term().sixels,
            final(self).inv(),
            final(self).term() == (TermView { sixels: final(r)@.map_values(|x: SixelRegion| x@), ..old(self).term() }),
    {
        &mut self.state.sixel_regions
    }

    /// Whether some Sixel region starts exactly at (`row`, `col`).
    pub fn has_sixel_at(&self, row: u16, col: u16) -> (r: bool)
        requires
            self.inv(),
        ensures
            r == exists|i: int| 0 <= i < self.term().sixels.len() && (#[trigger] self.term().sixels[i]).start_row == row
                && self.term().sixels[i].start_col == col,
    {
        let regions = &self.state.sixel_regions;
        let mut i: usize = 0;
        while i < regions.len()
            invariant
                i <= regions@.len(),
                regions@.map_values(|x: SixelRegion| x@) == self.term().sixels,
                forall|k: int| 0 <= k < i ==> !((#[trigger] self.term().sixels[k]).start_row == row
                    && self.term().sixels[k].start_col == col),
            decreases regions@.len() - i,
        {
            assert(self.term().sixels[i as int] == regions@[i as int]@);
            if regions[i].start_row == row && regions[i].start_col == col {
                return true;
            }
            i = i + 1;
        }
        false
    }

    /// The Kitty regions, oldest first.
    pub fn kitty_regions(&self) -> (r: &[KittyRegion])
        requires
            self.inv(),
        ensures
            r@.map_values(|x: KittyRegion| x@) == self.term().kitty,
    {
        self.state.kitty_regions.as_slice()
    }

    /// The Kitty region list, for tests that add regions of their own.
    pub fn kitty_regions_mut(&mut self) -> (r: &mut Vec<KittyRegion>)
        requires
            old(self).inv(),
        ensures
            r@.map_values(|x: KittyRegion| x@) == old(self).term().kitty,
            final(self).inv(),
            final(self).term() == (TermView { kitty: final(r)@.map_values(|x: KittyRegion| x@), ..old(self).term() }),
    {
        &mut self.state.kitty_regions
    }

    /// The iTerm2 regions, oldest first.
    pub fn iterm2_regions(&self) -> (r: &[ITerm2Region])
        requires
            self.inv(),
        ensures
            r@.map_values(|x: ITerm2Region| x@) == self.term().iterm2,
    {
        self.state.iterm2_regions.as_slice()
    }

    /// The iTerm2 region list, for tests that add regions of their own.
    pub fn iterm2_regions_mut(&mut self) -> (r: &mut Vec<ITerm2Region>)
        requires
            old(self).inv(),
        ensures
            r@.map_values(|x: ITerm2Region| x@) == old(self).term().iterm2,
            final(self).inv(),
            final(self).term() == (TermView { iterm2: final(r)@.map_values(|x: ITerm2Region| x@), ..old(self).term() }),
    {
        &mut self.state.iterm2_regions
    }

    /// The screen text, for diagnostics (the same as `contents`).
    pub fn debug_contents(&self) -> (r: String)
        requires
            self.inv(),
        ensures
            r@ == screen_text(self.term().grid),
    {
        self.contents()
    }

    /// Whether `text` occurs in the screen text.
    pub fn contains(&self, text: &str) -> (r: bool)
        requires
            self.inv(),
        ensures
            r == occurs_in(screen_text(self.term().grid), text@),
    {
        let hay = self.content_chars();
        let needle = crate::scan::str_chars(text);
        seq_contains(&hay, &needle)
    }
}

/// The event of a parser action: the same action, device control and
/// escape sequences keeping only their final byte, a control sequence one
/// argument per parameter.
pub open spec fn parsed_event(a: ParsedAction) -> EventView {
    match a {
        ParsedAction::Print(c) => EventView::Print(c),
        ParsedAction::Execute(b) => EventView::Execute(b),
        ParsedAction::DcsHook(m, _, _) => EventView::DcsHook(m),
        ParsedAction::DcsPut(b) => EventView::DcsPut(b),
        ParsedAction::DcsUnhook => EventView::DcsUnhook,
        ParsedAction::Esc(b, _, _) => EventView::Esc(b),
        ParsedAction::Csi(params, b) => EventView::Csi(params@.map_values(|p: vtparse::CsiParam| csi_arg_of(p)), b),
        ParsedAction::Osc(p) => EventView::Osc(p@.map_values(|x: Vec<u8>| x@)),
        ParsedAction::Apc(d) => EventView::Apc(d@),
    }
}

/// The events of the parser's actions, in order.
pub open spec fn events_of(acts: Seq<vtparse::VTAction>) -> Seq<EventView> {
    acts.map_values(|a: vtparse::VTAction| parsed_event(parsed_of(a)))
}

/// A parser action with its CSI parameters turned into plain values.
pub fn to_event(a: ParsedAction) -> (r: VtEvent)
    ensures
        r@ == parsed_event(a),
{
    match a {
        ParsedAction::Print(c) => VtEvent::Print(c),
        ParsedAction::Execute(b) => VtEvent::Execute(b),
        ParsedAction::DcsHook(m, _, _) => VtEvent::DcsHook(m),
        ParsedAction::DcsPut(b) => VtEvent::DcsPut(b),
        ParsedAction::DcsUnhook => VtEvent::DcsUnhook,
        ParsedAction::Esc(b, _, _) => VtEvent::Esc(b),
        ParsedAction::Csi(params, b) => {
            let ghost f = |p: vtparse::CsiParam| csi_arg_of(p);
            let mut args: Vec<CsiArg> = Vec::new();
            let mut i: usize = 0;
            while i < params.len()
                invariant
                    i <= params@.len(),
                    f == (|p: vtparse::CsiParam| csi_arg_of(p)),
                    args@ == params@.subrange(0, i as int).map_values(f),
                decreases params@.len() - i,
            {
                args.push(csi_arg(&params[i]));
                proof {
                    assert(params@.subrange(0, i + 1) =~= params@.subrange(0, i as int).push(params@[i as int]));
                    params@.subrange(0, i as int).lemma_push_map_commute(f, params@[i as int]);
                }
                i = i + 1;
            }
            assert(params@.subrange(0, params@.len() as int) =~= params@);
            VtEvent::Csi(args, b)
        },
        ParsedAction::Osc(p) => VtEvent::Osc(p),
        ParsedAction::Apc(d) => VtEvent::Apc(d),
    }
}

} // verus!
