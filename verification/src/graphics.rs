//! Graphics regions of the three inline image protocols (Sixel, Kitty,
//! iTerm2), gathered from a screen, with queries and assertions over where
//! they were drawn.

use vstd::prelude::*;
use crate::dims::cells_for;
use crate::error::TermTestError;
use crate::screen::{RegionView, ScreenState};
use crate::text::{decimal, push_decimal};

verus! {

/// The graphics protocol a region was drawn with.
#[derive(Debug, Clone, Copy, PartialEq, Eq, Hash, Structural)]
pub enum GraphicsProtocol {
    /// Sixel bitmap graphics protocol (DCS-based).
    Sixel,
    /// Kitty advanced graphics protocol (APC-based).
    Kitty,
    /// iTerm2 inline images protocol (OSC 1337-based).
    ITerm2,
}

/// The human-readable name of a protocol.
pub open spec fn protocol_name(p: GraphicsProtocol) -> Seq<char> {
    match p {
        GraphicsProtocol::Sixel => "Sixel"@,
        GraphicsProtocol::Kitty => "Kitty"@,
        GraphicsProtocol::ITerm2 => "iTerm2"@,
    }
}

impl GraphicsProtocol {
    /// The human-readable name: `Sixel`, `Kitty` or `iTerm2`.
    pub fn name(&self) -> (r: &'static str)
        ensures
            r@ == protocol_name(*self),
    {
        match self {
            GraphicsProtocol::Sixel => "Sixel",
            GraphicsProtocol::Kitty => "Kitty",
            GraphicsProtocol::ITerm2 => "iTerm2",
        }
    }

    /// The escape sequence that starts an image of this protocol.
    pub fn escape_prefix(&self) -> (r: &'static str)
        ensures
            r@ == match *self {
                GraphicsProtocol::Sixel => "\x1bPq"@,
                GraphicsProtocol::Kitty => "\x1b_G"@,
                GraphicsProtocol::ITerm2 => "\x1b]1337;File="@,
            },
    {
        match self {
            GraphicsProtocol::Sixel => "\x1bPq",
            GraphicsProtocol::Kitty => "\x1b_G",
            GraphicsProtocol::ITerm2 => "\x1b]1337;File=",
        }
    }
}

/// A graphics region as a value.
pub struct GraphicsView {
    /// The protocol.
    pub protocol: GraphicsProtocol,
    /// Cursor position when drawn (row, col).
    pub position: (u16, u16),
    /// Bounding rectangle (row, col, width, height) in cells.
    pub bounds: (u16, u16, u16, u16),
    /// Raw escape-sequence bytes.
    pub raw_data: Seq<u8>,
}

/// A graphics region: protocol, position, bounds in cells and raw data.
#[derive(Debug, PartialEq)]
pub struct GraphicsRegion {
    /// The graphics protocol used for this region.
    pub protocol: GraphicsProtocol,
    /// Cursor position when the graphic was rendered (row, col).
    pub position: (u16, u16),
    /// Calculated bounding rectangle (row, col, width, height).
    pub bounds: (u16, u16, u16, u16),
    /// Raw escape sequence bytes (including protocol wrapper).
    pub raw_data: Vec<u8>,
}

impl View for GraphicsRegion {
    type V = GraphicsView;

    open spec fn view(&self) -> GraphicsView {
        GraphicsView {
            protocol: self.protocol,
            position: self.position,
            bounds: self.bounds,
            raw_data: self.raw_data@,
        }
    }
}

/// A copy of the bytes.
pub fn copy_bytes(v: &Vec<u8>) -> (r: Vec<u8>)
    ensures
        r@ == v@,
{
    let mut r: Vec<u8> = Vec::new();
    let mut i: usize = 0;
    while i < v.len()
        invariant
            i <= v@.len(),
            r@ == v@.subrange(0, i as int),
        decreases v@.len() - i,
    {
        r.push(v[i]);
        assert(v@.subrange(0, i + 1) =~= v@.subrange(0, i as int).push(v@[i as int]));
        i = i + 1;
    }
    assert(v@.subrange(0, v@.len() as int) =~= v@);
    r
}

impl Clone for GraphicsRegion {
    fn clone(&self) -> (r: GraphicsRegion)
        ensures
            r@ == self@,
    {
        GraphicsRegion {
            protocol: self.protocol,
            position: (self.position.0, self.position.1),
            bounds: (self.bounds.0, self.bounds.1, self.bounds.2, self.bounds.3),
            raw_data: copy_bytes(&self.raw_data),
        }
    }
}

/// Whether `bounds` lies entirely inside `area`, both (row, col, width, height).
pub open spec fn within(bounds: (u16, u16, u16, u16), area: (u16, u16, u16, u16)) -> bool {
    &&& bounds.0 >= area.0
    &&& bounds.1 >= area.1
    &&& bounds.0 + bounds.3 <= area.0 + area.3
    &&& bounds.1 + bounds.2 <= area.1 + area.2
}

/// Whether `bounds` and `area` share a cell.
pub open spec fn overlapping(bounds: (u16, u16, u16, u16), area: (u16, u16, u16, u16)) -> bool {
    !(bounds.0 + bounds.3 <= area.0 || bounds.1 + bounds.2 <= area.1 || bounds.0 >= area.0 + area.3
        || bounds.1 >= area.1 + area.2)
}

/// The sums in the bounds and the area fit in 16 bits (the arithmetic of the
/// checks does not overflow).
pub open spec fn sums_fit(bounds: (u16, u16, u16, u16), area: (u16, u16, u16, u16)) -> bool {
    &&& bounds.0 + bounds.3 <= u16::MAX
    &&& bounds.1 + bounds.2 <= u16::MAX
    &&& area.0 + area.3 <= u16::MAX
    &&& area.1 + area.2 <= u16::MAX
}

impl GraphicsRegion {
    /// A region with the given fields.
    pub fn new(
        protocol: GraphicsProtocol,
        position: (u16, u16),
        bounds: (u16, u16, u16, u16),
        raw_data: Vec<u8>,
    ) -> (r: GraphicsRegion)
        ensures
            r.protocol == protocol,
            r.position == position,
            r.bounds == bounds,
            r.raw_data@ == raw_data@,
    {
        GraphicsRegion { protocol, position, bounds, raw_data }
    }

    /// Whether the bounds lie entirely inside `area` (row, col, width, height).
    pub fn is_within(&self, area: (u16, u16, u16, u16)) -> (r: bool)
        requires
            sums_fit(self.bounds, area),
        ensures
            r == within(self.bounds, area),
    {
        let (row, col, width, height) = self.bounds;
        let (area_row, area_col, area_width, area_height) = area;
        row >= area_row && col >= area_col && (row + height) <= (area_row + area_height) && (col
            + width) <= (area_col + area_width)
    }

    /// Whether the bounds share a cell with `area` (row, col, width, height).
    pub fn overlaps(&self, area: (u16, u16, u16, u16)) -> (r: bool)
        requires
            sums_fit(self.bounds, area),
        ensures
            r == overlapping(self.bounds, area),
    {
        let (row, col, width, height) = self.bounds;
        let (area_row, area_col, area_width, area_height) = area;
        !(row + height <= area_row || col + width <= area_col || row >= area_row + area_height
            || col >= area_col + area_width)
    }
}

/// All graphics regions captured from a screen.
#[derive(Debug, PartialEq)]
pub struct GraphicsCapture {
    regions: Vec<GraphicsRegion>,
}

/// The regions of a screen, in the order Sixel, Kitty, iTerm2: Sixel and Kitty
/// sizes are converted from pixels (8 per column, 6 per row, rounded up),
/// iTerm2 sizes are already cells (truncated to 16 bits).
pub open spec fn screen_graphics(
    sixels: Seq<RegionView>,
    kitty: Seq<RegionView>,
    iterm2: Seq<RegionView>,
) -> Seq<GraphicsView> {
    sixels.map_values(|r: RegionView| pixel_region(GraphicsProtocol::Sixel, r)) + kitty.map_values(
        |r: RegionView| pixel_region(GraphicsProtocol::Kitty, r),
    ) + iterm2.map_values(
        |r: RegionView|
            GraphicsView {
                protocol: GraphicsProtocol::ITerm2,
                position: (r.start_row, r.start_col),
                bounds: (r.start_row, r.start_col, r.width as u16, r.height as u16),
                raw_data: r.data,
            },
    )
}

/// A region whose size is given in pixels.
pub open spec fn pixel_region(p: GraphicsProtocol, r: RegionView) -> GraphicsView {
    GraphicsView {
        protocol: p,
        position: (r.start_row, r.start_col),
        bounds: (r.start_row, r.start_col, cells_for(r.width, 8), cells_for(r.height, 6)),
        raw_data: r.data,
    }
}

/// Pixel sizes that the rounding-up arithmetic can take without overflow.
pub open spec fn pixel_sizes_fit(rs: Seq<RegionView>) -> bool {
    forall|i: int| 0 <= i < rs.len() ==> (#[trigger] rs[i]).width <= u32::MAX - 7 && rs[i].height <= u32::MAX - 5
}

/// `(a, b, c, d)` as `Debug` prints a tuple.
pub open spec fn tuple4_text(t: (u16, u16, u16, u16)) -> Seq<char> {
    "("@ + decimal(t.0 as nat) + ", "@ + decimal(t.1 as nat) + ", "@ + decimal(t.2 as nat) + ", "@
        + decimal(t.3 as nat) + ")"@
}

/// `(a, b)` as `Debug` prints a pair.
pub open spec fn tuple2_text(t: (u16, u16)) -> Seq<char> {
    "("@ + decimal(t.0 as nat) + ", "@ + decimal(t.1 as nat) + ")"@
}

/// `"<protocol> at (row, col)"` for each region, joined with `", "`.
pub open spec fn region_list_text(rs: Seq<GraphicsView>) -> Seq<char>
    decreases rs.len(),
{
    if rs.len() == 0 {
        Seq::empty()
    } else if rs.len() == 1 {
        region_entry_text(rs[0])
    } else {
        region_list_text(rs.drop_last()) + ", "@ + region_entry_text(rs.last())
    }
}

/// `"<protocol> at (row, col)"`.
pub open spec fn region_entry_text(r: GraphicsView) -> Seq<char> {
    protocol_name(r.protocol) + " at "@ + tuple2_text(r.position)
}

/// The message of a failed `assert_all_within`.
pub open spec fn outside_message(outside: Seq<GraphicsView>, area: (u16, u16, u16, u16)) -> Seq<char> {
    "Found "@ + decimal(outside.len()) + " graphics region(s) outside area "@ + tuple4_text(area)
        + ": ["@ + region_list_text(outside) + "]"@
}

impl GraphicsCapture {
    /// The captured regions as values.
    pub closed spec fn regions_view(&self) -> Seq<GraphicsView> {
        self.regions@.map_values(|r: GraphicsRegion| r@)
    }

    /// An empty capture.
    pub fn new() -> (c: GraphicsCapture)
        ensures
            c.regions_view() == Seq::<GraphicsView>::empty(),
    {
        let c = GraphicsCapture { regions: Vec::new() };
        assert(c.regions_view() =~= Seq::<GraphicsView>::empty());
        c
    }

    /// Adds a region at the end.
    pub fn push(&mut self, region: GraphicsRegion)
        ensures
            final(self).regions_view() == old(self).regions_view().push(region@),
    {
        self.regions.push(region);
        assert(self.regions_view() =~= old(self).regions_view().push(region@));
    }

    /// The graphics of a screen: Sixel regions, then Kitty, then iTerm2, each
    /// with its bounds in cells.
    pub fn from_screen_state(screen: &ScreenState) -> (c: GraphicsCapture)
        requires
            screen.inv(),
            pixel_sizes_fit(screen.term().sixels),
            pixel_sizes_fit(screen.term().kitty),
        ensures
            c.regions_view() == screen_graphics(
                screen.term().sixels,
                screen.term().kitty,
                screen.term().iterm2,
            ),
    {
        let ghost vf = |r: GraphicsRegion| r@;
        let ghost sf = |r: RegionView| pixel_region(GraphicsProtocol::Sixel, r);
        let ghost kf = |r: RegionView| pixel_region(GraphicsProtocol::Kitty, r);
        let ghost tf = |r: RegionView|
            GraphicsView {
                protocol: GraphicsProtocol::ITerm2,
                position: (r.start_row, r.start_col),
                bounds: (r.start_row, r.start_col, r.width as u16, r.height as u16),
                raw_data: r.data,
            };
        let mut regions: Vec<GraphicsRegion> = Vec::new();
        let sixels = screen.sixel_regions();
        let ghost sv = screen.term().sixels;
        let mut i: usize = 0;
        while i < sixels.len()
            invariant
                i <= sixels@.len(),
                sixels@.map_values(|x: crate::screen::SixelRegion| x@) == sv,
                pixel_sizes_fit(sv),
                vf == (|r: GraphicsRegion| r@),
                sf == (|r: RegionView| pixel_region(GraphicsProtocol::Sixel, r)),
                regions@.map_values(vf) == sv.subrange(0, i as int).map_values(sf),
            decreases sixels@.len() - i,
        {
            let s = &sixels[i];
            assert(sv[i as int] == s@);
            let (w, h) = crate::dims::pixels_to_cells(s.width, s.height);
            let region = GraphicsRegion::new(
                GraphicsProtocol::Sixel,
                (s.start_row, s.start_col),
                (s.start_row, s.start_col, w, h),
                copy_bytes(&s.data),
            );
            let ghost before = regions@;
            let ghost rg = region;
            assert(vf(rg) == sf(sv[i as int]));
            regions.push(region);
            proof {
                before.lemma_push_map_commute(vf, rg);
                lemma_map_step(sv, i as int, sf);
            }
            i = i + 1;
        }
        let ghost after_sixel = regions@.map_values(vf);
        assert(sv.subrange(0, sv.len() as int) =~= sv);
        let kitty = screen.kitty_regions();
        let ghost kv = screen.term().kitty;
        let mut i: usize = 0;
        while i < kitty.len()
            invariant
                i <= kitty@.len(),
                kitty@.map_values(|x: crate::screen::KittyRegion| x@) == kv,
                pixel_sizes_fit(kv),
                vf == (|r: GraphicsRegion| r@),
                kf == (|r: RegionView| pixel_region(GraphicsProtocol::Kitty, r)),
                regions@.map_values(vf) == after_sixel + kv.subrange(0, i as int).map_values(kf),
            decreases kitty@.len() - i,
        {
            let s = &kitty[i];
            assert(kv[i as int] == s@);
            let (w, h) = crate::dims::pixels_to_cells(s.width, s.height);
            let region = GraphicsRegion::new(
                GraphicsProtocol::Kitty,
                (s.start_row, s.start_col),
                (s.start_row, s.start_col, w, h),
                copy_bytes(&s.data),
            );
            let ghost before = regions@;
            let ghost rg = region;
            assert(vf(rg) == kf(kv[i as int]));
            regions.push(region);
            proof {
                before.lemma_push_map_commute(vf, rg);
                lemma_map_step(kv, i as int, kf);
                assert(after_sixel + kv.subrange(0, i + 1).map_values(kf) =~= (after_sixel
                    + kv.subrange(0, i as int).map_values(kf)).push(kf(kv[i as int])));
            }
            i = i + 1;
        }
        let ghost after_kitty = regions@.map_values(vf);
        assert(kv.subrange(0, kv.len() as int) =~= kv);
        let iterm2 = screen.iterm2_regions();
        let ghost iv = screen.term().iterm2;
        let mut i: usize = 0;
        while i < iterm2.len()
            invariant
                i <= iterm2@.len(),
                iterm2@.map_values(|x: crate::screen::ITerm2Region| x@) == iv,
                vf == (|r: GraphicsRegion| r@),
                tf == (|r: RegionView|
                    GraphicsView {
                        protocol: GraphicsProtocol::ITerm2,
                        position: (r.start_row, r.start_col),
                        bounds: (r.start_row, r.start_col, r.width as u16, r.height as u16),
                        raw_data: r.data,
                    }),
                regions@.map_values(vf) == after_kitty + iv.subrange(0, i as int).map_values(tf),
            decreases iterm2@.len() - i,
        {
            let s = &iterm2[i];
            assert(iv[i as int] == s@);
            let region = GraphicsRegion::new(
                GraphicsProtocol::ITerm2,
                (s.start_row, s.start_col),
                (s.start_row, s.start_col, #[verifier::truncate] (s.width as u16), #[verifier::truncate] (s.height as u16)),
                copy_bytes(&s.data),
            );
            let ghost before = regions@;
            let ghost rg = region;
            assert(vf(rg) == tf(iv[i as int]));
            regions.push(region);
            proof {
                before.lemma_push_map_commute(vf, rg);
                lemma_map_step(iv, i as int, tf);
                assert(after_kitty + iv.subrange(0, i + 1).map_values(tf) =~= (after_kitty
                    + iv.subrange(0, i as int).map_values(tf)).push(tf(iv[i as int])));
            }
            i = i + 1;
        }
        assert(iv.subrange(0, iv.len() as int) =~= iv);
        let c = GraphicsCapture { regions };
        assert(c.regions_view() =~= screen_graphics(sv, kv, iv));
        c
    }

    /// All captured regions.
    pub fn regions(&self) -> (r: &[GraphicsRegion])
        ensures
            r@.map_values(|x: GraphicsRegion| x@) == self.regions_view(),
    {
        self.regions.as_slice()
    }

    /// Whether nothing was captured.
    pub fn is_empty(&self) -> (r: bool)
        ensures
            r == (self.regions_view().len() == 0),
    {
        self.regions.len() == 0
    }

    /// The regions lying entirely inside `area`, in order.
    pub fn regions_in_area(&self, area: (u16, u16, u16, u16)) -> (r: Vec<&GraphicsRegion>)
        requires
            forall|i: int| 0 <= i < self.regions_view().len() ==> sums_fit(#[trigger] self.regions_view()[i].bounds, area),
        ensures
            r@.map_values(|x: &GraphicsRegion| (*x)@) == self.regions_view().filter(
                |g: GraphicsView| within(g.bounds, area),
            ),
    {
        let r = self.select(area, true);
        proof {
            let p1 = |g: GraphicsView| within(g.bounds, area) == true;
            let p2 = |g: GraphicsView| within(g.bounds, area);
            assert(p1 =~= p2);
        }
        r
    }

    /// The regions not lying entirely inside `area`, in order.
    pub fn regions_outside_area(&self, area: (u16, u16, u16, u16)) -> (r: Vec<&GraphicsRegion>)
        requires
            forall|i: int| 0 <= i < self.regions_view().len() ==> sums_fit(#[trigger] self.regions_view()[i].bounds, area),
        ensures
            r@.map_values(|x: &GraphicsRegion| (*x)@) == self.regions_view().filter(
                |g: GraphicsView| !within(g.bounds, area),
            ),
    {
        let r = self.select(area, false);
        proof {
            let p1 = |g: GraphicsView| within(g.bounds, area) == false;
            let p2 = |g: GraphicsView| !within(g.bounds, area);
            assert(p1 =~= p2);
        }
        r
    }

    fn select(&self, area: (u16, u16, u16, u16), inside: bool) -> (r: Vec<&GraphicsRegion>)
        requires
            forall|i: int| 0 <= i < self.regions_view().len() ==> sums_fit(#[trigger] self.regions_view()[i].bounds, area),
        ensures
            r@.map_values(|x: &GraphicsRegion| (*x)@) == self.regions_view().filter(
                |g: GraphicsView| within(g.bounds, area) == inside,
            ),
    {
        let ghost all = self.regions_view();
        let ghost pred = |g: GraphicsView| within(g.bounds, area) == inside;
        let ghost rf = |x: &GraphicsRegion| (*x)@;
        let mut out: Vec<&GraphicsRegion> = Vec::new();
        let mut i: usize = 0;
        while i < self.regions.len()
            invariant
                i <= self.regions@.len(),
                all == self.regions_view(),
                all.len() == self.regions@.len(),
                forall|k: int| 0 <= k < all.len() ==> sums_fit(#[trigger] all[k].bounds, area),
                rf == (|x: &GraphicsRegion| (*x)@),
                pred == (|g: GraphicsView| within(g.bounds, area) == inside),
                out@.map_values(rf) == all.subrange(0, i as int).filter(pred),
            decreases self.regions@.len() - i,
        {
            let g = &self.regions[i];
            assert(all[i as int] == g@);
            assert(sums_fit(all[i as int].bounds, area));
            let keep = g.is_within(area) == inside;
            let ghost before = out@;
            proof {
                lemma_filter_step(all, i as int, pred);
            }
            if keep {
                out.push(g);
                proof {
                    before.lemma_push_map_commute(rf, g);
                }
            }
            i = i + 1;
        }
        assert(all.subrange(0, all.len() as int) =~= all);
        out
    }

    /// The regions drawn with `protocol`, in order.
    pub fn by_protocol(&self, protocol: GraphicsProtocol) -> (r: Vec<&GraphicsRegion>)
        ensures
            r@.map_values(|x: &GraphicsRegion| (*x)@) == self.regions_view().filter(
                |g: GraphicsView| g.protocol == protocol,
            ),
    {
        let ghost all = self.regions_view();
        let ghost pred = |g: GraphicsView| g.protocol == protocol;
        let ghost rf = |x: &GraphicsRegion| (*x)@;
        let mut out: Vec<&GraphicsRegion> = Vec::new();
        let mut i: usize = 0;
        while i < self.regions.len()
            invariant
                i <= self.regions@.len(),
                all == self.regions_view(),
                all.len() == self.regions@.len(),
                rf == (|x: &GraphicsRegion| (*x)@),
                pred == (|g: GraphicsView| g.protocol == protocol),
                out@.map_values(rf) == all.subrange(0, i as int).filter(pred),
            decreases self.regions@.len() - i,
        {
            let g = &self.regions[i];
            assert(all[i as int] == g@);
            let ghost before = out@;
            proof {
                lemma_filter_step(all, i as int, pred);
            }
            if g.protocol == protocol {
                out.push(g);
                proof {
                    before.lemma_push_map_commute(rf, g);
                }
            }
            i = i + 1;
        }
        assert(all.subrange(0, all.len() as int) =~= all);
        out
    }

    /// How many regions were drawn with `protocol`.
    pub fn count_by_protocol(&self, protocol: GraphicsProtocol) -> (r: usize)
        ensures
            r == self.regions_view().filter(|g: GraphicsView| g.protocol == protocol).len(),
    {
        let v = self.by_protocol(protocol);
        v.len()
    }

    /// `Ok` when every region lies entirely inside `area`; otherwise a
    /// `SixelValidation` error naming how many regions lie outside and where.
    pub fn assert_all_within(&self, area: (u16, u16, u16, u16)) -> (r: Result<(), TermTestError>)
        requires
            forall|i: int| 0 <= i < self.regions_view().len() ==> sums_fit(#[trigger] self.regions_view()[i].bounds, area),
        ensures
            r is Ok <==> (forall|i: int| 0 <= i < self.regions_view().len() ==> within(#[trigger] self.regions_view()[i].bounds, area)),
            r matches Err(e) ==> e matches TermTestError::SixelValidation(m) && m@ == outside_message(
                self.regions_view().filter(|g: GraphicsView| !within(g.bounds, area)),
                area,
            ),
    {
        let outside = self.regions_outside_area(area);
        let ghost pred = |g: GraphicsView| !within(g.bounds, area);
        let ghost ov = outside@.map_values(|x: &GraphicsRegion| (*x)@);
        if outside.len() == 0 {
            proof {
                let all = self.regions_view();
                assert forall|i: int| 0 <= i < all.len() implies within(#[trigger] all[i].bounds, area) by {
                    if !within(all[i].bounds, area) {
                        all.lemma_filter_contains(pred, i);
                        assert(ov.len() > 0);
                    }
                }
            }
            return Ok(());
        }
        proof {
            let all = self.regions_view();
            let w = ov[0];
            all.lemma_filter_pred(pred, 0);
            assert(!within(w.bounds, area));
            assert(ov.contains(w));
            all.lemma_filter_contains_rev(pred, w);
        }
        let mut msg = String::new();
        msg.append("Found ");
        push_decimal(&mut msg, outside.len() as u64);
        msg.append(" graphics region(s) outside area ");
        push_tuple4(&mut msg, area);
        msg.append(": [");
        let mut i: usize = 0;
        while i < outside.len()
            invariant
                i <= outside@.len(),
                ov == outside@.map_values(|x: &GraphicsRegion| (*x)@),
                msg@ == "Found "@ + decimal(ov.len()) + " graphics region(s) outside area "@ + tuple4_text(area) + ": ["@
                    + region_list_text(ov.subrange(0, i as int)),
            decreases outside@.len() - i,
        {
            let ghost before = msg@;
            if i > 0 {
                msg.append(", ");
            }
            let g = outside[i];
            assert(ov[i as int] == g@);
            msg.append(g.protocol.name());
            msg.append(" at ");
            push_tuple2(&mut msg, g.position);
            proof {
                let s = ov.subrange(0, i + 1);
                assert(s.drop_last() =~= ov.subrange(0, i as int));
                assert(s.last() == g@);
                if i == 0 {
                    assert(s =~= seq![g@]);
                }
            }
            i = i + 1;
        }
        assert(ov.subrange(0, ov.len() as int) =~= ov);
        msg.append("]");
        Err(TermTestError::SixelValidation(msg))
    }

    /// `Ok` when some region was drawn with `protocol`; otherwise a
    /// `SixelValidation` error `No <protocol> graphics found`.
    pub fn assert_protocol_exists(&self, protocol: GraphicsProtocol) -> (r: Result<(), TermTestError>)
        ensures
            r is Ok <==> self.regions_view().filter(|g: GraphicsView| g.protocol == protocol).len() > 0,
            r matches Err(e) ==> e matches TermTestError::SixelValidation(m) && m@ == "No "@ + protocol_name(protocol) + " graphics found"@,
    {
        if self.count_by_protocol(protocol) == 0 {
            let mut msg = String::new();
            msg.append("No ");
            msg.append(protocol.name());
            msg.append(" graphics found");
            return Err(TermTestError::SixelValidation(msg));
        }
        Ok(())
    }

    /// Whether the two captures hold different regions (in content or order).
    pub fn differs_from(&self, other: &GraphicsCapture) -> (r: bool)
        ensures
            r == (self.regions_view() != other.regions_view()),
    {
        let a = &self.regions;
        let b = &other.regions;
        let ghost av = self.regions_view();
        let ghost bv = other.regions_view();
        if a.len() != b.len() {
            assert(av.len() != bv.len());
            return true;
        }
        let mut i: usize = 0;
        while i < a.len()
            invariant
                i <= a@.len(),
                a@.len() == b@.len(),
                av == self.regions_view(),
                bv == other.regions_view(),
                av == a@.map_values(|r: GraphicsRegion| r@),
                bv == b@.map_values(|r: GraphicsRegion| r@),
                forall|k: int| 0 <= k < i ==> av[k] == bv[k],
            decreases a@.len() - i,
        {
            let (x, y) = (&a[i], &b[i]);
            let same = x.protocol == y.protocol && x.position.0 == y.position.0 && x.position.1
                == y.position.1 && x.bounds.0 == y.bounds.0 && x.bounds.1 == y.bounds.1 && x.bounds.2
                == y.bounds.2 && x.bounds.3 == y.bounds.3 && bytes_equal(&x.raw_data, &y.raw_data);
            assert(av[i as int] == a@[i as int]@);
            assert(bv[i as int] == b@[i as int]@);
            if !same {
                assert(av[i as int] != bv[i as int]);
                return true;
            }
            i = i + 1;
        }
        assert(av =~= bv);
        false
    }
}

/// Mapping a prefix one element longer appends the image of that element.
proof fn lemma_map_step<A, B>(s: Seq<A>, i: int, f: spec_fn(A) -> B)
    requires
        0 <= i < s.len(),
    ensures
        s.subrange(0, i + 1).map_values(f) == s.subrange(0, i).map_values(f).push(f(s[i])),
{
    assert(s.subrange(0, i + 1) =~= s.subrange(0, i).push(s[i]));
    s.subrange(0, i).lemma_push_map_commute(f, s[i]);
}

/// Filtering a prefix one element longer keeps that element exactly when
/// the predicate holds of it.
proof fn lemma_filter_step<A>(s: Seq<A>, i: int, p: spec_fn(A) -> bool)
    requires
        0 <= i < s.len(),
    ensures
        s.subrange(0, i + 1).filter(p) == if p(s[i]) {
            s.subrange(0, i).filter(p).push(s[i])
        } else {
            s.subrange(0, i).filter(p)
        },
{
    assert(s.subrange(0, i + 1) =~= s.subrange(0, i).push(s[i]));
    s.subrange(0, i).lemma_filter_push(s[i], p);
}

/// Whether two byte vectors are equal.
pub fn bytes_equal(a: &Vec<u8>, b: &Vec<u8>) -> (r: bool)
    ensures
        r == (a@ == b@),
{
    if a.len() != b.len() {
        return false;
    }
    let mut i: usize = 0;
    while i < a.len()
        invariant
            i <= a@.len(),
            a@.len() == b@.len(),
            forall|k: int| 0 <= k < i ==> a@[k] == b@[k],
        decreases a@.len() - i,
    {
        if a[i] != b[i] {
            return false;
        }
        i = i + 1;
    }
    assert(a@ =~= b@);
    true
}

/// Appends `(a, b, c, d)`.
pub fn push_tuple4(s: &mut String, t: (u16, u16, u16, u16))
    ensures
        final(s)@ == old(s)@ + tuple4_text(t),
{
    s.append("(");
    push_decimal(s, t.0 as u64);
    s.append(", ");
    push_decimal(s, t.1 as u64);
    s.append(", ");
    push_decimal(s, t.2 as u64);
    s.append(", ");
    push_decimal(s, t.3 as u64);
    s.append(")");
}

/// Appends `(a, b)`.
pub fn push_tuple2(s: &mut String, t: (u16, u16))
    ensures
        final(s)@ == old(s)@ + tuple2_text(t),
{
    s.append("(");
    push_decimal(s, t.0 as u64);
    s.append(", ");
    push_decimal(s, t.1 as u64);
    s.append(")");
}

impl Default for GraphicsCapture {
    fn default() -> (c: GraphicsCapture)
        ensures
            c.regions_view() == Seq::<GraphicsView>::empty(),
    {
        GraphicsCapture::new()
    }
}

/// Sixel and Kitty images, whose sizes are in pixels, keep their place and
/// position and cover whole cells: their width in cells is the fewest
/// 8-pixel columns, and their height the fewest 6-pixel rows, that hold
/// the image.
pub proof fn law_pixel_bounds(sixels: Seq<RegionView>, kitty: Seq<RegionView>, iterm2: Seq<RegionView>, i: int)
    requires
        0 <= i < sixels.len() + kitty.len(),
    ensures
        ({
            let g = screen_graphics(sixels, kitty, iterm2)[i];
            let r = if i < sixels.len() { sixels[i] } else { kitty[i - sixels.len()] };
            &&& g.protocol == (if i < sixels.len() { GraphicsProtocol::Sixel } else { GraphicsProtocol::Kitty })
            &&& g.position == (r.start_row, r.start_col)
            &&& g.bounds.0 == r.start_row
            &&& g.bounds.1 == r.start_col
            &&& g.raw_data == r.data
            &&& (r.width <= 8 * 65535 ==> g.bounds.2 * 8 >= r.width && g.bounds.2 * 8 < r.width + 8)
            &&& (r.height <= 6 * 65535 ==> g.bounds.3 * 6 >= r.height && g.bounds.3 * 6 < r.height + 6)
        }),
{
    let g = screen_graphics(sixels, kitty, iterm2)[i];
    let r = if i < sixels.len() { sixels[i] } else { kitty[i - sixels.len()] };
    assert(g.bounds.2 == cells_for(r.width, 8));
    assert(g.bounds.3 == cells_for(r.height, 6));
}

/// A capture lists the Sixel, Kitty and iTerm2 images in that order, and an
/// iTerm2 image, whose size is already in cells, keeps its place, its
/// position and its size: bounds `(start row, start col, width, height)`.
pub proof fn law_iterm2_bounds(sixels: Seq<RegionView>, kitty: Seq<RegionView>, iterm2: Seq<RegionView>, i: int)
    requires
        0 <= i < iterm2.len(),
    ensures
        screen_graphics(sixels, kitty, iterm2).len() == sixels.len() + kitty.len() + iterm2.len(),
        ({
            let g = screen_graphics(sixels, kitty, iterm2)[sixels.len() + kitty.len() + i];
            let r = iterm2[i];
            &&& g.protocol == GraphicsProtocol::ITerm2
            &&& g.position == (r.start_row, r.start_col)
            &&& g.bounds.0 == r.start_row
            &&& g.bounds.1 == r.start_col
            &&& g.bounds.2 == r.width as u16
            &&& g.bounds.3 == r.height as u16
            &&& g.raw_data == r.data
        }),
{
}

/// The regions inside an area and those outside it split the capture: the
/// two counts add up to all regions.
pub proof fn law_area_split(rs: Seq<GraphicsView>, area: (u16, u16, u16, u16))
    ensures
        rs.filter(|g: GraphicsView| within(g.bounds, area)).len() + rs.filter(
            |g: GraphicsView| !within(g.bounds, area),
        ).len() == rs.len(),
    decreases rs.len(),
{
    reveal(Seq::filter);
    if rs.len() > 0 {
        law_area_split(rs.drop_last(), area);
    }
}

/// Every region lies inside an area exactly when none lies outside it.
pub proof fn law_all_within_iff_none_outside(rs: Seq<GraphicsView>, area: (u16, u16, u16, u16))
    ensures
        (forall|i: int| 0 <= i < rs.len() ==> within(#[trigger] rs[i].bounds, area)) <==> rs.filter(
            |g: GraphicsView| !within(g.bounds, area),
        ).len() == 0,
{
    let p = |g: GraphicsView| !within(g.bounds, area);
    if rs.filter(p).len() == 0 {
        assert forall|i: int| 0 <= i < rs.len() implies within(#[trigger] rs[i].bounds, area) by {
            if !within(rs[i].bounds, area) {
                rs.lemma_filter_contains(p, i);
            }
        }
    } else {
        let w = rs.filter(p)[0];
        rs.lemma_filter_pred(p, 0);
        assert(rs.filter(p).contains(w));
        rs.lemma_filter_contains_rev(p, w);
    }
}

/// The counts of the three protocols add up to all regions.
pub proof fn law_protocol_counts(rs: Seq<GraphicsView>)
    ensures
        rs.filter(|g: GraphicsView| g.protocol == GraphicsProtocol::Sixel).len() + rs.filter(
            |g: GraphicsView| g.protocol == GraphicsProtocol::Kitty,
        ).len() + rs.filter(|g: GraphicsView| g.protocol == GraphicsProtocol::ITerm2).len() == rs.len(),
    decreases rs.len(),
{
    reveal(Seq::filter);
    if rs.len() > 0 {
        law_protocol_counts(rs.drop_last());
    }
}

/// Telling captures apart is symmetric, and no capture differs from itself.
pub proof fn law_differs_symmetric(a: GraphicsCapture, b: GraphicsCapture)
    ensures
        (a.regions_view() != b.regions_view()) == (b.regions_view() != a.regions_view()),
        !(a.regions_view() != a.regions_view()),
{
}

} // verus!
