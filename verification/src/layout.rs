//! The settings panel's layout, for any screen resolution.

use vstd::prelude::*;

verus! {

/// The highest resolution for which the panel's height can be counted.
pub const MAX_DPI: u32 = 439_570_212;

/// A slider: what it is called, the unit of its value, and the bounds of its value.
pub struct Slider {
    pub label: &'static str,
    pub unit: &'static str,
    pub min: u32,
    pub max: u32,
}

/// Where things are on the panel, in pixels.
#[derive(Clone, Copy, PartialEq, Eq, Structural, Debug)]
pub struct Lay {
    pub ow: i32,
    pub oh: i32,
    pub pad: i32,
    pub corner: i32,
    pub header_h: i32,
    pub tab_start: i32,
    pub tab_btn_w: i32,
    pub tab_btn_h: i32,
    pub tab_btn_y: i32,
    pub card_gap: i32,
    pub card_h: i32,
    pub dir_h: i32,
    pub tog_h: i32,
    pub color_h: i32,
    pub card_r: i32,
    pub content_x: i32,
    pub track_right: i32,
    pub track_h: i32,
    pub track_offset: i32,
    pub col_track_offset: i32,
    pub close_sz: i32,
    pub close_x: i32,
    pub close_y: i32,
    pub dpi: u32,
}

/// `v`, or the end of the range of `i32` that it lies beyond.
pub open spec fn to_i32(v: int) -> int {
    if v < i32::MIN {
        i32::MIN as int
    } else if v > i32::MAX {
        i32::MAX as int
    } else {
        v
    }
}

/// A length of `n` pixels at 96 dots an inch, in pixels at `dpi` dots an inch: rounded to the
/// nearest whole number, and away from zero from halfway.
#[verifier::opaque]
pub open spec fn scaled(n: int, dpi: int) -> int {
    let p = n * dpi;
    to_i32(
        if p >= 0 {
            (2 * p + 96) / 192
        } else {
            -((96 - 2 * p) / 192)
        },
    )
}

/// Where the cards of the tabs begin.
pub open spec fn cards_top(dpi: int) -> int {
    scaled(48, dpi) + scaled(5, dpi)
}

/// The room that a card of this height takes up, with the gap below it.
pub open spec fn card_room(height: int, dpi: int) -> int {
    scaled(height, dpi) + scaled(5, dpi)
}

/// The panel's height: the header, three sliders, the hotkey, the output directory, the switch
/// and the footer.
pub open spec fn panel_height(dpi: int) -> int {
    cards_top(dpi) + 3 * card_room(56, dpi) + card_room(48, dpi) + card_room(70, dpi) + card_room(
        48,
        dpi,
    ) + scaled(52, dpi)
}

/// The layout at `dpi` dots an inch.
pub open spec fn lay_of(dpi: u32) -> Lay {
    let d = dpi as int;
    Lay {
        ow: scaled(340, d) as i32,
        oh: panel_height(d) as i32,
        pad: scaled(14, d) as i32,
        corner: scaled(14, d) as i32,
        header_h: scaled(48, d) as i32,
        tab_start: cards_top(d) as i32,
        tab_btn_w: scaled(80, d) as i32,
        tab_btn_h: scaled(26, d) as i32,
        tab_btn_y: scaled(11, d) as i32,
        card_gap: scaled(5, d) as i32,
        card_h: scaled(56, d) as i32,
        dir_h: scaled(70, d) as i32,
        tog_h: scaled(48, d) as i32,
        color_h: scaled(56, d) as i32,
        card_r: scaled(12, d) as i32,
        content_x: (scaled(14, d) + scaled(10, d)) as i32,
        track_right: (scaled(340, d) - scaled(14, d) - scaled(10, d)) as i32,
        track_h: scaled(3, d) as i32,
        track_offset: scaled(38, d) as i32,
        col_track_offset: scaled(36, d) as i32,
        close_sz: scaled(10, d) as i32,
        close_x: scaled(14, d) as i32,
        close_y: ((scaled(48, d) - scaled(10, d)) / 2) as i32,
        dpi,
    }
}

/// Lengths up to the panel's width are scaled to what can be counted, with no end of the range
/// in the way.
proof fn lemma_scaled(n: int, dpi: int)
    requires
        0 <= n <= 469,
        0 <= dpi <= MAX_DPI,
    ensures
        scaled(n, dpi) == (2 * n * dpi + 96) / 192,
        0 <= scaled(n, dpi),
        96 * scaled(n, dpi) <= n * dpi + 48,
        n * dpi < 96 * scaled(n, dpi) + 48,
{
    reveal(scaled);
    assert(0 <= n * dpi <= 469 * MAX_DPI) by (nonlinear_arith)
        requires
            0 <= n <= 469,
            0 <= dpi <= MAX_DPI,
    ;
    assert(2 * (n * dpi) == 2 * n * dpi) by (nonlinear_arith);
}

/// A longer length is never scaled to fewer pixels.
pub proof fn law_scaled_grows(m: int, n: int, dpi: int)
    requires
        0 <= m <= n <= 469,
        0 <= dpi <= MAX_DPI,
    ensures
        scaled(m, dpi) <= scaled(n, dpi),
{
    lemma_scaled(m, dpi);
    lemma_scaled(n, dpi);
    assert(m * dpi <= n * dpi) by (nonlinear_arith)
        requires
            m <= n,
            0 <= dpi,
    ;
    assert(2 * (m * dpi) == 2 * m * dpi) by (nonlinear_arith);
    assert(2 * (n * dpi) == 2 * n * dpi) by (nonlinear_arith);
}

/// Lengths on the panel are scaled to within half a pixel, and all that the layout adds up stays
/// within the range that can be counted.
pub proof fn lemma_px(dpi: int)
    requires
        0 <= dpi <= MAX_DPI,
    ensures
        forall|n: int|
            #![trigger scaled(n, dpi)]
            0 <= n <= 469 ==> 0 <= scaled(n, dpi) && 96 * scaled(n, dpi) <= n * dpi + 48 && n * dpi
                < 96 * scaled(n, dpi) + 48,
        panel_height(dpi) <= i32::MAX,
        scaled(340, dpi) <= panel_height(dpi),
{
    assert forall|n: int|
        #![trigger scaled(n, dpi)]
        0 <= n <= 469 implies 0 <= scaled(n, dpi) && 96 * scaled(n, dpi) <= n * dpi + 48 && n * dpi
        < 96 * scaled(n, dpi) + 48 by {
        lemma_scaled(n, dpi);
    }
}

/// A length of `n` pixels at 96 dots an inch, in pixels at `dpi` dots an inch.
pub fn scale(n: i32, dpi: u32) -> (r: i32)
    ensures
        r == scaled(n as int, dpi as int),
{
    proof {
        reveal(scaled);
        assert(-0x8000_0000 * 0x1_0000_0000 <= n * dpi <= 0x8000_0000 * 0x1_0000_0000)
            by (nonlinear_arith)
            requires
                -0x8000_0000 <= n < 0x8000_0000,
                0 <= dpi < 0x1_0000_0000,
        ;
    }
    let p: i128 = n as i128 * dpi as i128;
    let q: i128 = if p >= 0 {
        (2 * p + 96) / 192
    } else {
        -((96 - 2 * p) / 192)
    };
    if q < i32::MIN as i128 {
        i32::MIN
    } else if q > i32::MAX as i128 {
        i32::MAX
    } else {
        q as i32
    }
}

/// How far `x` is inside the band of width `r` at the near or the far end of a side of length
/// `w`: nothing in between.
pub open spec fn corner_depth(x: int, w: int, r: int) -> int {
    if x < r {
        r - x
    } else if x >= w - r {
        x - (w - r - 1)
    } else {
        0
    }
}

/// Whether a point lies in a rectangle whose corners are rounded with radius `r`.
pub open spec fn inside_rounded(x: int, y: int, w: int, h: int, r: int) -> bool {
    &&& 0 <= x < w
    &&& 0 <= y < h
    &&& corner_depth(x, w, r) * corner_depth(x, w, r) + corner_depth(y, h, r) * corner_depth(
        y,
        h,
        r,
    ) <= r * r
}

fn depth_in_corner(x: i32, w: i32, r: i32) -> (d: i64)
    requires
        0 <= x < w,
    ensures
        d == corner_depth(x as int, w as int, r as int),
        0 <= d <= 0x1_0000_0000,
{
    if x < r {
        r as i64 - x as i64
    } else if x as i64 >= w as i64 - r as i64 {
        x as i64 - (w as i64 - r as i64 - 1)
    } else {
        0
    }
}

/// Whether a point lies in the panel, whose corners are rounded.
pub fn in_rounded_rect(x: i32, y: i32, w: i32, h: i32, r: i32) -> (inside: bool)
    ensures
        inside == inside_rounded(x as int, y as int, w as int, h as int, r as int),
{
    if x < 0 || y < 0 || x >= w || y >= h {
        return false;
    }
    let dx: i128 = depth_in_corner(x, w, r) as i128;
    let dy: i128 = depth_in_corner(y, h, r) as i128;
    let rr: i128 = r as i128;
    proof {
        let m = 0x1_0000_0000int;
        assert(0 <= dx * dx <= m * m) by (nonlinear_arith)
            requires
                -m <= dx <= m,
        ;
        assert(0 <= dy * dy <= m * m) by (nonlinear_arith)
            requires
                -m <= dy <= m,
        ;
        assert(0 <= rr * rr <= m * m) by (nonlinear_arith)
            requires
                -m <= rr <= m,
        ;
    }
    dx * dx + dy * dy <= rr * rr
}

impl Lay {
    /// A layout is that of its resolution.
    pub open spec fn wf(self) -> bool {
        self.dpi <= MAX_DPI && self == lay_of(self.dpi)
    }

    /// A length of `n` pixels at 96 dots an inch.
    pub open spec fn px(self, n: int) -> int {
        scaled(n, self.dpi as int)
    }

    /// The layout at `dpi` dots an inch.
    pub fn from_dpi(dpi: u32) -> (r: Lay)
        requires
            dpi <= MAX_DPI,
        ensures
            r == lay_of(dpi),
            r.wf(),
    {
        proof {
            lemma_px(dpi as int);
        }
        let pad: i32 = scale(14, dpi);
        let content_x: i32 = pad + scale(10, dpi);
        let ow: i32 = scale(340, dpi);
        let header_h: i32 = scale(48, dpi);
        let card_gap: i32 = scale(5, dpi);
        let card_h: i32 = scale(56, dpi);
        let dir_h: i32 = scale(70, dpi);
        let tog_h: i32 = scale(48, dpi);
        let tab_start: i32 = header_h + card_gap;
        let oh: i32 = tab_start + 3 * (card_h + card_gap) + (tog_h + card_gap) + (dir_h + card_gap)
            + (tog_h + card_gap) + scale(52, dpi);
        // The close button is the red dot of the header.
        let dot: i32 = scale(10, dpi);
        Lay {
            ow,
            oh,
            pad,
            corner: scale(14, dpi),
            header_h,
            tab_start,
            tab_btn_w: scale(80, dpi),
            tab_btn_h: scale(26, dpi),
            tab_btn_y: scale(11, dpi),
            card_gap,
            card_h,
            dir_h,
            tog_h,
            color_h: scale(56, dpi),
            card_r: scale(12, dpi),
            content_x,
            track_right: ow - pad - scale(10, dpi),
            track_h: scale(3, dpi),
            track_offset: scale(38, dpi),
            col_track_offset: scale(36, dpi),
            close_sz: dot,
            close_x: pad,
            close_y: (header_h - dot) / 2,
            dpi,
        }
    }

    /// A length of `n` pixels at 96 dots an inch.
    pub fn s(&self, n: i32) -> (r: i32)
        ensures
            r == self.px(n as int),
    {
        scale(n, self.dpi)
    }

    /// Where a card of the settings tab begins: three sliders, the hotkey, the output directory
    /// and the switch.
    pub open spec fn main_y(self, i: int) -> int {
        let d = self.dpi as int;
        if i == 0 {
            cards_top(d)
        } else if i == 1 {
            cards_top(d) + card_room(56, d)
        } else if i == 2 {
            cards_top(d) + 2 * card_room(56, d)
        } else if i == 3 {
            cards_top(d) + 3 * card_room(56, d)
        } else if i == 4 {
            cards_top(d) + 3 * card_room(56, d) + card_room(48, d)
        } else if i == 5 {
            cards_top(d) + 3 * card_room(56, d) + card_room(48, d) + card_room(70, d)
        } else {
            0
        }
    }

    /// Where a card of the advanced tab begins: the display, the colour and the background.
    pub open spec fn adv_y(self, i: int) -> int {
        let d = self.dpi as int;
        if i == 0 {
            cards_top(d)
        } else if i == 1 {
            cards_top(d) + card_room(56, d)
        } else if i == 2 {
            cards_top(d) + 2 * card_room(56, d)
        } else {
            0
        }
    }

    /// Where the footer begins.
    pub open spec fn foot_y(self) -> int {
        self.oh - self.px(52)
    }

    /// Where the two tab buttons begin, side by side around the middle of the header.
    pub open spec fn tabs_x(self) -> (int, int) {
        (self.ow / 2 - self.tab_btn_w - self.px(24) / 2, self.ow / 2 + self.px(24) / 2)
    }

    /// Where a card of the settings tab begins.
    pub fn main_card_y(&self, i: usize) -> (y: i32)
        requires
            self.wf(),
        ensures
            y == self.main_y(i as int),
            0 <= y <= self.oh,
    {
        proof {
            lemma_px(self.dpi as int);
        }
        let hotkey: i32 = self.tab_start + 3 * (self.card_h + self.card_gap);
        match i {
            0 => self.tab_start,
            1 => self.tab_start + self.card_h + self.card_gap,
            2 => self.tab_start + 2 * (self.card_h + self.card_gap),
            3 => hotkey,
            4 => hotkey + self.tog_h + self.card_gap,
            5 => hotkey + self.tog_h + self.card_gap + self.dir_h + self.card_gap,
            _ => 0,
        }
    }

    /// Where a card of the advanced tab begins.
    pub fn adv_card_y(&self, i: usize) -> (y: i32)
        requires
            self.wf(),
        ensures
            y == self.adv_y(i as int),
            0 <= y <= self.oh,
    {
        proof {
            lemma_px(self.dpi as int);
        }
        match i {
            0 => self.tab_start,
            1 => self.tab_start + self.card_h + self.card_gap,
            2 => self.tab_start + self.card_h + self.card_gap + self.color_h + self.card_gap,
            _ => 0,
        }
    }

    /// Where the footer begins.
    pub fn footer_y(&self) -> (y: i32)
        requires
            self.wf(),
        ensures
            y == self.foot_y(),
            0 <= y <= self.oh,
    {
        proof {
            lemma_px(self.dpi as int);
        }
        self.oh - self.s(52)
    }

    /// Where the track of a slider is.
    pub fn track_y(&self, i: usize) -> (y: i32)
        requires
            self.wf(),
        ensures
            y == self.main_y(i as int) + self.px(38),
            0 <= y <= self.oh,
    {
        proof {
            lemma_px(self.dpi as int);
        }
        self.main_card_y(i) + self.track_offset
    }

    /// Where the track of the colours is.
    pub fn col_track_y(&self) -> (y: i32)
        requires
            self.wf(),
        ensures
            y == self.adv_y(1) + self.px(36),
            0 <= y <= self.oh,
    {
        proof {
            lemma_px(self.dpi as int);
        }
        self.adv_card_y(1) + self.col_track_offset
    }

    /// Where the two tab buttons begin.
    pub fn tab_x(&self) -> (r: (i32, i32))
        requires
            self.wf(),
        ensures
            r.0 == self.tabs_x().0,
            r.1 == self.tabs_x().1,
            0 <= r.0 <= r.1 <= self.ow,
    {
        proof {
            lemma_px(self.dpi as int);
        }
        let gap: i32 = self.s(24);
        let center: i32 = self.ow / 2;
        (center - self.tab_btn_w - gap / 2, center + gap / 2)
    }
}

/// A card of the settings tab ends on the panel, and so does all that is drawn on the lowest of
/// them.
pub proof fn lemma_card(lay: Lay, i: int)
    requires
        lay.wf(),
        0 <= i <= 5,
    ensures
        0 <= lay.main_y(i),
        lay.main_y(i) + lay.px(48) <= lay.oh,
        forall|n: int| #![trigger lay.px(n)] 0 <= n <= 48 ==> 0 <= lay.px(n) <= lay.px(48),
        lay.px(14) + lay.px(10) <= lay.ow,
{
    lemma_px(lay.dpi as int);
    assert forall|n: int| #![trigger lay.px(n)] 0 <= n <= 48 implies 0 <= lay.px(n) <= lay.px(
        48,
    ) by {
        law_scaled_grows(n, 48, lay.dpi as int);
    }
}

/// At 96 dots an inch nothing is scaled.
pub proof fn law_design_size(n: int)
    requires
        i32::MIN <= n <= i32::MAX,
    ensures
        scaled(n, 96) == n,
{
    reveal(scaled);
}

/// The cards of the settings tab lie below the header and one below the other, with a gap behind
/// each, and end above the footer, which ends with the panel.
pub proof fn law_cards_do_not_overlap(lay: Lay)
    requires
        lay.wf(),
    ensures
        lay.main_y(0) == lay.header_h + lay.card_gap,
        lay.main_y(1) == lay.main_y(0) + lay.card_h + lay.card_gap,
        lay.main_y(2) == lay.main_y(1) + lay.card_h + lay.card_gap,
        lay.main_y(3) == lay.main_y(2) + lay.card_h + lay.card_gap,
        lay.main_y(4) == lay.main_y(3) + lay.tog_h + lay.card_gap,
        lay.main_y(5) == lay.main_y(4) + lay.dir_h + lay.card_gap,
        lay.foot_y() == lay.main_y(5) + lay.tog_h + lay.card_gap,
        lay.oh == lay.foot_y() + lay.px(52),
        lay.adv_y(0) == lay.header_h + lay.card_gap,
        lay.adv_y(1) == lay.adv_y(0) + lay.card_h + lay.card_gap,
        lay.adv_y(2) == lay.adv_y(1) + lay.color_h + lay.card_gap,
        lay.adv_y(2) + lay.tog_h <= lay.foot_y(),
{
    lemma_px(lay.dpi as int);
}

/// Along a straight edge nothing of a rounded rectangle is cut off: a point that is in the band
/// of the corners in one direction only is inside.
pub proof fn law_edges_are_straight(x: int, y: int, w: int, h: int, r: int)
    requires
        0 <= x < w,
        0 <= y < h,
        corner_depth(x, w, r) == 0 || corner_depth(y, h, r) == 0,
    ensures
        inside_rounded(x, y, w, h, r),
{
    let dx = corner_depth(x, w, r);
    let dy = corner_depth(y, h, r);
    assert(dx * dx + dy * dy <= r * r) by (nonlinear_arith)
        requires
            dx == 0 || dy == 0,
            dx == 0 || 0 <= dx <= r,
            dy == 0 || 0 <= dy <= r,
    ;
}

/// Whether a length is what `n` pixels at 96 dots an inch come to, where it is made of `parts`
/// parts of which each may be off by half a pixel.
pub open spec fn comes_to(length: int, n: int, dpi: u32, parts: int) -> bool {
    &&& 96 * length <= n * dpi + 48 * parts
    &&& n * dpi <= 96 * length + 48 * parts
}

/// A length is scaled to the nearest whole number of pixels, and a negative one to as many as the
/// same positive one; only the end of the range of `i32` is in the way.
pub proof fn law_lengths_are_scaled(n: int, dpi: int)
    requires
        0 <= n,
        0 <= dpi,
    ensures
        2 * (n * dpi) + 96 < 192 * 0x8000_0000 ==> {
            &&& 96 * scaled(n, dpi) <= n * dpi + 48
            &&& n * dpi < 96 * scaled(n, dpi) + 48
            &&& scaled(-n, dpi) == -scaled(n, dpi)
        },
        2 * (n * dpi) + 96 >= 192 * 0x8000_0000 ==> scaled(n, dpi) == 0x7FFF_FFFF,
{
    reveal(scaled);
    assert((-n) * dpi == -(n * dpi)) by (nonlinear_arith);
    assert(0 <= n * dpi) by (nonlinear_arith)
        requires
            0 <= n,
            0 <= dpi,
    ;
}

/// The panel has the same proportions at every resolution: each measure is that of the design at
/// 96 dots an inch, scaled.
pub proof fn law_proportions_are_kept(lay: Lay)
    requires
        lay.wf(),
    ensures
        comes_to(lay.ow as int, 340, lay.dpi, 1),
        comes_to(lay.oh as int, 469, lay.dpi, 15),
        comes_to(lay.pad as int, 14, lay.dpi, 1),
        comes_to(lay.corner as int, 14, lay.dpi, 1),
        comes_to(lay.header_h as int, 48, lay.dpi, 1),
        comes_to(lay.tab_start as int, 53, lay.dpi, 2),
        comes_to(lay.tab_btn_w as int, 80, lay.dpi, 1),
        comes_to(lay.tab_btn_h as int, 26, lay.dpi, 1),
        comes_to(lay.tab_btn_y as int, 11, lay.dpi, 1),
        comes_to(lay.card_gap as int, 5, lay.dpi, 1),
        comes_to(lay.card_h as int, 56, lay.dpi, 1),
        comes_to(lay.dir_h as int, 70, lay.dpi, 1),
        comes_to(lay.tog_h as int, 48, lay.dpi, 1),
        comes_to(lay.color_h as int, 56, lay.dpi, 1),
        comes_to(lay.card_r as int, 12, lay.dpi, 1),
        comes_to(lay.content_x as int, 24, lay.dpi, 2),
        comes_to(lay.track_right as int, 316, lay.dpi, 3),
        comes_to(lay.track_h as int, 3, lay.dpi, 1),
        comes_to(lay.track_offset as int, 38, lay.dpi, 1),
        comes_to(lay.col_track_offset as int, 36, lay.dpi, 1),
        comes_to(lay.close_sz as int, 10, lay.dpi, 1),
        comes_to(lay.close_x as int, 14, lay.dpi, 1),
        lay.header_h - 1 <= 2 * lay.close_y + lay.close_sz <= lay.header_h,
        lay.content_x + lay.track_right == lay.ow,
{
    lemma_px(lay.dpi as int);
}

/// The two tab buttons lie as far to the left of the middle of the panel as to the right of it.
pub proof fn law_tabs_are_in_the_middle(lay: Lay)
    requires
        lay.wf(),
    ensures
        lay.tabs_x().0 + lay.tab_btn_w + lay.tabs_x().1 == 2 * (lay.ow / 2),
        lay.px(24) - 1 <= lay.tabs_x().1 - (lay.tabs_x().0 + lay.tab_btn_w) <= lay.px(24),
{
    lemma_px(lay.dpi as int);
}

/// A rounded rectangle looks the same from each of its corners.
pub proof fn law_corners_are_alike(x: int, y: int, w: int, h: int, r: int)
    requires
        0 <= 2 * r <= w,
        2 * r <= h,
    ensures
        inside_rounded(x, y, w, h, r) <==> inside_rounded(w - 1 - x, y, w, h, r),
        inside_rounded(x, y, w, h, r) <==> inside_rounded(x, h - 1 - y, w, h, r),
{
}

/// In a corner the points are inside that are no further from its centre than the radius; between
/// the corners, all points are.
pub proof fn law_corners_are_round(x: int, y: int, w: int, h: int, r: int)
    requires
        0 <= x < w,
        0 <= y < h,
        0 <= 2 * r <= w,
        2 * r <= h,
    ensures
        x < r && y < r ==> (inside_rounded(x, y, w, h, r) <==> (r - x) * (r - x) + (r - y) * (r
            - y) <= r * r),
        r <= x < w - r || r <= y < h - r ==> inside_rounded(x, y, w, h, r),
{
    if r <= x < w - r || r <= y < h - r {
        law_edges_are_straight(x, y, w, h, r);
    }
}

/// Nothing beyond the edges of a rounded rectangle is inside.
pub proof fn law_nothing_beyond_the_edges(x: int, y: int, w: int, h: int, r: int)
    requires
        x < 0 || y < 0 || x >= w || y >= h,
    ensures
        !inside_rounded(x, y, w, h, r),
{
}

} // verus!
