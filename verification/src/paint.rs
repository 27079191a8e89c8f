//! What the settings panel looks like: a list of shapes and texts, to be drawn one over the other.

use crate::hotkey::{hotkey_parts, law_names_are_short, part_names};
use crate::launch::{clips_path, is_separator, law_clips_go_below_the_profile};
use crate::layout::{law_scaled_grows, lemma_card, lemma_px, Lay};
use crate::overlay::{
    along, slider, slider_words, thumb_of, MonitorInfo, Panel, State, Thumbs, TOGGLE_STEPS,
};
use crate::text::{chars_of, decimal, push_decimal, texts};
use vstd::prelude::*;

verus! {

// The palette. A colour has its red in the lowest byte, then its green and its blue.
pub const BLACK: u32 = 0x000000;

pub const C_BG: u32 = 0x0D0D0D;

pub const C_CARD: u32 = 0x161616;

pub const C_WHITE: u32 = 0xACACAC;

pub const C_GREY: u32 = 0x585858;

pub const C_GREY_LT: u32 = 0x8C8C8C;

pub const C_TRACK: u32 = 0x1E1E1E;

pub const C_CLOSE_BG: u32 = 0x232323;

pub const C_TOG_OFF: u32 = 0x3C3C3C;

pub const C_TL_RED: u32 = 0x575FFF;

pub const C_TL_YLW: u32 = 0x2EBCFE;

pub const C_TL_GRN: u32 = 0x40C828;

// Where a text stands in its rectangle.
pub const DT_LEFT: u32 = 0x0000;

pub const DT_CENTER: u32 = 0x0001;

pub const DT_RIGHT: u32 = 0x0002;

pub const DT_VCENTER: u32 = 0x0004;

pub const DT_SINGLELINE: u32 = 0x0020;

pub const DT_NOCLIP: u32 = 0x0100;

pub const DT_END_ELLIPSIS: u32 = 0x8000;

/// One line at the left and at the top.
pub const AT_LEFT: u32 = DT_LEFT + DT_SINGLELINE;

/// One line in the middle.
pub const IN_MIDDLE: u32 = DT_CENTER + DT_SINGLELINE + DT_VCENTER;

/// One line at the right, halfway down.
pub const AT_RIGHT: u32 = DT_RIGHT + DT_SINGLELINE + DT_VCENTER;

/// How much of a card is seen of 255.
pub const CARD_ALPHA: u8 = 200;

/// How much of the glow around a thumb is seen of 255.
pub const GLOW_ALPHA: u8 = 48;

/// How much of the background image is seen of 255.
pub const IMAGE_ALPHA: u8 = 90;

/// The letters that a text is set in.
#[derive(Clone, Copy, PartialEq, Eq, Structural, Debug)]
pub enum Font {
    Label,
    Value,
    Hint,
}

/// Something to draw.
#[derive(Clone, Copy, PartialEq, Eq, Structural, Debug)]
pub enum Shape {
    /// A rectangle.
    Fill { x: i32, y: i32, w: i32, h: i32, color: u32 },
    /// Nothing, but what follows is seen inside this rectangle only, whose corners are rounded
    /// with this diameter.
    Clip { w: i32, h: i32, diameter: i32 },
    /// Nothing, but what follows is seen everywhere again.
    Unclip,
    /// The background image, stretched.
    Image { w: i32, h: i32, alpha: u8 },
    /// An ellipse with soft edges.
    Dot { x: i32, y: i32, w: i32, h: i32, color: u32 },
    /// An ellipse that is seen through.
    Glow { x: i32, y: i32, w: i32, h: i32, color: u32, alpha: u8 },
    /// A rectangle with rounded corners and soft edges.
    Pill { x: i32, y: i32, w: i32, h: i32, r: i32, color: u32 },
    /// A rectangle with rounded corners.
    Frame { x: i32, y: i32, w: i32, h: i32, r: i32, color: u32 },
    /// A rectangle with rounded corners that is seen through.
    Card { x: i32, y: i32, w: i32, h: i32, r: i32, color: u32, alpha: u8 },
    /// A rectangle that goes over from one colour into another.
    Gradient { x: i32, y: i32, w: i32, h: i32, from: u32, to: u32 },
    /// A rectangle that goes through all hues.
    Hues { x: i32, y: i32, w: i32, h: i32 },
    /// A text in a rectangle.
    Text { left: i32, top: i32, right: i32, bottom: i32, font: Font, color: u32, flags: u32 },
}

/// Something to draw, with the text where it is one.
pub struct DrawOp {
    pub shape: Shape,
    pub text: String,
}

impl View for DrawOp {
    type V = (Shape, Seq<char>);

    open spec fn view(&self) -> (Shape, Seq<char>) {
        (self.shape, self.text@)
    }
}

/// What the panel looks like besides what it holds.
#[derive(Clone, Copy, PartialEq, Eq, Structural, Debug)]
pub struct Look {
    pub accent: u32,
    /// The accent colour, darker.
    pub accent_dim: u32,
    /// How far the line under the tabs is from the first tab.
    pub underline: i32,
    pub thumbs: Thumbs,
    pub hotkey: u64,
    pub monitor: u32,
}

/// A list of shapes as values.
pub open spec fn drawn(v: Seq<DrawOp>) -> Seq<(Shape, Seq<char>)> {
    v.map_values(|d: DrawOp| d@)
}

/// A shape, which has no text.
pub open spec fn plain(shape: Shape) -> (Shape, Seq<char>) {
    (shape, Seq::empty())
}

/// A rectangle.
pub open spec fn fill(x: int, y: int, w: int, h: int, color: u32) -> (Shape, Seq<char>) {
    plain(Shape::Fill { x: x as i32, y: y as i32, w: w as i32, h: h as i32, color })
}

/// An ellipse as wide as it is high.
pub open spec fn dot(x: int, y: int, d: int, color: u32) -> (Shape, Seq<char>) {
    plain(Shape::Dot { x: x as i32, y: y as i32, w: d as i32, h: d as i32, color })
}

/// A rectangle with rounded corners.
pub open spec fn frame(x: int, y: int, w: int, h: int, r: int, color: u32) -> (Shape, Seq<char>) {
    plain(
        Shape::Frame { x: x as i32, y: y as i32, w: w as i32, h: h as i32, r: r as i32, color },
    )
}

/// A text in the rectangle between two corners.
pub open spec fn text(
    left: int,
    top: int,
    right: int,
    bottom: int,
    font: Font,
    color: u32,
    flags: u32,
    s: Seq<char>,
) -> (Shape, Seq<char>) {
    (
        Shape::Text {
            left: left as i32,
            top: top as i32,
            right: right as i32,
            bottom: bottom as i32,
            font,
            color,
            flags,
        },
        s,
    )
}

/// The panel itself: black in the corners, which stands for what is seen through, and the
/// background, with the image on it where there is one.
#[verifier::opaque]
pub open spec fn ground_ops(p: Panel) -> Seq<(Shape, Seq<char>)> {
    let lay = p.lay;
    let image = if p.has_image {
        seq![plain(Shape::Image { w: lay.ow, h: lay.oh, alpha: IMAGE_ALPHA })]
    } else {
        Seq::empty()
    };
    seq![
        fill(0, 0, lay.ow as int, lay.oh as int, BLACK),
        plain(Shape::Clip { w: lay.ow, h: lay.oh, diameter: (lay.corner * 2) as i32 }),
        fill(0, 0, lay.ow as int, lay.oh as int, C_BG),
    ] + image + seq![plain(Shape::Unclip)]
}

/// The button of a tab.
pub open spec fn tab_op(p: Panel, i: int, x: int, label: Seq<char>) -> (Shape, Seq<char>) {
    let lay = p.lay;
    let color = if p.active_tab == i {
        C_WHITE
    } else {
        C_GREY
    };
    text(
        x,
        lay.tab_btn_y as int,
        x + lay.tab_btn_w,
        lay.tab_btn_y + lay.tab_btn_h,
        Font::Label,
        color,
        IN_MIDDLE,
        label,
    )
}

/// The three dots of the header, the first of which is the close button.
pub open spec fn light_ops(lay: Lay) -> Seq<(Shape, Seq<char>)> {
    let x = lay.close_x as int;
    let y = lay.close_y as int;
    let d = lay.close_sz as int;
    let step = d + lay.px(6);
    seq![
        dot(x, y, d, C_TL_RED),
        dot(x + step, y, d, C_TL_YLW),
        dot(x + step * 2, y, d, C_TL_GRN),
    ]
}

/// The header: the dots, the two tabs with a line under one of them, and a line below.
#[verifier::opaque]
pub open spec fn header_ops(p: Panel, look: Look) -> Seq<(Shape, Seq<char>)> {
    let lay = p.lay;
    light_ops(lay) + seq![
        tab_op(p, 0, lay.tabs_x().0, "settings"@),
        tab_op(p, 1, lay.tabs_x().1, "advanced"@),
        fill(
            lay.tabs_x().0 + lay.px(6) + look.underline,
            lay.tab_btn_y + lay.tab_btn_h - lay.px(2),
            lay.tab_btn_w - lay.px(12),
            lay.px(2),
            look.accent,
        ),
        fill(0, lay.header_h - 1, lay.ow as int, 1, C_CLOSE_BG),
    ]
}

/// The footer: a line above, the dot that tells that the program is running, and the button that
/// saves a clip.
#[verifier::opaque]
pub open spec fn footer_ops(p: Panel, look: Look) -> Seq<(Shape, Seq<char>)> {
    let lay = p.lay;
    let y = lay.foot_y();
    let h = lay.oh - y;
    let button_x = lay.ow - lay.pad - lay.px(118);
    let button_y = y + (h - lay.px(32)) / 2;
    let words_y = y + (h - lay.px(18)) / 2;
    seq![
        fill(lay.pad as int, y, lay.ow - lay.pad * 2, 1, C_CLOSE_BG),
        dot(lay.pad + lay.px(2), y + (h - lay.px(10)) / 2, lay.px(10), C_TL_GRN),
        text(
            lay.pad + lay.px(16),
            words_y,
            4096,
            words_y + 32,
            Font::Hint,
            C_GREY,
            (DT_LEFT + DT_SINGLELINE + DT_VCENTER + DT_NOCLIP) as u32,
            "running"@,
        ),
        frame(button_x, button_y, lay.px(118), lay.px(32), lay.px(5), look.accent),
        text(
            button_x,
            button_y,
            button_x + lay.px(118),
            button_y + lay.px(32),
            Font::Label,
            C_BG,
            (IN_MIDDLE + DT_NOCLIP) as u32,
            "> save clip"@,
        ),
    ]
}

/// A card that is `h` high, with its name on it, which ends at `right`.
pub open spec fn card_ops(
    lay: Lay,
    y: int,
    h: int,
    right: int,
    label: Seq<char>,
    color: u32,
) -> Seq<(Shape, Seq<char>)> {
    seq![
        plain(
            Shape::Card {
                x: lay.pad,
                y: y as i32,
                w: (lay.ow - lay.pad * 2) as i32,
                h: h as i32,
                r: lay.card_r,
                color: C_CARD,
                alpha: CARD_ALPHA,
            },
        ),
        text(
            lay.pad + lay.px(10),
            y + lay.px(9),
            right,
            y + lay.px(9) + lay.px(20),
            Font::Label,
            color,
            AT_LEFT,
            label,
        ),
    ]
}

/// The track of a slider at height `track`, filled up to the thumb at `x`, and the thumb, which
/// glows.
pub open spec fn track_ops(lay: Lay, look: Look, track: int, x: int) -> Seq<(Shape, Seq<char>)> {
    let filled = if x >= lay.content_x {
        x - lay.content_x
    } else {
        0
    };
    seq![
        fill(
            lay.content_x as int,
            track,
            lay.track_right - lay.content_x,
            lay.track_h as int,
            C_TRACK,
        ),
        plain(
            Shape::Gradient {
                x: lay.content_x,
                y: track as i32,
                w: filled as i32,
                h: lay.track_h,
                from: look.accent_dim,
                to: look.accent,
            },
        ),
        plain(
            Shape::Glow {
                x: (x - lay.px(11)) as i32,
                y: (track - lay.px(11)) as i32,
                w: (lay.px(11) * 2) as i32,
                h: (lay.px(11) * 2) as i32,
                color: look.accent,
                alpha: GLOW_ALPHA,
            },
        ),
        dot(x - lay.px(5), track - lay.px(5), lay.px(5) * 2, look.accent),
    ]
}

/// The card of a slider: its name, its value and its track.
#[verifier::opaque]
pub open spec fn slider_ops(p: Panel, look: Look, i: int) -> Seq<(Shape, Seq<char>)> {
    let lay = p.lay;
    let y = lay.main_y(i);
    card_ops(lay, y, lay.card_h as int, lay.ow / 2, slider_words(i).0, C_WHITE) + seq![
        text(
            lay.content_x as int,
            y + lay.px(11),
            lay.ow - lay.pad - lay.px(10),
            y + lay.px(29),
            Font::Value,
            look.accent,
            AT_RIGHT,
            decimal(p.val[i] as nat) + slider_words(i).1,
        ),
    ] + track_ops(lay, look, y + lay.px(38), thumb_of(look.thumbs, i) as int)
}

/// The width of the badge of a key, by its name.
pub open spec fn badge_width(lay: Lay, name: Seq<char>) -> int {
    (if name.len() * lay.px(7) >= lay.px(20) {
        name.len() * lay.px(7)
    } else {
        lay.px(20)
    }) + lay.px(8) * 2
}

/// The width of a row of badges, with a gap behind each.
pub open spec fn badges_width(lay: Lay, names: Seq<Seq<char>>) -> int
    decreases names.len(),
{
    if names.len() == 0 {
        0
    } else {
        badges_width(lay, names.drop_last()) + badge_width(lay, names.last()) + lay.px(4)
    }
}

/// Where the first of a row of badges begins: the last one ends where the tracks do.
pub open spec fn badges_left(lay: Lay, names: Seq<Seq<char>>) -> int {
    lay.track_right - badges_width(lay, names) + if names.len() > 0 {
        lay.px(4)
    } else {
        0
    }
}

/// A row of badges, from `x` on, one for each key.
pub open spec fn badge_ops(lay: Lay, x: int, y: int, names: Seq<Seq<char>>) -> Seq<
    (Shape, Seq<char>),
>
    decreases names.len(),
{
    if names.len() == 0 {
        Seq::empty()
    } else {
        let left = x + badges_width(lay, names.drop_last());
        let w = badge_width(lay, names.last());
        badge_ops(lay, x, y, names.drop_last()) + seq![
            frame(left, y, w, lay.px(20), lay.px(3), C_CLOSE_BG),
            text(left, y, left + w, y + lay.px(20), Font::Hint, C_WHITE, IN_MIDDLE, names.last()),
        ]
    }
}

/// The card of the hotkey: a badge for each of its keys, or what to do while one is picked.
#[verifier::opaque]
pub open spec fn hotkey_ops(p: Panel, look: Look) -> Seq<(Shape, Seq<char>)> {
    let lay = p.lay;
    let y = lay.main_y(3);
    let color = if p.capturing_hotkey {
        look.accent
    } else {
        C_WHITE
    };
    let names = part_names(look.hotkey);
    card_ops(lay, y, lay.tog_h as int, lay.ow / 2, "hotkey"@, color) + if p.capturing_hotkey {
        seq![
            text(
                lay.content_x as int,
                y,
                lay.track_right as int,
                y + lay.tog_h,
                Font::Hint,
                C_GREY,
                AT_RIGHT,
                "press a key\u{2026}"@,
            ),
        ]
    } else {
        badge_ops(lay, badges_left(lay, names), y + (lay.tog_h - lay.px(20)) / 2, names)
    }
}

/// The card of the output directory.
#[verifier::opaque]
pub open spec fn dir_ops(p: Panel, dir: Seq<char>) -> Seq<(Shape, Seq<char>)> {
    let lay = p.lay;
    let y = lay.main_y(4);
    let x = lay.pad + lay.px(10);
    let w = lay.ow - lay.pad * 2 - lay.px(20);
    card_ops(lay, y, lay.dir_h as int, lay.ow / 2, "output_dir"@, C_WHITE) + seq![
        frame(x, y + lay.px(38), w, lay.px(22), lay.px(3), C_TRACK),
        text(
            x + lay.px(8),
            y + lay.px(38),
            x + w - lay.px(8),
            y + lay.px(38) + lay.px(22),
            Font::Hint,
            C_GREY_LT,
            (DT_LEFT + DT_SINGLELINE + DT_VCENTER + DT_END_ELLIPSIS) as u32,
            dir,
        ),
    ]
}

/// The switch at a place, moved by so many eighths: its knob goes from one end to the other.
pub open spec fn switch_ops(lay: Lay, x: int, y: int, moved: int, accent: u32) -> Seq<
    (Shape, Seq<char>),
> {
    let knob = lay.px(30) - lay.px(10);
    let margin = lay.px(10) / 2;
    let way = lay.px(52) - margin * 2 - knob;
    seq![
        plain(
            Shape::Pill {
                x: x as i32,
                y: y as i32,
                w: lay.px(52) as i32,
                h: lay.px(30) as i32,
                r: (lay.px(30) / 2) as i32,
                color: if moved * 2 > TOGGLE_STEPS {
                    accent
                } else {
                    C_TOG_OFF
                },
            },
        ),
        dot(x + margin + moved * way / (TOGGLE_STEPS as int), y + margin, knob, C_BG),
    ]
}

/// The card of the switch.
#[verifier::opaque]
pub open spec fn startup_ops(p: Panel, look: Look) -> Seq<(Shape, Seq<char>)> {
    let lay = p.lay;
    let y = lay.main_y(5);
    card_ops(
        lay,
        y,
        lay.tog_h as int,
        lay.ow - lay.px(70),
        "start_with_windows"@,
        C_WHITE,
    ) + switch_ops(
        lay,
        lay.ow - lay.pad - lay.px(10) - lay.px(52),
        y + (lay.tog_h - lay.px(30)) / 2,
        p.tog_anim as int,
        look.accent,
    )
}

/// The size of a monitor in words: of one that there is not, nought by nought.
pub open spec fn size_words(monitors: Seq<MonitorInfo>, i: u32) -> Seq<char> {
    let m = if i < monitors.len() {
        monitors[i as int]
    } else {
        MonitorInfo { w: 0, h: 0 }
    };
    decimal(m.w as nat) + " \u{00D7} "@ + decimal(m.h as nat)
}

/// Which monitor of how many there are is captured, in words.
pub open spec fn choice_words(monitors: Seq<MonitorInfo>, i: u32) -> Seq<char> {
    if monitors.len() > 1 {
        "\u{25C0}  "@ + decimal((i + 1) as nat) + " of "@ + decimal(monitors.len())
            + "  \u{25B6}"@
    } else {
        "only display"@
    }
}

/// The card of the display: the size of the monitor that is captured, and which one it is.
#[verifier::opaque]
pub open spec fn display_ops(p: Panel, look: Look) -> Seq<(Shape, Seq<char>)> {
    let lay = p.lay;
    let y = lay.adv_y(0);
    let line = y + lay.px(38);
    card_ops(lay, y, lay.card_h as int, lay.ow / 2, "display"@, C_WHITE) + seq![
        text(
            lay.content_x as int,
            y + lay.px(11),
            lay.track_right as int,
            y + lay.px(29),
            Font::Value,
            look.accent,
            AT_RIGHT,
            size_words(p.monitors, look.monitor),
        ),
        text(
            lay.content_x as int,
            line - lay.px(8),
            lay.track_right as int,
            line + lay.px(8),
            Font::Hint,
            C_GREY,
            IN_MIDDLE,
            choice_words(p.monitors, look.monitor),
        ),
    ]
}

/// The card of the accent colour: the track of all hues, and the thumb with a light spot in it.
#[verifier::opaque]
pub open spec fn color_ops(p: Panel, look: Look) -> Seq<(Shape, Seq<char>)> {
    let lay = p.lay;
    let y = lay.adv_y(1);
    let track = y + lay.px(36);
    let x = look.thumbs.hue;
    card_ops(lay, y, lay.color_h as int, lay.ow / 2, "accent_color"@, C_WHITE) + seq![
        plain(
            Shape::Hues {
                x: lay.content_x,
                y: track as i32,
                w: (lay.track_right - lay.content_x) as i32,
                h: lay.track_h,
            },
        ),
        dot(x - lay.px(6), track - lay.px(6), lay.px(6) * 2, look.accent),
        dot(x - lay.px(3), track - lay.px(3), lay.px(5), C_WHITE),
    ]
}

/// The card of the background image: the file's name and a cross to take the image away, or
/// what to do.
#[verifier::opaque]
pub open spec fn image_ops(p: Panel, look: Look, file: Seq<char>) -> Seq<(Shape, Seq<char>)> {
    let lay = p.lay;
    let y = lay.adv_y(2);
    let size = lay.close_sz;
    let x = lay.ow - lay.pad - size;
    let cross_y = y + (lay.tog_h - size) / 2;
    card_ops(lay, y, lay.tog_h as int, lay.ow / 2, "background"@, C_WHITE) + if p.has_image {
        seq![
            text(
                lay.content_x as int,
                y,
                x - lay.px(6),
                y + lay.tog_h,
                Font::Hint,
                look.accent,
                (AT_RIGHT + DT_END_ELLIPSIS) as u32,
                file,
            ),
            frame(x, cross_y, size as int, size as int, lay.px(4), C_CLOSE_BG),
            text(
                x,
                cross_y,
                x + size,
                cross_y + size,
                Font::Hint,
                C_GREY,
                IN_MIDDLE,
                "\u{00D7}"@,
            ),
        ]
    } else {
        seq![
            text(
                lay.content_x as int,
                y,
                lay.track_right as int,
                y + lay.tog_h,
                Font::Hint,
                C_GREY,
                AT_RIGHT,
                "click to browse\u{2026}"@,
            ),
        ]
    }
}

/// The tab that is shown.
pub open spec fn tab_ops(p: Panel, look: Look, dir: Seq<char>, file: Seq<char>) -> Seq<
    (Shape, Seq<char>),
> {
    if p.active_tab == 0 {
        slider_ops(p, look, 0) + slider_ops(p, look, 1) + slider_ops(p, look, 2) + hotkey_ops(
            p,
            look,
        ) + dir_ops(p, dir) + startup_ops(p, look)
    } else {
        display_ops(p, look) + color_ops(p, look) + image_ops(p, look, file)
    }
}

/// All there is to draw, from the ground up.
pub open spec fn panel_ops(p: Panel, look: Look, dir: Seq<char>, file: Seq<char>) -> Seq<
    (Shape, Seq<char>),
> {
    ground_ops(p) + header_ops(p, look) + tab_ops(p, look, dir, file) + footer_ops(p, look)
}

/// The directory of the clips as the panel shows it, below the user's own directory.
pub open spec fn dir_words(profile: Option<Seq<char>>) -> Seq<char> {
    (match profile {
        Some(p) => p,
        None => "C:\\Users\\user"@,
    }) + "\\Videos\\Glimpse"@
}

/// A colour, out of its red, green and blue.
pub open spec fn color_of(r: u8, g: u8, b: u8) -> int {
    r + 0x100 * g + 0x10000 * b
}

/// The red, green and blue of a colour, each on a scale to 65,280.
pub open spec fn channels_of(c: int) -> (int, int, int) {
    (c % 0x100 * 0x100, c / 0x100 % 0x100 * 0x100, c / 0x10000 % 0x100 * 0x100)
}

/// The height of letters of so many points, in pixels.
pub open spec fn height_of(points: int, dpi: int) -> int {
    points * dpi / 72
}

/// How large an image's pixels are: a row's and all of them.
pub open spec fn bytes_of_image(w: u32, h: u32) -> Option<(u32, u32)> {
    if w == 0 || h == 0 {
        None
    } else {
        Some(((4 * w) as u32, (4 * w * h) as u32))
    }
}

/// A colour, out of its red, green and blue.
pub fn rgb(r: u8, g: u8, b: u8) -> (c: u32)
    ensures
        c == r + 0x100 * g + 0x10000 * b,
        c == color_of(r, g, b),
{
    r as u32 + 0x100 * g as u32 + 0x10000 * b as u32
}

fn put(out: &mut Vec<DrawOp>, shape: Shape)
    ensures
        drawn(final(out)@) == drawn(old(out)@).push(plain(shape)),
{
    out.push(DrawOp { shape, text: String::new() });
    assert(drawn(out@) =~= drawn(old(out)@).push(plain(shape)));
}

fn put_text(out: &mut Vec<DrawOp>, shape: Shape, text: &str)
    ensures
        drawn(final(out)@) == drawn(old(out)@).push((shape, text@)),
{
    out.push(DrawOp { shape, text: text.to_owned() });
    assert(drawn(out@) =~= drawn(old(out)@).push((shape, text@)));
}

fn put_dot(out: &mut Vec<DrawOp>, x: i32, y: i32, d: i32, color: u32)
    ensures
        drawn(final(out)@) == drawn(old(out)@).push(dot(x as int, y as int, d as int, color)),
{
    put(out, Shape::Dot { x, y, w: d, h: d, color });
}

fn put_ground(out: &mut Vec<DrawOp>, s: &State)
    requires
        s@.wf(),
    ensures
        drawn(final(out)@) == drawn(old(out)@) + ground_ops(s@),
{
    let lay = &s.lay;
    proof {
        reveal(ground_ops);
        lemma_px(lay.dpi as int);
    }
    put(out, Shape::Fill { x: 0, y: 0, w: lay.ow, h: lay.oh, color: BLACK });
    put(out, Shape::Clip { w: lay.ow, h: lay.oh, diameter: lay.corner * 2 });
    put(out, Shape::Fill { x: 0, y: 0, w: lay.ow, h: lay.oh, color: C_BG });
    if s.has_image {
        put(out, Shape::Image { w: lay.ow, h: lay.oh, alpha: IMAGE_ALPHA });
    }
    put(out, Shape::Unclip);
    assert(drawn(out@) =~= drawn(old(out)@) + ground_ops(s@));
}

fn put_tab(out: &mut Vec<DrawOp>, s: &State, i: u8, x: i32, label: &str)
    requires
        s@.wf(),
        0 <= x <= s@.lay.ow,
    ensures
        drawn(final(out)@) == drawn(old(out)@).push(tab_op(s@, i as int, x as int, label@)),
{
    let lay = &s.lay;
    proof {
        lemma_px(lay.dpi as int);
    }
    let color: u32 = if s.active_tab == i {
        C_WHITE
    } else {
        C_GREY
    };
    put_text(
        out,
        Shape::Text {
            left: x,
            top: lay.tab_btn_y,
            right: x + lay.tab_btn_w,
            bottom: lay.tab_btn_y + lay.tab_btn_h,
            font: Font::Label,
            color,
            flags: IN_MIDDLE,
        },
        label,
    );
}

/// Whether the places of the thumbs and of the line under the tabs can be counted in pixels.
pub open spec fn countable(lay: Lay, look: Look) -> bool {
    &&& i32::MIN <= look.thumbs.clip_secs - lay.px(11)
    &&& i32::MIN <= look.thumbs.fps - lay.px(11)
    &&& i32::MIN <= look.thumbs.bitrate_mbps - lay.px(11)
    &&& i32::MIN <= look.thumbs.hue - lay.px(6)
    &&& i32::MIN <= lay.tabs_x().0 + lay.px(6) + look.underline <= i32::MAX
}

fn put_lights(out: &mut Vec<DrawOp>, lay: &Lay)
    requires
        lay.wf(),
    ensures
        drawn(final(out)@) == drawn(old(out)@) + light_ops(*lay),
{
    proof {
        lemma_px(lay.dpi as int);
    }
    let x: i32 = lay.close_x;
    let y: i32 = lay.close_y;
    let d: i32 = lay.close_sz;
    let step: i32 = d + lay.s(6);
    put_dot(out, x, y, d, C_TL_RED);
    put_dot(out, x + step, y, d, C_TL_YLW);
    put_dot(out, x + step * 2, y, d, C_TL_GRN);
    assert(drawn(out@) =~= drawn(old(out)@) + light_ops(*lay));
}

fn put_header(out: &mut Vec<DrawOp>, s: &State, look: &Look)
    requires
        s@.wf(),
        countable(s@.lay, *look),
    ensures
        drawn(final(out)@) == drawn(old(out)@) + header_ops(s@, *look),
{
    let lay = &s.lay;
    proof {
        reveal(header_ops);
        lemma_px(lay.dpi as int);
    }
    put_lights(out, lay);
    let (x0, x1) = lay.tab_x();
    put_tab(out, s, 0, x0, "settings");
    put_tab(out, s, 1, x1, "advanced");
    put(
        out,
        Shape::Fill {
            x: x0 + lay.s(6) + look.underline,
            y: lay.tab_btn_y + lay.tab_btn_h - lay.s(2),
            w: lay.tab_btn_w - lay.s(12),
            h: lay.s(2),
            color: look.accent,
        },
    );
    put(out, Shape::Fill { x: 0, y: lay.header_h - 1, w: lay.ow, h: 1, color: C_CLOSE_BG });
    assert(drawn(out@) =~= drawn(old(out)@) + header_ops(s@, *look));
}

fn put_footer(out: &mut Vec<DrawOp>, s: &State, look: &Look)
    requires
        s@.wf(),
    ensures
        drawn(final(out)@) == drawn(old(out)@) + footer_ops(s@, *look),
{
    let lay = &s.lay;
    proof {
        reveal(footer_ops);
        lemma_px(lay.dpi as int);
    }
    let y: i32 = lay.footer_y();
    let h: i32 = lay.oh - y;
    put(out, Shape::Fill { x: lay.pad, y, w: lay.ow - lay.pad * 2, h: 1, color: C_CLOSE_BG });
    put_dot(out, lay.pad + lay.s(2), y + (h - lay.s(10)) / 2, lay.s(10), C_TL_GRN);
    let words_y: i32 = y + (h - lay.s(18)) / 2;
    put_text(
        out,
        Shape::Text {
            left: lay.pad + lay.s(16),
            top: words_y,
            right: 4096,
            bottom: words_y + 32,
            font: Font::Hint,
            color: C_GREY,
            flags: DT_LEFT + DT_SINGLELINE + DT_VCENTER + DT_NOCLIP,
        },
        "running",
    );
    let w: i32 = lay.s(118);
    let button_h: i32 = lay.s(32);
    let x: i32 = lay.ow - lay.pad - w;
    let button_y: i32 = y + (h - button_h) / 2;
    put(out, Shape::Frame { x, y: button_y, w, h: button_h, r: lay.s(5), color: look.accent });
    put_text(
        out,
        Shape::Text {
            left: x,
            top: button_y,
            right: x + w,
            bottom: button_y + button_h,
            font: Font::Label,
            color: C_BG,
            flags: IN_MIDDLE + DT_NOCLIP,
        },
        "> save clip",
    );
    assert(drawn(out@) =~= drawn(old(out)@) + footer_ops(s@, *look));
}

fn put_card(out: &mut Vec<DrawOp>, lay: &Lay, y: i32, h: i32, right: i32, label: &str, color: u32)
    requires
        lay.wf(),
        0 <= y <= lay.oh - lay.px(48),
    ensures
        drawn(final(out)@) == drawn(old(out)@) + card_ops(
            *lay,
            y as int,
            h as int,
            right as int,
            label@,
            color,
        ),
{
    proof {
        lemma_px(lay.dpi as int);
    }
    put(
        out,
        Shape::Card {
            x: lay.pad,
            y,
            w: lay.ow - lay.pad * 2,
            h,
            r: lay.card_r,
            color: C_CARD,
            alpha: CARD_ALPHA,
        },
    );
    put_text(
        out,
        Shape::Text {
            left: lay.pad + lay.s(10),
            top: y + lay.s(9),
            right,
            bottom: y + lay.s(9) + lay.s(20),
            font: Font::Label,
            color,
            flags: AT_LEFT,
        },
        label,
    );
    assert(drawn(out@) =~= drawn(old(out)@) + card_ops(
        *lay,
        y as int,
        h as int,
        right as int,
        label@,
        color,
    ));
}

fn put_track(out: &mut Vec<DrawOp>, lay: &Lay, look: &Look, track: i32, x: i32)
    requires
        lay.wf(),
        0 <= track <= lay.oh,
        i32::MIN <= x - lay.px(11),
    ensures
        drawn(final(out)@) == drawn(old(out)@) + track_ops(*lay, *look, track as int, x as int),
{
    proof {
        lemma_px(lay.dpi as int);
    }
    put(
        out,
        Shape::Fill {
            x: lay.content_x,
            y: track,
            w: lay.track_right - lay.content_x,
            h: lay.track_h,
            color: C_TRACK,
        },
    );
    let filled: i32 = if x >= lay.content_x {
        x - lay.content_x
    } else {
        0
    };
    put(
        out,
        Shape::Gradient {
            x: lay.content_x,
            y: track,
            w: filled,
            h: lay.track_h,
            from: look.accent_dim,
            to: look.accent,
        },
    );
    let glow: i32 = lay.s(11);
    put(
        out,
        Shape::Glow {
            x: x - glow,
            y: track - glow,
            w: glow * 2,
            h: glow * 2,
            color: look.accent,
            alpha: GLOW_ALPHA,
        },
    );
    let r: i32 = lay.s(5);
    put_dot(out, x - r, track - r, r * 2, look.accent);
    assert(drawn(out@) =~= drawn(old(out)@) + track_ops(*lay, *look, track as int, x as int));
}

fn put_slider(out: &mut Vec<DrawOp>, s: &State, look: &Look, i: usize)
    requires
        s@.wf(),
        countable(s@.lay, *look),
        i < 3,
    ensures
        drawn(final(out)@) == drawn(old(out)@) + slider_ops(s@, *look, i as int),
{
    let lay = &s.lay;
    proof {
        reveal(slider_ops);
        lemma_card(*lay, i as int);
    }
    let sl = slider(i);
    let y: i32 = lay.main_card_y(i);
    let track: i32 = lay.track_y(i);
    let x: i32 = if i == 0 {
        look.thumbs.clip_secs
    } else if i == 1 {
        look.thumbs.fps
    } else {
        look.thumbs.bitrate_mbps
    };
    put_card(out, lay, y, lay.card_h, lay.ow / 2, sl.label, C_WHITE);
    let mut value = String::new();
    push_decimal(&mut value, s.val[i] as u64);
    value.push_str(sl.unit);
    assert(value@ =~= decimal(s@.val[i as int] as nat) + slider_words(i as int).1);
    put_text(
        out,
        Shape::Text {
            left: lay.content_x,
            top: y + lay.s(11),
            right: lay.ow - lay.pad - lay.s(10),
            bottom: y + lay.s(29),
            font: Font::Value,
            color: look.accent,
            flags: AT_RIGHT,
        },
        value.as_str(),
    );
    put_track(out, lay, look, track, x);
    assert(drawn(out@) =~= drawn(old(out)@) + slider_ops(s@, *look, i as int));
}

fn put_dir(out: &mut Vec<DrawOp>, s: &State, dir: &str)
    requires
        s@.wf(),
    ensures
        drawn(final(out)@) == drawn(old(out)@) + dir_ops(s@, dir@),
{
    let lay = &s.lay;
    proof {
        reveal(dir_ops);
        lemma_px(lay.dpi as int);
    }
    let card_y: i32 = lay.main_card_y(4);
    put_card(out, lay, card_y, lay.dir_h, lay.ow / 2, "output_dir", C_WHITE);
    let x: i32 = lay.pad + lay.s(10);
    let y: i32 = card_y + lay.s(38);
    let w: i32 = lay.ow - lay.pad * 2 - lay.s(20);
    let h: i32 = lay.s(22);
    put(out, Shape::Frame { x, y, w, h, r: lay.s(3), color: C_TRACK });
    put_text(
        out,
        Shape::Text {
            left: x + lay.s(8),
            top: y,
            right: x + w - lay.s(8),
            bottom: y + h,
            font: Font::Hint,
            color: C_GREY_LT,
            flags: DT_LEFT + DT_SINGLELINE + DT_VCENTER + DT_END_ELLIPSIS,
        },
        dir,
    );
    assert(drawn(out@) =~= drawn(old(out)@) + dir_ops(s@, dir@));
}

/// Draws the switch at a place on the panel, moved by so many eighths.
fn draw_toggle(out: &mut Vec<DrawOp>, lay: &Lay, x: i32, y: i32, moved: u8, accent: u32)
    requires
        lay.wf(),
        0 <= x <= lay.ow - lay.px(52),
        0 <= y <= lay.oh - lay.px(30),
        moved <= TOGGLE_STEPS,
    ensures
        drawn(final(out)@) == drawn(old(out)@) + switch_ops(
            *lay,
            x as int,
            y as int,
            moved as int,
            accent,
        ),
{
    proof {
        lemma_px(lay.dpi as int);
        law_scaled_grows(10, 30, lay.dpi as int);
        law_scaled_grows(30, 52, lay.dpi as int);
    }
    let w: i32 = lay.s(52);
    let h: i32 = lay.s(30);
    let color: u32 = if moved * 2 > TOGGLE_STEPS {
        accent
    } else {
        C_TOG_OFF
    };
    put(out, Shape::Pill { x, y, w, h, r: h / 2, color });
    let knob: i32 = h - lay.s(10);
    let margin: i32 = lay.s(10) / 2;
    let way: i32 = w - margin * 2 - knob;
    assert(0 <= moved * way <= 8 * way) by (nonlinear_arith)
        requires
            0 <= moved <= 8,
            0 <= way,
    ;
    let gone: i32 = (moved as i64 * way as i64 / TOGGLE_STEPS as i64) as i32;
    put_dot(out, x + margin + gone, y + margin, knob, C_BG);
    assert(drawn(out@) =~= drawn(old(out)@) + switch_ops(
        *lay,
        x as int,
        y as int,
        moved as int,
        accent,
    ));
}

fn put_startup(out: &mut Vec<DrawOp>, s: &State, look: &Look)
    requires
        s@.wf(),
    ensures
        drawn(final(out)@) == drawn(old(out)@) + startup_ops(s@, *look),
{
    let lay = &s.lay;
    proof {
        reveal(startup_ops);
        lemma_px(lay.dpi as int);
    }
    let card_y: i32 = lay.main_card_y(5);
    put_card(out, lay, card_y, lay.tog_h, lay.ow - lay.s(70), "start_with_windows", C_WHITE);
    let x: i32 = lay.ow - lay.pad - lay.s(10) - lay.s(52);
    let y: i32 = card_y + (lay.tog_h - lay.s(30)) / 2;
    draw_toggle(out, lay, x, y, s.tog_anim, look.accent);
    proof {
        lemma_regrouped(
            drawn(old(out)@),
            card_ops(
                *lay,
                card_y as int,
                lay.tog_h as int,
                lay.ow - lay.px(70),
                "start_with_windows"@,
                C_WHITE,
            ),
            switch_ops(*lay, x as int, y as int, s.tog_anim as int, look.accent),
        );
    }
}

/// A row of badges is no wider than its names allow.
proof fn lemma_badges_width(lay: Lay, names: Seq<Seq<char>>)
    requires
        lay.wf(),
        forall|i: int| 0 <= i < names.len() ==> (#[trigger] names[i]).len() <= 10,
    ensures
        0 <= badges_width(lay, names) <= names.len() * (10 * lay.px(7) + lay.px(20) + lay.px(8) * 2
            + lay.px(4)),
    decreases names.len(),
{
    lemma_px(lay.dpi as int);
    if names.len() > 0 {
        let name = names.last();
        let most = 10 * lay.px(7) + lay.px(20) + lay.px(8) * 2 + lay.px(4);
        lemma_badges_width(lay, names.drop_last());
        assert(0 <= name.len() * lay.px(7) <= 10 * lay.px(7)) by (nonlinear_arith)
            requires
                name.len() <= 10,
                lay.px(7) >= 0,
        ;
        assert(names.len() * most == (names.len() - 1) * most + most) by (nonlinear_arith);
    }
}

/// A row of badges is at least as wide as the badges that it begins with.
proof fn lemma_badges_grow(lay: Lay, names: Seq<Seq<char>>, i: int)
    requires
        lay.wf(),
        0 <= i < names.len(),
    ensures
        0 <= badges_width(lay, names.take(i)),
        0 <= badge_width(lay, names[i]),
        badges_width(lay, names.take(i + 1)) == badges_width(lay, names.take(i)) + badge_width(
            lay,
            names[i],
        ) + lay.px(4),
        badges_width(lay, names.take(i + 1)) <= badges_width(lay, names),
    decreases names.len() - i,
{
    lemma_px(lay.dpi as int);
    assert(names.take(i + 1).drop_last() =~= names.take(i));
    assert(names.take(i + 1).last() == names[i]);
    assert(0 <= names[i].len() * lay.px(7)) by (nonlinear_arith)
        requires
            lay.px(7) >= 0,
    ;
    lemma_badges_start(lay, names, i);
    if i + 1 < names.len() {
        lemma_badges_grow(lay, names, i + 1);
    } else {
        assert(names.take(i + 1) =~= names);
    }
}

proof fn lemma_badges_start(lay: Lay, names: Seq<Seq<char>>, i: int)
    requires
        lay.wf(),
        0 <= i <= names.len(),
    ensures
        0 <= badges_width(lay, names.take(i)),
    decreases i,
{
    lemma_px(lay.dpi as int);
    if i > 0 {
        lemma_badges_start(lay, names, i - 1);
        assert(names.take(i).drop_last() =~= names.take(i - 1));
        assert(0 <= names[i - 1].len() * lay.px(7)) by (nonlinear_arith)
            requires
                lay.px(7) >= 0,
        ;
    }
}

fn width_of_badge(lay: &Lay, name: &str) -> (w: i64)
    requires
        lay.wf(),
        name@.len() <= 10,
    ensures
        w == badge_width(*lay, name@),
        0 <= w <= i32::MAX,
{
    proof {
        lemma_px(lay.dpi as int);
    }
    let n: i64 = chars_of(name).len() as i64;
    let letter: i64 = lay.s(7) as i64;
    assert(0 <= n * letter <= 10 * letter) by (nonlinear_arith)
        requires
            0 <= n <= 10,
            letter >= 0,
    ;
    let least: i64 = lay.s(20) as i64;
    let words: i64 = n * letter;
    (if words >= least {
        words
    } else {
        least
    }) + lay.s(8) as i64 * 2
}

fn left_of_badges(lay: &Lay, parts: &Vec<String>) -> (left: i64)
    requires
        lay.wf(),
        texts(parts@).len() <= 5,
        forall|i: int| 0 <= i < parts@.len() ==> (#[trigger] texts(parts@)[i]).len() <= 10,
    ensures
        left == badges_left(*lay, texts(parts@)),
        i32::MIN <= left <= lay.track_right + lay.px(4),
{
    let ghost names = texts(parts@);
    proof {
        lemma_px(lay.dpi as int);
        lemma_badges_width(*lay, names);
    }
    let gap: i64 = lay.s(4) as i64;
    let mut total: i64 = 0;
    let mut i: usize = 0;
    while i < parts.len()
        invariant
            0 <= i <= parts@.len() <= 5,
            names == texts(parts@),
            forall|i: int| 0 <= i < parts@.len() ==> (#[trigger] names[i]).len() <= 10,
            lay.wf(),
            gap == lay.px(4),
            0 <= gap <= 0x8000_0000,
            total == badges_width(*lay, names.take(i as int)),
            0 <= total <= i * 0x20_0000_0000,
        decreases parts@.len() - i,
    {
        proof {
            lemma_badges_grow(*lay, names, i as int);
        }
        assert(names[i as int] == parts@[i as int]@);
        total = total + width_of_badge(lay, parts[i].as_str()) + gap;
        i = i + 1;
    }
    assert(names.take(i as int) =~= names);
    let most: Ghost<int> = Ghost(10 * lay.px(7) + lay.px(20) + lay.px(8) * 2 + lay.px(4));
    assert(names.len() * most@ <= 5 * most@) by (nonlinear_arith)
        requires
            names.len() <= 5,
            most@ >= 0,
    ;
    lay.track_right as i64 - total + if i > 0 {
        gap
    } else {
        0
    }
}

fn put_badges(out: &mut Vec<DrawOp>, lay: &Lay, y: i32, hotkey: u64)
    requires
        lay.wf(),
        0 <= y <= lay.oh - lay.px(20),
    ensures
        drawn(final(out)@) == drawn(old(out)@) + badge_ops(
            *lay,
            badges_left(*lay, part_names(hotkey)),
            y as int,
            part_names(hotkey),
        ),
{
    let parts = hotkey_parts(hotkey);
    let ghost names = part_names(hotkey);
    proof {
        lemma_px(lay.dpi as int);
        law_names_are_short(hotkey);
        assert(names.len() == parts@.len());
    }
    let left: i64 = left_of_badges(lay, &parts);
    let gap: i64 = lay.s(4) as i64;
    let h: i32 = lay.s(20);
    let r: i32 = lay.s(3);
    let mut x: i64 = left;
    let mut i: usize = 0;
    assert(drawn(out@) =~= drawn(old(out)@) + badge_ops(
        *lay,
        left as int,
        y as int,
        names.take(0),
    ));
    while i < parts.len()
        invariant
            0 <= i <= parts@.len() <= 5,
            names == texts(parts@),
            forall|i: int| 0 <= i < parts@.len() ==> (#[trigger] names[i]).len() <= 10,
            lay.wf(),
            gap == lay.px(4),
            h == lay.px(20),
            r == lay.px(3),
            0 <= gap <= i32::MAX,
            0 <= h,
            0 <= y <= y + h <= i32::MAX,
            i32::MIN <= left,
            left == badges_left(*lay, names),
            x == left + badges_width(*lay, names.take(i as int)),
            x <= i32::MAX + gap,
            drawn(out@) == drawn(old(out)@) + badge_ops(
                *lay,
                left as int,
                y as int,
                names.take(i as int),
            ),
        decreases parts@.len() - i,
    {
        proof {
            lemma_badges_grow(*lay, names, i as int);
            assert(names.take(i + 1).drop_last() =~= names.take(i as int));
        }
        let ghost before = drawn(out@);
        assert(names[i as int] == parts@[i as int]@);
        let name = parts[i].as_str();
        let w: i64 = width_of_badge(lay, name);
        put(out, Shape::Frame { x: x as i32, y, w: w as i32, h, r, color: C_CLOSE_BG });
        put_text(
            out,
            Shape::Text {
                left: x as i32,
                top: y,
                right: (x + w) as i32,
                bottom: y + h,
                font: Font::Hint,
                color: C_WHITE,
                flags: IN_MIDDLE,
            },
            name,
        );
        assert(drawn(out@) =~= drawn(old(out)@) + badge_ops(
            *lay,
            left as int,
            y as int,
            names.take(i + 1),
        ));
        x = x + w + gap;
        i = i + 1;
    }
    assert(names.take(i as int) =~= names);
}

fn put_hotkey(out: &mut Vec<DrawOp>, s: &State, look: &Look)
    requires
        s@.wf(),
    ensures
        drawn(final(out)@) == drawn(old(out)@) + hotkey_ops(s@, *look),
{
    let lay = &s.lay;
    proof {
        reveal(hotkey_ops);
        lemma_card(*lay, 3);
    }
    let y: i32 = lay.main_card_y(3);
    let color: u32 = if s.capturing_hotkey {
        look.accent
    } else {
        C_WHITE
    };
    put_card(out, lay, y, lay.tog_h, lay.ow / 2, "hotkey", color);
    if s.capturing_hotkey {
        put_text(
            out,
            Shape::Text {
                left: lay.content_x,
                top: y,
                right: lay.track_right,
                bottom: y + lay.tog_h,
                font: Font::Hint,
                color: C_GREY,
                flags: AT_RIGHT,
            },
            "press a key\u{2026}",
        );
    } else {
        put_badges(out, lay, y + (lay.tog_h - lay.s(20)) / 2, look.hotkey);
    }
    assert(drawn(out@) =~= drawn(old(out)@) + hotkey_ops(s@, *look));
}

/// The size of a monitor in words.
fn size_text(monitors: &Vec<MonitorInfo>, i: u32) -> (words: String)
    ensures
        words@ == size_words(monitors@, i),
{
    let m: MonitorInfo = if (i as u64) < monitors.len() as u64 {
        monitors[i as usize]
    } else {
        MonitorInfo { w: 0, h: 0 }
    };
    let mut words = String::new();
    push_decimal(&mut words, m.w as u64);
    words.push_str(" \u{00D7} ");
    push_decimal(&mut words, m.h as u64);
    assert(words@ =~= size_words(monitors@, i));
    words
}

/// Which monitor is captured, in words.
fn choice_text(monitors: &Vec<MonitorInfo>, i: u32) -> (words: String)
    ensures
        words@ == choice_words(monitors@, i),
{
    let n: usize = monitors.len();
    let mut words = String::new();
    if n > 1 {
        words.push_str("\u{25C0}  ");
        push_decimal(&mut words, i as u64 + 1);
        words.push_str(" of ");
        push_decimal(&mut words, n as u64);
        words.push_str("  \u{25B6}");
    } else {
        words.push_str("only display");
    }
    assert(words@ =~= choice_words(monitors@, i));
    words
}

fn put_display(out: &mut Vec<DrawOp>, s: &State, look: &Look)
    requires
        s@.wf(),
    ensures
        drawn(final(out)@) == drawn(old(out)@) + display_ops(s@, *look),
{
    let lay = &s.lay;
    proof {
        reveal(display_ops);
        lemma_card(*lay, 0);
        lemma_px(lay.dpi as int);
    }
    let y: i32 = lay.adv_card_y(0);
    put_card(out, lay, y, lay.card_h, lay.ow / 2, "display", C_WHITE);
    let size = size_text(&s.monitors, look.monitor);
    put_text(
        out,
        Shape::Text {
            left: lay.content_x,
            top: y + lay.s(11),
            right: lay.track_right,
            bottom: y + lay.s(29),
            font: Font::Value,
            color: look.accent,
            flags: AT_RIGHT,
        },
        size.as_str(),
    );
    let choice = choice_text(&s.monitors, look.monitor);
    let line: i32 = y + lay.track_offset;
    put_text(
        out,
        Shape::Text {
            left: lay.content_x,
            top: line - lay.s(8),
            right: lay.track_right,
            bottom: line + lay.s(8),
            font: Font::Hint,
            color: C_GREY,
            flags: IN_MIDDLE,
        },
        choice.as_str(),
    );
    assert(drawn(out@) =~= drawn(old(out)@) + display_ops(s@, *look));
}

fn put_color(out: &mut Vec<DrawOp>, s: &State, look: &Look)
    requires
        s@.wf(),
        countable(s@.lay, *look),
    ensures
        drawn(final(out)@) == drawn(old(out)@) + color_ops(s@, *look),
{
    let lay = &s.lay;
    proof {
        reveal(color_ops);
        lemma_px(lay.dpi as int);
    }
    put_card(out, lay, lay.adv_card_y(1), lay.color_h, lay.ow / 2, "accent_color", C_WHITE);
    let track: i32 = lay.col_track_y();
    let x: i32 = look.thumbs.hue;
    put(
        out,
        Shape::Hues {
            x: lay.content_x,
            y: track,
            w: lay.track_right - lay.content_x,
            h: lay.track_h,
        },
    );
    let r: i32 = lay.s(6);
    put_dot(out, x - r, track - r, r * 2, look.accent);
    put_dot(out, x - lay.s(3), track - lay.s(3), lay.s(5), C_WHITE);
    assert(drawn(out@) =~= drawn(old(out)@) + color_ops(s@, *look));
}

fn put_image(out: &mut Vec<DrawOp>, s: &State, look: &Look, file: &str)
    requires
        s@.wf(),
    ensures
        drawn(final(out)@) == drawn(old(out)@) + image_ops(s@, *look, file@),
{
    let lay = &s.lay;
    proof {
        reveal(image_ops);
        lemma_px(lay.dpi as int);
    }
    let y: i32 = lay.adv_card_y(2);
    put_card(out, lay, y, lay.tog_h, lay.ow / 2, "background", C_WHITE);
    if s.has_image {
        let size: i32 = lay.close_sz;
        let x: i32 = lay.ow - lay.pad - size;
        put_text(
            out,
            Shape::Text {
                left: lay.content_x,
                top: y,
                right: x - lay.s(6),
                bottom: y + lay.tog_h,
                font: Font::Hint,
                color: look.accent,
                flags: AT_RIGHT + DT_END_ELLIPSIS,
            },
            file,
        );
        let cross_y: i32 = y + (lay.tog_h - size) / 2;
        put(
            out,
            Shape::Frame { x, y: cross_y, w: size, h: size, r: lay.s(4), color: C_CLOSE_BG },
        );
        put_text(
            out,
            Shape::Text {
                left: x,
                top: cross_y,
                right: x + size,
                bottom: cross_y + size,
                font: Font::Hint,
                color: C_GREY,
                flags: IN_MIDDLE,
            },
            "\u{00D7}",
        );
    } else {
        put_text(
            out,
            Shape::Text {
                left: lay.content_x,
                top: y,
                right: lay.track_right,
                bottom: y + lay.tog_h,
                font: Font::Hint,
                color: C_GREY,
                flags: AT_RIGHT,
            },
            "click to browse\u{2026}",
        );
    }
    assert(drawn(out@) =~= drawn(old(out)@) + image_ops(s@, *look, file@));
}

proof fn lemma_regrouped(
    a: Seq<(Shape, Seq<char>)>,
    b: Seq<(Shape, Seq<char>)>,
    c: Seq<(Shape, Seq<char>)>,
)
    ensures
        (a + b) + c == a + (b + c),
{
    assert((a + b) + c =~= a + (b + c));
}

fn put_settings_tab(out: &mut Vec<DrawOp>, s: &State, look: &Look, dir: &str)
    requires
        s@.wf(),
        countable(s@.lay, *look),
    ensures
        drawn(final(out)@) == drawn(old(out)@) + (slider_ops(s@, *look, 0) + slider_ops(s@, *look, 1)
            + slider_ops(s@, *look, 2) + hotkey_ops(s@, *look) + dir_ops(s@, dir@) + startup_ops(
            s@,
            *look,
        )),
{
    put_slider(out, s, look, 0);
    put_slider(out, s, look, 1);
    put_slider(out, s, look, 2);
    put_hotkey(out, s, look);
    put_dir(out, s, dir);
    put_startup(out, s, look);
    proof {
        let start = drawn(old(out)@);
        let a = slider_ops(s@, *look, 0);
        let b = slider_ops(s@, *look, 1);
        let c = slider_ops(s@, *look, 2);
        let d = hotkey_ops(s@, *look);
        let e = dir_ops(s@, dir@);
        let f = startup_ops(s@, *look);
        lemma_regrouped(start, a, b);
        lemma_regrouped(start, a + b, c);
        lemma_regrouped(start, a + b + c, d);
        lemma_regrouped(start, a + b + c + d, e);
        lemma_regrouped(start, a + b + c + d + e, f);
    }
}

fn put_advanced_tab(out: &mut Vec<DrawOp>, s: &State, look: &Look, file: &str)
    requires
        s@.wf(),
        countable(s@.lay, *look),
    ensures
        drawn(final(out)@) == drawn(old(out)@) + (display_ops(s@, *look) + color_ops(s@, *look)
            + image_ops(s@, *look, file@)),
{
    put_display(out, s, look);
    put_color(out, s, look);
    put_image(out, s, look, file);
    proof {
        let start = drawn(old(out)@);
        let a = display_ops(s@, *look);
        let b = color_ops(s@, *look);
        let c = image_ops(s@, *look, file@);
        lemma_regrouped(start, a, b);
        lemma_regrouped(start, a + b, c);
    }
}

/// All there is to draw, one over the other. `dir` is the directory of the clips, and `file` the
/// name of the background image.
pub fn paint(s: &State, look: &Look, dir: &str, file: &str) -> (list: Vec<DrawOp>)
    requires
        s@.wf(),
        countable(s@.lay, *look),
    ensures
        drawn(list@) == panel_ops(s@, *look, dir@, file@),
{
    let mut out: Vec<DrawOp> = Vec::new();
    let ghost empty = drawn(out@);
    put_ground(&mut out, s);
    put_header(&mut out, s, look);
    if s.active_tab == 0 {
        put_settings_tab(&mut out, s, look, dir);
    } else {
        put_advanced_tab(&mut out, s, look, file);
    }
    put_footer(&mut out, s, look);
    proof {
        assert(empty + ground_ops(s@) =~= ground_ops(s@));
    }
    out
}

/// The directory of the clips as the panel shows it, below the user's own directory where it is
/// known.
pub fn dir_text(profile: Option<&str>) -> (s: String)
    ensures
        s@ == dir_words(
            match profile {
                Some(p) => Some(p@),
                None => None,
            },
        ),
{
    let mut s = String::new();
    match profile {
        Some(p) => {
            s.push_str(p);
        },
        None => {
            s.push_str("C:\\Users\\user");
        },
    }
    s.push_str("\\Videos\\Glimpse");
    assert(s@ =~= dir_words(
        match profile {
            Some(p) => Some(p@),
            None => None,
        },
    ));
    s
}

/// The height of letters of so many points, in pixels.
pub fn font_height(points: i32, dpi: u32) -> (px: i32)
    requires
        0 <= points,
        points * dpi <= i32::MAX,
    ensures
        px == points * dpi / 72,
        px == height_of(points as int, dpi as int),
{
    (points as i64 * dpi as i64 / 72) as i32
}

/// How large an image's pixels are, four bytes each: a row's and all of them. None where the
/// image has none.
pub fn image_size(w: u32, h: u32) -> (r: Option<(u32, u32)>)
    requires
        w > 0 && h > 0 ==> 4 * w * h <= u32::MAX,
    ensures
        r == if w == 0 || h == 0 {
            None
        } else {
            Some(((4 * w) as u32, (4 * w * h) as u32))
        },
        r == bytes_of_image(w, h),
{
    if w == 0 || h == 0 {
        None
    } else {
        assert(4 * w <= 4 * w * h) by (nonlinear_arith)
            requires
                w > 0,
                h > 0,
        ;
        let stride: u32 = 4 * w;
        Some((stride, stride * h))
    }
}

/// The red, green and blue of a colour, each on a scale to 65,280.
pub fn wide_channels(c: u32) -> (r: (u16, u16, u16))
    ensures
        r.0 == c % 0x100 * 0x100,
        r.1 == c / 0x100 % 0x100 * 0x100,
        r.2 == c / 0x10000 % 0x100 * 0x100,
        (r.0 as int, r.1 as int, r.2 as int) == channels_of(c as int),
{
    (
        (c % 0x100 * 0x100) as u16,
        (c / 0x100 % 0x100 * 0x100) as u16,
        (c / 0x10000 % 0x100 * 0x100) as u16,
    )
}

/// Whether a point is on a shape's rectangle, its edges included.
pub open spec fn covers(shape: Shape, mx: int, my: int) -> bool {
    match shape {
        Shape::Dot { x, y, w, h, .. } => along(mx, x as int, w as int) && along(
            my,
            y as int,
            h as int,
        ),
        Shape::Pill { x, y, w, h, .. } => along(mx, x as int, w as int) && along(
            my,
            y as int,
            h as int,
        ),
        Shape::Frame { x, y, w, h, .. } => along(mx, x as int, w as int) && along(
            my,
            y as int,
            h as int,
        ),
        Shape::Card { x, y, w, h, .. } => along(mx, x as int, w as int) && along(
            my,
            y as int,
            h as int,
        ),
        Shape::Text { left, top, right, bottom, .. } => left <= mx <= right && top <= my <= bottom,
        _ => false,
    }
}

proof fn lemma_close_is_drawn(p: Panel, look: Look, mx: int, my: int)
    requires
        p.wf(),
    ensures
        p.on_close(mx, my) <==> covers(header_ops(p, look)[0].0, mx, my),
{
    reveal(header_ops);
    lemma_px(p.lay.dpi as int);
    assert(header_ops(p, look)[0] == light_ops(p.lay)[0]);
}

proof fn lemma_tabs_are_drawn(p: Panel, look: Look, mx: int, my: int)
    requires
        p.wf(),
    ensures
        p.on_tab(0, mx, my) <==> covers(header_ops(p, look)[3].0, mx, my),
        p.on_tab(1, mx, my) <==> covers(header_ops(p, look)[4].0, mx, my),
{
    reveal(header_ops);
    assert(header_ops(p, look)[3] == tab_op(p, 0, p.lay.tabs_x().0, "settings"@));
    assert(header_ops(p, look)[4] == tab_op(p, 1, p.lay.tabs_x().1, "advanced"@));
    lemma_px(p.lay.dpi as int);
}

proof fn lemma_save_is_drawn(p: Panel, look: Look, mx: int, my: int)
    requires
        p.wf(),
    ensures
        p.on_save(mx, my) <==> covers(footer_ops(p, look)[3].0, mx, my),
{
    reveal(footer_ops);
    lemma_px(p.lay.dpi as int);
}

/// What can be clicked in the header and the footer is where it is drawn: the dot that closes the
/// panel, the two tabs and the button that saves a clip.
pub proof fn law_buttons_are_where_they_are_drawn(p: Panel, look: Look, mx: int, my: int)
    requires
        p.wf(),
    ensures
        p.on_close(mx, my) <==> covers(header_ops(p, look)[0].0, mx, my),
        p.on_tab(0, mx, my) <==> covers(header_ops(p, look)[3].0, mx, my),
        p.on_tab(1, mx, my) <==> covers(header_ops(p, look)[4].0, mx, my),
        p.on_save(mx, my) <==> covers(footer_ops(p, look)[3].0, mx, my),
{
    lemma_close_is_drawn(p, look, mx, my);
    lemma_tabs_are_drawn(p, look, mx, my);
    lemma_save_is_drawn(p, look, mx, my);
}

/// A card is where it is drawn.
proof fn lemma_card_is_drawn(
    p: Panel,
    y: int,
    h: int,
    right: int,
    label: Seq<char>,
    color: u32,
    mx: int,
    my: int,
)
    requires
        p.wf(),
        0 <= y <= i32::MAX,
        0 <= h <= i32::MAX,
    ensures
        p.on_card(y, h, mx, my) <==> covers(
            card_ops(p.lay, y, h, right, label, color)[0].0,
            mx,
            my,
        ),
{
    lemma_px(p.lay.dpi as int);
}

proof fn lemma_switch_is_drawn(p: Panel, accent: u32, mx: int, my: int)
    requires
        p.wf(),
    ensures
        p.on_switch(mx, my) <==> covers(
            switch_ops(
                p.lay,
                p.lay.ow - p.lay.pad - p.lay.px(10) - p.lay.px(52),
                p.lay.main_y(5) + (p.lay.tog_h - p.lay.px(30)) / 2,
                p.tog_anim as int,
                accent,
            )[0].0,
            mx,
            my,
        ),
{
    lemma_px(p.lay.dpi as int);
}

proof fn lemma_sections_begin_with_cards(p: Panel, look: Look, file: Seq<char>)
    ensures
        hotkey_ops(p, look)[0] == card_ops(
            p.lay,
            p.lay.main_y(3),
            p.lay.tog_h as int,
            p.lay.ow / 2,
            "hotkey"@,
            if p.capturing_hotkey {
                look.accent
            } else {
                C_WHITE
            },
        )[0],
        display_ops(p, look)[0] == card_ops(
            p.lay,
            p.lay.adv_y(0),
            p.lay.card_h as int,
            p.lay.ow / 2,
            "display"@,
            C_WHITE,
        )[0],
        image_ops(p, look, file)[0] == card_ops(
            p.lay,
            p.lay.adv_y(2),
            p.lay.tog_h as int,
            p.lay.ow / 2,
            "background"@,
            C_WHITE,
        )[0],
        startup_ops(p, look)[2] == switch_ops(
            p.lay,
            p.lay.ow - p.lay.pad - p.lay.px(10) - p.lay.px(52),
            p.lay.main_y(5) + (p.lay.tog_h - p.lay.px(30)) / 2,
            p.tog_anim as int,
            look.accent,
        )[0],
{
    reveal(hotkey_ops);
    reveal(display_ops);
    reveal(image_ops);
    reveal(startup_ops);
}

/// The cards that can be clicked, and the switch, are where they are drawn.
pub proof fn law_cards_are_where_they_are_drawn(
    p: Panel,
    look: Look,
    file: Seq<char>,
    mx: int,
    my: int,
)
    requires
        p.wf(),
    ensures
        p.on_card(p.lay.main_y(3), p.lay.tog_h as int, mx, my) <==> covers(
            hotkey_ops(p, look)[0].0,
            mx,
            my,
        ),
        p.on_switch(mx, my) <==> covers(startup_ops(p, look)[2].0, mx, my),
        p.on_card(p.lay.adv_y(0), p.lay.card_h as int, mx, my) <==> covers(
            display_ops(p, look)[0].0,
            mx,
            my,
        ),
        p.on_card(p.lay.adv_y(2), p.lay.tog_h as int, mx, my) <==> covers(
            image_ops(p, look, file)[0].0,
            mx,
            my,
        ),
{
    let lay = p.lay;
    let color = if p.capturing_hotkey {
        look.accent
    } else {
        C_WHITE
    };
    lemma_px(lay.dpi as int);
    lemma_card(lay, 0);
    lemma_card(lay, 2);
    lemma_card(lay, 3);
    let right = lay.ow / 2;
    lemma_card_is_drawn(p, lay.main_y(3), lay.tog_h as int, right, "hotkey"@, color, mx, my);
    lemma_card_is_drawn(p, lay.adv_y(0), lay.card_h as int, right, "display"@, C_WHITE, mx, my);
    lemma_card_is_drawn(p, lay.adv_y(2), lay.tog_h as int, right, "background"@, C_WHITE, mx, my);
    lemma_switch_is_drawn(p, look.accent, mx, my);
    lemma_sections_begin_with_cards(p, look, file);
}

/// The panel shows the directory that clips are written to. Where the user's own directory has
/// no name, or one that ends with a separator, the two are written in different ways.
pub proof fn law_panel_shows_where_clips_go(profile: Seq<char>, temp: Seq<char>)
    requires
        profile.len() > 0,
        !is_separator(profile.last()),
    ensures
        dir_words(Some(profile)) == clips_path(Some(profile), temp),
{
    law_clips_go_below_the_profile(profile, temp);
}

/// Each slider shows its own name, and its own value with its unit in the accent colour.
pub proof fn law_sliders_show_their_values(p: Panel, look: Look, i: int)
    requires
        0 <= i < 3,
    ensures
        ({
            let ops = slider_ops(p, look, i);
            &&& ops.len() == 7
            &&& ops[1].1 == if i == 0 {
                "clip_length"@
            } else if i == 1 {
                "frame_rate"@
            } else {
                "bitrate"@
            }
            &&& ops[2].1 == decimal(p.val[i] as nat) + (if i == 0 {
                "s"@
            } else if i == 1 {
                "fps"@
            } else {
                "Mbps"@
            })
            &&& ops[2].0 matches Shape::Text { color, .. } && color == look.accent
        }),
{
    reveal(slider_ops);
}

/// A track is filled from where it begins up to its thumb, or not at all where the thumb is to the
/// left of that, and goes over into the accent colour; the thumb is a dot around its place, and so
/// is its glow.
pub proof fn law_tracks_are_filled_up_to_the_thumb(lay: Lay, look: Look, track: int, thumb: int)
    requires
        lay.wf(),
        0 <= track <= lay.oh,
        i32::MIN <= thumb - lay.px(11),
        thumb <= i32::MAX,
    ensures
        ({
            let ops = track_ops(lay, look, track, thumb);
            &&& ops.len() == 4
            &&& ops[0].0 matches Shape::Fill { x, w, y, .. } && x == lay.content_x && x + w
                == lay.track_right && y == track
            &&& ops[1].0 matches Shape::Gradient { x, w, from, to, .. } && {
                &&& x == lay.content_x
                &&& thumb >= lay.content_x ==> x + w == thumb
                &&& thumb < lay.content_x ==> w == 0
                &&& from == look.accent_dim
                &&& to == look.accent
            }
            &&& ops[2].0 matches Shape::Glow { x, y, w, h, color, .. } && {
                &&& 2 * x + w == 2 * thumb
                &&& 2 * y + h == 2 * track
                &&& color == look.accent
            }
            &&& ops[3].0 matches Shape::Dot { x, y, w, h, color } && {
                &&& 2 * x + w == 2 * thumb
                &&& 2 * y + h == 2 * track
                &&& color == look.accent
            }
        }),
{
    lemma_px(lay.dpi as int);
}

/// Each slider has its own track, at its own height, with the thumb where its value puts it.
pub proof fn law_sliders_have_their_thumbs(p: Panel, look: Look, i: int)
    requires
        0 <= i < 3,
    ensures
        slider_ops(p, look, i).skip(3) == track_ops(
            p.lay,
            look,
            p.lay.main_y(i) + p.lay.px(38),
            if i == 0 {
                look.thumbs.clip_secs as int
            } else if i == 1 {
                look.thumbs.fps as int
            } else {
                look.thumbs.bitrate_mbps as int
            },
        ),
{
    reveal(slider_ops);
    let track = p.lay.main_y(i) + p.lay.px(38);
    assert(slider_ops(p, look, i).skip(3) =~= track_ops(
        p.lay,
        look,
        track,
        thumb_of(look.thumbs, i) as int,
    ));
}

/// A switch has its knob at the left end while it is off and at the right end once it is on, with
/// the same margin, and in between in proportion; it has the accent colour from beyond the middle
/// on.
pub proof fn law_switch_shows_where_it_stands(
    lay: Lay,
    left: int,
    top: int,
    moved: int,
    accent: u32,
)
    requires
        lay.wf(),
        0 <= left <= lay.ow - lay.px(52),
        0 <= moved <= 8,
    ensures
        ({
            let ops = switch_ops(lay, left, top, moved, accent);
            let margin = lay.px(10) / 2;
            let knob = lay.px(30) - lay.px(10);
            let way = lay.px(52) - 2 * margin - knob;
            &&& ops.len() == 2
            &&& ops[0].0 matches Shape::Pill { x, w, color, .. } && {
                &&& x == left
                &&& w == lay.px(52)
                &&& moved >= 5 ==> color == accent
                &&& moved <= 4 ==> color == 0x3C3C3C
            }
            &&& ops[1].0 matches Shape::Dot { x, w, .. } && {
                &&& w == knob
                &&& moved == 0 ==> x == left + margin
                &&& moved == 8 ==> x + w == left + lay.px(52) - margin
                &&& 8 * (x - left - margin) <= moved * way < 8 * (x - left - margin) + 8
            }
        }),
{
    let margin = lay.px(10) / 2;
    let knob = lay.px(30) - lay.px(10);
    let way = lay.px(52) - 2 * margin - knob;
    assert(0 <= way && 0 <= knob && 0 <= margin && 0 <= lay.px(52) && lay.ow <= i32::MAX) by {
        lemma_px(lay.dpi as int);
    }
    assert(0 <= moved * way <= 8 * way) by (nonlinear_arith)
        requires
            0 <= moved <= 8,
            0 <= way,
    ;
    assert(moved == 0 ==> moved * way == 0) by (nonlinear_arith);
    assert(moved == 8 ==> moved * way == 8 * way) by (nonlinear_arith);
}

/// The last card has the switch at its right end, halfway down, moved as far as the panel says.
pub proof fn law_switch_is_on_its_card(p: Panel, look: Look)
    requires
        p.wf(),
    ensures
        startup_ops(p, look).len() == 4,
        startup_ops(p, look)[1].1 == "start_with_windows"@,
        startup_ops(p, look).skip(2) == switch_ops(
            p.lay,
            p.lay.track_right - p.lay.px(52),
            p.lay.main_y(5) + (p.lay.tog_h - p.lay.px(30)) / 2,
            p.tog_anim as int,
            look.accent,
        ),
{
    reveal(startup_ops);
    let x = p.lay.ow - p.lay.pad - p.lay.px(10) - p.lay.px(52);
    assert(x == p.lay.track_right - p.lay.px(52)) by {
        lemma_px(p.lay.dpi as int);
    }
    let y = p.lay.main_y(5) + (p.lay.tog_h - p.lay.px(30)) / 2;
    assert(startup_ops(p, look).skip(2) =~= switch_ops(
        p.lay,
        x,
        y,
        p.tog_anim as int,
        look.accent,
    ));
}

/// The display's card shows the width and the height of the monitor that is captured, and its
/// number, counted from one, of how many there are.
pub proof fn law_display_shows_the_monitor(p: Panel, look: Look)
    ensures
        ({
            let ops = display_ops(p, look);
            &&& ops.len() == 4
            &&& ops[1].1 == "display"@
            &&& look.monitor < p.monitors.len() ==> ops[2].1 == decimal(
                p.monitors[look.monitor as int].w as nat,
            ) + " \u{00D7} "@ + decimal(p.monitors[look.monitor as int].h as nat)
            &&& look.monitor >= p.monitors.len() ==> ops[2].1 == decimal(0) + " \u{00D7} "@
                + decimal(0)
            &&& p.monitors.len() > 1 ==> ops[3].1 == "\u{25C0}  "@ + decimal(
                (look.monitor + 1) as nat,
            ) + " of "@ + decimal(p.monitors.len()) + "  \u{25B6}"@
            &&& p.monitors.len() <= 1 ==> ops[3].1 == "only display"@
        }),
{
    reveal(display_ops);
}

/// The colour's card shows its thumb around the place of the hue, on the track of all hues.
pub proof fn law_colour_track_shows_the_hue(p: Panel, look: Look)
    requires
        p.wf(),
        countable(p.lay, look),
    ensures
        ({
            let ops = color_ops(p, look);
            &&& ops.len() == 5
            &&& ops[1].1 == "accent_color"@
            &&& ops[2].0 matches Shape::Hues { x, w, .. } && x == p.lay.content_x && x + w
                == p.lay.track_right
            &&& ops[3].0 matches Shape::Dot { x, y, w, h, color } && {
                &&& 2 * x + w == 2 * look.thumbs.hue
                &&& 2 * y + h == 2 * (p.lay.adv_y(1) + p.lay.col_track_offset)
                &&& color == look.accent
            }
        }),
{
    reveal(color_ops);
    lemma_px(p.lay.dpi as int);
}

/// The background's card shows the file's name where there is an image, with a cross at the right
/// end to take it away, and what to do where there is none; the image itself is on the ground in
/// the first case only.
pub proof fn law_background_shows_the_image(p: Panel, look: Look, file: Seq<char>)
    requires
        p.wf(),
    ensures
        ({
            let ops = image_ops(p, look, file);
            let ground = ground_ops(p);
            &&& ops[1].1 == "background"@
            &&& p.has_image ==> {
                &&& ops.len() == 5
                &&& ops[2].1 == file
                &&& ops[3].0 matches Shape::Frame { x, w, .. } && x + w == p.lay.ow - p.lay.pad && w
                    == p.lay.close_sz
                &&& ops[4].1 == "\u{00D7}"@
                &&& ground.len() == 5
                &&& ground[3].0 matches Shape::Image { w, h, .. } && w == p.lay.ow && h == p.lay.oh
            }
            &&& !p.has_image ==> {
                &&& ops.len() == 3
                &&& ops[2].1 == "click to browse\u{2026}"@
                &&& ground.len() == 4
            }
            &&& ground[1].0 matches Shape::Clip { w, h, diameter } && w == p.lay.ow && h == p.lay.oh
                && diameter == 2 * p.lay.corner
        }),
{
    reveal(image_ops);
    reveal(ground_ops);
    lemma_px(p.lay.dpi as int);
}

/// The directory's card shows the directory, and the header the two tabs, of which the one that is
/// shown is the lighter.
pub proof fn law_header_shows_the_tab(p: Panel, look: Look, dir: Seq<char>)
    ensures
        dir_ops(p, dir).len() == 4,
        dir_ops(p, dir)[1].1 == "output_dir"@,
        dir_ops(p, dir)[3].1 == dir,
        header_ops(p, look).len() == 7,
        header_ops(p, look)[3].1 == "settings"@,
        header_ops(p, look)[4].1 == "advanced"@,
        header_ops(p, look)[3].0 matches Shape::Text { color, .. } && color == if p.active_tab == 0 {
            C_WHITE
        } else {
            C_GREY
        },
        header_ops(p, look)[4].0 matches Shape::Text { color, .. } && color == if p.active_tab == 1 {
            C_WHITE
        } else {
            C_GREY
        },
        header_ops(p, look)[5].0 matches Shape::Fill { color, .. } && color == look.accent,
{
    reveal(dir_ops);
    reveal(header_ops);
}

/// The line under the tabs is below the first one, in its middle, as long as it has not moved, and
/// moves as far as it is told to.
pub proof fn law_line_under_the_tabs_moves(p: Panel, look: Look)
    requires
        p.wf(),
        countable(p.lay, look),
    ensures
        header_ops(p, look)[5].0 matches Shape::Fill { x, y, w, h, .. } && {
            &&& x - look.underline == p.lay.tabs_x().0 + p.lay.px(6)
            &&& w == p.lay.tab_btn_w - p.lay.px(12)
            &&& y + h == p.lay.tab_btn_y + p.lay.tab_btn_h
        },
{
    reveal(header_ops);
    lemma_px(p.lay.dpi as int);
}

/// A row of badges has one for each key, with the key's name in it, from left to right: each
/// begins behind all that come before it.
pub proof fn law_each_key_has_its_badge(lay: Lay, x: int, y: int, names: Seq<Seq<char>>, k: int)
    requires
        0 <= k < names.len(),
    ensures
        ({
            let ops = badge_ops(lay, x, y, names);
            let left = (x + badges_width(lay, names.take(k))) as i32;
            &&& ops.len() == 2 * names.len()
            &&& ops[2 * k].0 matches Shape::Frame { x, w, .. } && x == left && w == badge_width(
                lay,
                names[k],
            ) as i32
            &&& ops[2 * k + 1].0 matches Shape::Text { left: l, .. } && l == left
            &&& ops[2 * k + 1].1 == names[k]
        }),
    decreases names.len(),
{
    let front = names.drop_last();
    assert(badge_ops(lay, x, y, front).len() == 2 * front.len()) by {
        lemma_two_for_each_key(lay, x, y, front);
    }
    if k < front.len() {
        law_each_key_has_its_badge(lay, x, y, front, k);
        assert(front.take(k) =~= names.take(k));
    } else {
        assert(names.take(k) =~= front);
    }
}

proof fn lemma_two_for_each_key(lay: Lay, x: int, y: int, names: Seq<Seq<char>>)
    ensures
        badge_ops(lay, x, y, names).len() == 2 * names.len(),
    decreases names.len(),
{
    if names.len() > 0 {
        lemma_two_for_each_key(lay, x, y, names.drop_last());
    }
}

/// A badge has room for its name, seven pixels of the design for each letter but no less than
/// twenty, and eight on either side; four lie between two badges, and the last one ends where the
/// tracks do.
pub proof fn law_badges_have_room(lay: Lay, names: Seq<Seq<char>>, name: Seq<char>)
    ensures
        badge_width(lay, name) - 2 * lay.px(8) >= lay.px(20),
        badge_width(lay, name) - 2 * lay.px(8) >= name.len() * lay.px(7),
        badge_width(lay, name) - 2 * lay.px(8) == lay.px(20) || badge_width(lay, name) - 2 * lay.px(
            8,
        ) == name.len() * lay.px(7),
        badges_width(lay, Seq::empty()) == 0,
        badges_width(lay, names.push(name)) == badges_width(lay, names) + badge_width(lay, name)
            + lay.px(4),
        badges_left(lay, names.push(name)) + badges_width(lay, names) + badge_width(lay, name)
            == lay.track_right,
{
    assert(names.push(name).drop_last() =~= names);
}

/// The hotkey's card shows the keys of the hotkey, one badge each, with the last at the right end;
/// while one is picked it says what to do instead.
pub proof fn law_hotkey_is_shown(p: Panel, look: Look, k: int)
    ensures
        ({
            let ops = hotkey_ops(p, look);
            let names = part_names(look.hotkey);
            &&& ops[1].1 == "hotkey"@
            &&& p.capturing_hotkey ==> ops.len() == 3 && ops[2].1 == "press a key\u{2026}"@
            &&& !p.capturing_hotkey ==> ops.len() == 2 + 2 * names.len()
            &&& !p.capturing_hotkey && 0 <= k < names.len() ==> {
                &&& ops[3 + 2 * k].1 == names[k]
                &&& ops[2 + 2 * k].0 matches Shape::Frame { x, .. } && x == (badges_left(
                    p.lay,
                    names,
                ) + badges_width(p.lay, names.take(k))) as i32
            }
            &&& ops[1].0 matches Shape::Text { color, .. } && color == if p.capturing_hotkey {
                look.accent
            } else {
                C_WHITE
            }
        }),
{
    reveal(hotkey_ops);
    let lay = p.lay;
    let names = part_names(look.hotkey);
    let x = badges_left(lay, names);
    let y = lay.main_y(3) + (lay.tog_h - lay.px(20)) / 2;
    lemma_two_for_each_key(lay, x, y, names);
    if 0 <= k < names.len() {
        law_each_key_has_its_badge(lay, x, y, names, k);
    }
}

/// The footer tells that the program is running, and its button says what it does, in the colour
/// of the ground on the accent colour.
pub proof fn law_footer_says_what_it_does(p: Panel, look: Look)
    ensures
        footer_ops(p, look).len() == 5,
        footer_ops(p, look)[2].1 == "running"@,
        footer_ops(p, look)[4].1 == "> save clip"@,
        footer_ops(p, look)[3].0 matches Shape::Frame { color, .. } && color == look.accent,
        footer_ops(p, look)[4].0 matches Shape::Text { color, .. } && color == 0x0D0D0D,
{
    reveal(footer_ops);
}

/// The panel is drawn from the ground up: the header lies on the ground, then comes the tab that
/// is shown and no other, and the footer last.
pub proof fn law_only_the_tab_shown_is_drawn(
    p: Panel,
    look: Look,
    dir: Seq<char>,
    file: Seq<char>,
)
    ensures
        ({
            let all = panel_ops(p, look, dir, file);
            let start = ground_ops(p).len() + header_ops(p, look).len();
            let end = all.len() - footer_ops(p, look).len();
            let tab = all.subrange(start as int, end as int);
            let second = slider_ops(p, look, 0).len() as int;
            let third = second + slider_ops(p, look, 1).len();
            let fourth = third + slider_ops(p, look, 2).len();
            let fifth = fourth + hotkey_ops(p, look).len();
            let sixth = fifth + dir_ops(p, dir).len();
            let colour = display_ops(p, look).len() as int;
            let image = colour + color_ops(p, look).len();
            &&& all.take(ground_ops(p).len() as int) == ground_ops(p)
            &&& all.subrange(ground_ops(p).len() as int, start as int) == header_ops(p, look)
            &&& all.skip(end as int) == footer_ops(p, look)
            &&& p.active_tab == 0 ==> {
                &&& tab.take(second) == slider_ops(p, look, 0)
                &&& tab.subrange(second, third) == slider_ops(p, look, 1)
                &&& tab.subrange(third, fourth) == slider_ops(p, look, 2)
                &&& tab.subrange(fourth, fifth) == hotkey_ops(p, look)
                &&& tab.subrange(fifth, sixth) == dir_ops(p, dir)
                &&& tab.skip(sixth) == startup_ops(p, look)
            }
            &&& p.active_tab != 0 ==> {
                &&& tab.take(colour) == display_ops(p, look)
                &&& tab.subrange(colour, image) == color_ops(p, look)
                &&& tab.skip(image) == image_ops(p, look, file)
            }
        }),
{
    let all = panel_ops(p, look, dir, file);
    let g = ground_ops(p).len() as int;
    let start = g + header_ops(p, look).len();
    let end = all.len() - footer_ops(p, look).len();
    let tab = tab_ops(p, look, dir, file);
    assert(all.take(g) =~= ground_ops(p));
    assert(all.subrange(g, start) =~= header_ops(p, look));
    assert(all.skip(end) =~= footer_ops(p, look));
    assert(all.subrange(start, end) =~= tab);
    if p.active_tab == 0 {
        let second = slider_ops(p, look, 0).len() as int;
        let third = second + slider_ops(p, look, 1).len();
        let fourth = third + slider_ops(p, look, 2).len();
        let fifth = fourth + hotkey_ops(p, look).len();
        let sixth = fifth + dir_ops(p, dir).len();
        assert(tab.take(second) =~= slider_ops(p, look, 0));
        assert(tab.subrange(second, third) =~= slider_ops(p, look, 1));
        assert(tab.subrange(third, fourth) =~= slider_ops(p, look, 2));
        assert(tab.subrange(fourth, fifth) =~= hotkey_ops(p, look));
        assert(tab.subrange(fifth, sixth) =~= dir_ops(p, dir));
        assert(tab.skip(sixth) =~= startup_ops(p, look));
    } else {
        let colour = display_ops(p, look).len() as int;
        let image = colour + color_ops(p, look).len();
        assert(tab.take(colour) =~= display_ops(p, look));
        assert(tab.subrange(colour, image) =~= color_ops(p, look));
        assert(tab.skip(image) =~= image_ops(p, look, file));
    }
}

/// The red, green and blue that a colour is made of come out of it again, 256 times as large.
pub proof fn law_colours_come_apart(r: u8, g: u8, b: u8)
    ensures
        channels_of(color_of(r, g, b)) == (256 * r, 256 * g, 256 * b),
{
    let (x, y, z) = (r as int, g as int, b as int);
    let upper = y + 0x100 * z;
    let c = color_of(r, g, b);
    assert(c == x + 0x100 * upper);
    assert(c % 0x100 == x && c / 0x100 == upper);
    assert(upper % 0x100 == y);
    assert(c == (x + 0x100 * y) + 0x10000 * z);
    assert(c / 0x10000 == z);
    assert(z % 0x100 == z);
}

/// Letters of 72 points are an inch high, and others in proportion, cut to whole pixels.
pub proof fn law_letters_grow_with_their_points(points: int, dpi: int)
    requires
        0 <= points,
        0 <= dpi,
    ensures
        height_of(72, dpi) == dpi,
        72 * height_of(points, dpi) <= points * dpi < 72 * height_of(points, dpi) + 72,
{
}

/// A row of an image has four bytes for each pixel of its width, and the whole as many rows as it
/// is high; an image without pixels has no size.
pub proof fn law_images_have_four_bytes_a_pixel(w: u32, h: u32)
    requires
        4 * w * h <= u32::MAX,
    ensures
        bytes_of_image(w, h) is None <==> w == 0 || h == 0,
        bytes_of_image(w, h) matches Some((stride, size)) ==> stride == 4 * w && size == stride * h,
{
    if w > 0 && h > 0 {
        assert(4 * w <= 4 * w * h) by (nonlinear_arith)
            requires
                w > 0,
                h > 0,
        ;
    }
}

/// The directory that is shown lies below the user's own, or below one that stands for it.
pub proof fn law_directory_is_shown_below_the_profile(profile: Seq<char>)
    ensures
        dir_words(Some(profile)) == profile + "\\Videos\\Glimpse"@,
        dir_words(None) == dir_words(Some("C:\\Users\\user"@)),
{
}

/// A card reaches from one side of the panel to the other but for the padding, and its name stands
/// in it as far in as the tracks begin, near the top.
pub proof fn law_cards_reach_across_the_panel(
    lay: Lay,
    y: int,
    h: int,
    right: int,
    label: Seq<char>,
    color: u32,
)
    requires
        lay.wf(),
        0 <= y <= lay.oh - lay.px(48),
        0 <= h <= i32::MAX,
        0 <= right <= lay.ow,
    ensures
        ({
            let ops = card_ops(lay, y, h, right, label, color);
            &&& ops.len() == 2
            &&& ops[0].0 matches Shape::Card { x, y: top, w, h: height, r, color, alpha } && {
                &&& x == lay.pad
                &&& x + w == lay.ow - lay.pad
                &&& top == y
                &&& height == h
                &&& r == lay.card_r
                &&& color == 0x161616
                &&& alpha == 200
            }
            &&& ops[1].0 matches Shape::Text { left, top, right: end, bottom, font, color: c, .. }
                && {
                &&& left == lay.content_x
                &&& top == y + lay.px(9)
                &&& bottom == top + lay.px(20)
                &&& end == right
                &&& font == Font::Label
                &&& c == color
            }
            &&& ops[1].1 == label
        }),
{
    lemma_px(lay.dpi as int);
}

/// The cards are drawn where the layout has them: those of the sliders, the hotkey, the directory
/// and the switch one below the other on the one tab, and those of the display, the colour and the
/// background on the other.
pub proof fn law_cards_are_drawn_in_turn(
    p: Panel,
    look: Look,
    dir: Seq<char>,
    file: Seq<char>,
    i: int,
)
    requires
        0 <= i < 3,
    ensures
        ({
            let half = p.lay.ow / 2;
            let picking = if p.capturing_hotkey {
                look.accent
            } else {
                0xACACAC
            };
            &&& slider_ops(p, look, i).take(2) == card_ops(
                p.lay,
                p.lay.main_y(i),
                p.lay.card_h as int,
                half,
                slider_words(i).0,
                0xACACAC,
            )
            &&& hotkey_ops(p, look).take(2) == card_ops(
                p.lay,
                p.lay.main_y(3),
                p.lay.tog_h as int,
                half,
                "hotkey"@,
                picking,
            )
            &&& dir_ops(p, dir).take(2) == card_ops(
                p.lay,
                p.lay.main_y(4),
                p.lay.dir_h as int,
                half,
                "output_dir"@,
                0xACACAC,
            )
            &&& startup_ops(p, look).take(2) == card_ops(
                p.lay,
                p.lay.main_y(5),
                p.lay.tog_h as int,
                p.lay.ow - p.lay.px(70),
                "start_with_windows"@,
                0xACACAC,
            )
            &&& display_ops(p, look).take(2) == card_ops(
                p.lay,
                p.lay.adv_y(0),
                p.lay.card_h as int,
                half,
                "display"@,
                0xACACAC,
            )
            &&& color_ops(p, look).take(2) == card_ops(
                p.lay,
                p.lay.adv_y(1),
                p.lay.color_h as int,
                half,
                "accent_color"@,
                0xACACAC,
            )
            &&& image_ops(p, look, file).take(2) == card_ops(
                p.lay,
                p.lay.adv_y(2),
                p.lay.tog_h as int,
                half,
                "background"@,
                0xACACAC,
            )
        }),
{
    let lay = p.lay;
    let half = lay.ow / 2;
    assert(slider_ops(p, look, i).take(2) =~= card_ops(
        lay,
        lay.main_y(i),
        lay.card_h as int,
        half,
        slider_words(i).0,
        C_WHITE,
    )) by {
        reveal(slider_ops);
    }
    let picking = if p.capturing_hotkey {
        look.accent
    } else {
        C_WHITE
    };
    assert(hotkey_ops(p, look).take(2) =~= card_ops(
        lay,
        lay.main_y(3),
        lay.tog_h as int,
        half,
        "hotkey"@,
        picking,
    )) by {
        reveal(hotkey_ops);
    }
    assert(dir_ops(p, dir).take(2) =~= card_ops(
        lay,
        lay.main_y(4),
        lay.dir_h as int,
        half,
        "output_dir"@,
        C_WHITE,
    )) by {
        reveal(dir_ops);
    }
    assert(startup_ops(p, look).take(2) =~= card_ops(
        lay,
        lay.main_y(5),
        lay.tog_h as int,
        lay.ow - lay.px(70),
        "start_with_windows"@,
        C_WHITE,
    )) by {
        reveal(startup_ops);
    }
    assert(display_ops(p, look).take(2) =~= card_ops(
        lay,
        lay.adv_y(0),
        lay.card_h as int,
        half,
        "display"@,
        C_WHITE,
    )) by {
        reveal(display_ops);
    }
    assert(color_ops(p, look).take(2) =~= card_ops(
        lay,
        lay.adv_y(1),
        lay.color_h as int,
        half,
        "accent_color"@,
        C_WHITE,
    )) by {
        reveal(color_ops);
    }
    assert(image_ops(p, look, file).take(2) =~= card_ops(
        lay,
        lay.adv_y(2),
        lay.tog_h as int,
        half,
        "background"@,
        C_WHITE,
    )) by {
        reveal(image_ops);
    }
}

/// Values stand at the right end of their cards, beside the names: between eleven and twenty-nine
/// pixels of the design below the card's upper edge, up to where the tracks end.
pub proof fn law_values_stand_beside_the_names(p: Panel, look: Look, i: int)
    requires
        0 <= i < 3,
    ensures
        slider_ops(p, look, i)[2].0 matches Shape::Text {
            left,
            top,
            right,
            bottom,
            font,
            flags,
            ..
        } && {
            &&& left == p.lay.content_x
            &&& right == (p.lay.ow - p.lay.pad - p.lay.px(10)) as i32
            &&& top == (p.lay.main_y(i) + p.lay.px(11)) as i32
            &&& bottom == (p.lay.main_y(i) + p.lay.px(29)) as i32
            &&& font == Font::Value
            &&& flags == 0x26
        },
        display_ops(p, look)[2].0 matches Shape::Text {
            left,
            top,
            right,
            bottom,
            font,
            color,
            flags,
        } && {
            &&& left == p.lay.content_x
            &&& right == p.lay.track_right
            &&& top == (p.lay.adv_y(0) + p.lay.px(11)) as i32
            &&& bottom == (p.lay.adv_y(0) + p.lay.px(29)) as i32
            &&& font == Font::Value
            &&& color == look.accent
            &&& flags == 0x26
        },
        display_ops(p, look)[3].0 matches Shape::Text {
            left,
            top,
            right,
            bottom,
            font,
            color,
            flags,
        } && {
            &&& left == p.lay.content_x
            &&& right == p.lay.track_right
            &&& top == (p.lay.adv_y(0) + p.lay.px(38) - p.lay.px(8)) as i32
            &&& bottom == (p.lay.adv_y(0) + p.lay.px(38) + p.lay.px(8)) as i32
            &&& font == Font::Hint
            &&& color == 0x585858
            &&& flags == 0x25
        },
{
    reveal(slider_ops);
    reveal(display_ops);
}

/// The directory stands in a frame of its own below the name of its card, with room on both sides.
pub proof fn law_directory_has_its_frame(p: Panel, dir: Seq<char>)
    ensures
        dir_ops(p, dir)[2].0 matches Shape::Frame { x, y, w, h, r, color } && {
            &&& x == (p.lay.pad + p.lay.px(10)) as i32
            &&& y == (p.lay.main_y(4) + p.lay.px(38)) as i32
            &&& w == (p.lay.ow - 2 * p.lay.pad - p.lay.px(20)) as i32
            &&& h == p.lay.px(22) as i32
            &&& r == p.lay.px(3) as i32
            &&& color == 0x1E1E1E
        },
        dir_ops(p, dir)[3].0 matches Shape::Text { left, top, right, bottom, font, color, flags }
            && {
            &&& left == (p.lay.pad + p.lay.px(10) + p.lay.px(8)) as i32
            &&& top == (p.lay.main_y(4) + p.lay.px(38)) as i32
            &&& right == (p.lay.pad + p.lay.px(10) + p.lay.ow - 2 * p.lay.pad - p.lay.px(20)
                - p.lay.px(8)) as i32
            &&& bottom == (p.lay.main_y(4) + p.lay.px(38) + p.lay.px(22)) as i32
            &&& font == Font::Hint
            &&& color == 0x8C8C8C
            &&& flags == 0x8024
        },
{
    reveal(dir_ops);
}

/// What to do stands at the right end of its card, halfway down, and so does the image's name, which
/// ends before the cross; the cross is in the middle of its frame, and that halfway down too.
pub proof fn law_hints_stand_halfway_down(p: Panel, look: Look, file: Seq<char>)
    ensures
        p.capturing_hotkey ==> (hotkey_ops(p, look)[2].0 matches Shape::Text {
            left,
            top,
            right,
            bottom,
            flags,
            ..
        } && {
            &&& left == p.lay.content_x
            &&& right == p.lay.track_right
            &&& top == p.lay.main_y(3) as i32
            &&& bottom == (p.lay.main_y(3) + p.lay.tog_h) as i32
            &&& flags == 0x26
        }),
        !p.has_image ==> (image_ops(p, look, file)[2].0 matches Shape::Text {
            left,
            top,
            right,
            bottom,
            color,
            flags,
            ..
        } && {
            &&& left == p.lay.content_x
            &&& right == p.lay.track_right
            &&& top == p.lay.adv_y(2) as i32
            &&& bottom == (p.lay.adv_y(2) + p.lay.tog_h) as i32
            &&& color == 0x585858
            &&& flags == 0x26
        }),
        p.has_image ==> (image_ops(p, look, file)[2].0 matches Shape::Text {
            left,
            top,
            right,
            bottom,
            color,
            flags,
            ..
        } && {
            &&& left == p.lay.content_x
            &&& right == (p.lay.ow - p.lay.pad - p.lay.close_sz - p.lay.px(6)) as i32
            &&& top == p.lay.adv_y(2) as i32
            &&& bottom == (p.lay.adv_y(2) + p.lay.tog_h) as i32
            &&& color == look.accent
            &&& flags == 0x8026
        }),
        p.has_image ==> (image_ops(p, look, file)[3].0 matches Shape::Frame { y, w, h, r, .. } && {
            &&& y == (p.lay.adv_y(2) + (p.lay.tog_h - p.lay.close_sz) / 2) as i32
            &&& w == p.lay.close_sz
            &&& h == p.lay.close_sz
            &&& r == p.lay.px(4) as i32
        }),
{
    reveal(hotkey_ops);
    reveal(image_ops);
}

/// The dots of the header are alike and evenly spaced, each six pixels of the design behind the one
/// before it, and red, yellow and green.
pub proof fn law_dots_are_evenly_spaced(p: Panel, look: Look, i: int)
    requires
        p.wf(),
        0 <= i < 3,
    ensures
        header_ops(p, look)[i].0 matches Shape::Dot { x, y, w, h, color } && {
            &&& x == p.lay.close_x + i * (p.lay.close_sz + p.lay.px(6))
            &&& y == p.lay.close_y
            &&& w == p.lay.close_sz
            &&& h == p.lay.close_sz
            &&& i == 0 ==> color == 0x575FFF
            &&& i == 1 ==> color == 0x2EBCFE
            &&& i == 2 ==> color == 0x40C828
        },
        header_ops(p, look)[6].0 matches Shape::Fill { x, y, w, h, .. } && x == 0 && y + h
            == p.lay.header_h && w == p.lay.ow && h == 1,
{
    reveal(header_ops);
    lemma_px(p.lay.dpi as int);
}

/// What the footer has is halfway down in it, beside the padding: the line on its upper edge, the
/// dot and its word at the left.
pub proof fn law_footer_is_laid_out(p: Panel, look: Look)
    ensures
        ({
            let ops = footer_ops(p, look);
            let lay = p.lay;
            let h = lay.oh - lay.foot_y();
            &&& ops[0].0 matches Shape::Fill { x, y, w, h: high, .. } && {
                &&& x == lay.pad
                &&& y == lay.foot_y() as i32
                &&& w == (lay.ow - 2 * lay.pad) as i32
                &&& high == 1
            }
            &&& ops[1].0 matches Shape::Dot { x, y, w, color, .. } && {
                &&& x == (lay.pad + lay.px(2)) as i32
                &&& y == (lay.foot_y() + (h - lay.px(10)) / 2) as i32
                &&& w == lay.px(10) as i32
                &&& color == 0x40C828
            }
            &&& ops[2].0 matches Shape::Text { left, top, color, .. } && {
                &&& left == (lay.pad + lay.px(16)) as i32
                &&& top == (lay.foot_y() + (h - lay.px(18)) / 2) as i32
                &&& color == 0x585858
            }
            &&& ops[3].0 matches Shape::Frame { r, .. } && r == lay.px(5) as i32
        }),
{
    reveal(footer_ops);
}

/// The hue's thumb has a light spot in it, three pixels of the design from its middle to the left
/// and to the top.
pub proof fn law_hue_has_its_spot(p: Panel, look: Look)
    ensures
        color_ops(p, look)[4].0 matches Shape::Dot { x, y, w, h, color } && {
            &&& x == (look.thumbs.hue - p.lay.px(3)) as i32
            &&& y == (p.lay.adv_y(1) + p.lay.px(36) - p.lay.px(3)) as i32
            &&& w == p.lay.px(5) as i32
            &&& h == p.lay.px(5) as i32
            &&& color == 0xACACAC
        },
{
    reveal(color_ops);
}

} // verus!
