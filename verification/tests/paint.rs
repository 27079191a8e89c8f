use glimpse::hotkey::pack;
use glimpse::launch::clips_dir;
use glimpse::layout::Lay;
use glimpse::overlay::{Click, MonitorInfo, State, Thumbs};
use glimpse::paint::{
    dir_text, font_height, image_size, paint, rgb, wide_channels, DrawOp, Font, Look, Shape,
    AT_LEFT, AT_RIGHT, BLACK, C_BG, C_CARD, C_CLOSE_BG, C_GREY, C_GREY_LT, C_TL_GRN, C_TL_RED,
    C_TL_YLW, C_TOG_OFF, C_TRACK, C_WHITE, DT_END_ELLIPSIS, DT_NOCLIP, IN_MIDDLE,
};
use glimpse::settings::Settings;

const LOOK: Look = Look {
    accent: 0xABCDEF,
    accent_dim: 0x123456,
    underline: 0,
    thumbs: Thumbs { clip_secs: 77, fps: 95, bitrate_mbps: 20, hue: 60 },
    hotkey: 0x6_0000_0077,
    monitor: 1,
};

fn panel() -> State {
    let monitors = vec![MonitorInfo { w: 1920, h: 1080 }, MonitorInfo { w: 2560, h: 1440 }];
    State::new(&Settings::default(), monitors, Lay::from_dpi(96))
}

fn list(s: &State) -> Vec<DrawOp> {
    paint(s, &LOOK, "C:\\clips", "sea.png")
}

fn words(ops: &[DrawOp]) -> Vec<&str> {
    ops.iter().filter(|o| matches!(o.shape, Shape::Text { .. })).map(|o| o.text.as_str()).collect()
}

fn text(l: i32, t: i32, r: i32, b: i32, font: Font, color: u32, flags: u32) -> Shape {
    Shape::Text { left: l, top: t, right: r, bottom: b, font, color, flags }
}

#[test]
fn colours_are_made_of_red_green_and_blue() {
    assert_eq!(rgb(1, 2, 3), 0x030201);
    assert_eq!(rgb(0, 0, 0), BLACK);
    assert_eq!(rgb(13, 13, 13), C_BG);
    assert_eq!(rgb(22, 22, 22), C_CARD);
    assert_eq!(rgb(172, 172, 172), C_WHITE);
    assert_eq!(rgb(88, 88, 88), C_GREY);
    assert_eq!(rgb(140, 140, 140), C_GREY_LT);
    assert_eq!(rgb(30, 30, 30), C_TRACK);
    assert_eq!(rgb(35, 35, 35), C_CLOSE_BG);
    assert_eq!(rgb(60, 60, 60), C_TOG_OFF);
    assert_eq!(rgb(255, 95, 87), C_TL_RED);
    assert_eq!(rgb(254, 188, 46), C_TL_YLW);
    assert_eq!(rgb(40, 200, 64), C_TL_GRN);
    assert_eq!(wide_channels(0x030201), (0x100, 0x200, 0x300));
    assert_eq!(wide_channels(0xFF_FFFFFF), (0xFF00, 0xFF00, 0xFF00));
}

#[test]
fn the_settings_tab_has_its_words() {
    assert_eq!(
        words(&list(&panel())),
        vec![
            "settings", "advanced", "clip_length", "30s", "frame_rate", "30fps", "bitrate",
            "30Mbps", "hotkey", "Ctrl", "Shift", "F8", "output_dir", "C:\\clips",
            "start_with_windows", "running", "> save clip",
        ]
    );
}

#[test]
fn the_advanced_tab_has_its_words() {
    let mut s = panel();
    s.active_tab = 1;
    assert_eq!(
        words(&list(&s)),
        vec![
            "settings", "advanced", "display", "2560 \u{d7} 1440", "\u{25c0}  2 of 2  \u{25b6}",
            "accent_color", "background", "click to browse\u{2026}", "running", "> save clip",
        ]
    );
    s.monitors = vec![];
    s.has_image = true;
    assert_eq!(
        words(&list(&s)),
        vec![
            "settings", "advanced", "display", "0 \u{d7} 0", "only display", "accent_color",
            "background", "sea.png", "\u{d7}", "running", "> save clip",
        ]
    );
}

#[test]
fn the_ground_is_drawn_first() {
    let mut s = panel();
    let shapes: Vec<Shape> = list(&s)[..4].iter().map(|o| o.shape).collect();
    assert_eq!(
        shapes,
        vec![
            Shape::Fill { x: 0, y: 0, w: 340, h: 469, color: BLACK },
            Shape::Clip { w: 340, h: 469, diameter: 28 },
            Shape::Fill { x: 0, y: 0, w: 340, h: 469, color: C_BG },
            Shape::Unclip,
        ]
    );
    s.has_image = true;
    assert_eq!(list(&s)[3].shape, Shape::Image { w: 340, h: 469, alpha: 90 });
    assert_eq!(list(&s)[4].shape, Shape::Unclip);
}

#[test]
fn the_header_has_three_dots_and_two_tabs() {
    let mut s = panel();
    s.active_tab = 1;
    let look = Look { underline: 104, ..LOOK };
    let shapes: Vec<Shape> = paint(&s, &look, "", "")[4..11].iter().map(|o| o.shape).collect();
    assert_eq!(
        shapes,
        vec![
            Shape::Dot { x: 14, y: 19, w: 10, h: 10, color: C_TL_RED },
            Shape::Dot { x: 30, y: 19, w: 10, h: 10, color: C_TL_YLW },
            Shape::Dot { x: 46, y: 19, w: 10, h: 10, color: C_TL_GRN },
            text(78, 11, 158, 37, Font::Label, C_GREY, IN_MIDDLE),
            text(182, 11, 262, 37, Font::Label, C_WHITE, IN_MIDDLE),
            Shape::Fill { x: 188, y: 35, w: 68, h: 2, color: 0xABCDEF },
            Shape::Fill { x: 0, y: 47, w: 340, h: 1, color: C_CLOSE_BG },
        ]
    );
}

#[test]
fn the_close_dot_is_drawn_where_it_is_clicked() {
    for (dpi, y, d) in [(96, 19, 10), (106, 21, 11), (120, 23, 13), (144, 28, 15), (192, 38, 20)] {
        let s = State::new(&Settings::default(), vec![], Lay::from_dpi(dpi));
        let dot = paint(&s, &LOOK, "", "")[4].shape;
        assert_eq!(dot, Shape::Dot { x: s.lay.close_x, y, w: d, h: d, color: C_TL_RED });
        assert_eq!((s.lay.close_y, s.lay.close_sz), (y, d));
        let at = |x, y| s.click(x, y, &LOOK.thumbs, 0);
        assert_eq!(at(s.lay.close_x, y), Click::Close);
        assert_eq!(at(s.lay.close_x + d, y + d), Click::Close);
        assert_ne!(at(s.lay.close_x + d + 1, y + d), Click::Close);
        assert_ne!(at(s.lay.close_x, y - 1), Click::Close);
    }
}

#[test]
fn a_slider_is_filled_up_to_its_thumb() {
    let ops = list(&panel());
    let shapes: Vec<Shape> = ops[11..18].iter().map(|o| o.shape).collect();
    assert_eq!(
        shapes,
        vec![
            Shape::Card { x: 14, y: 53, w: 312, h: 56, r: 12, color: C_CARD, alpha: 200 },
            text(24, 62, 170, 82, Font::Label, C_WHITE, AT_LEFT),
            text(24, 64, 316, 82, Font::Value, 0xABCDEF, AT_RIGHT),
            Shape::Fill { x: 24, y: 91, w: 292, h: 3, color: C_TRACK },
            Shape::Gradient { x: 24, y: 91, w: 53, h: 3, from: 0x123456, to: 0xABCDEF },
            Shape::Glow { x: 66, y: 80, w: 22, h: 22, color: 0xABCDEF, alpha: 48 },
            Shape::Dot { x: 72, y: 86, w: 10, h: 10, color: 0xABCDEF },
        ]
    );
    // The thumb of the last slider is left of its track.
    assert_eq!(
        ops[29].shape,
        Shape::Gradient { x: 24, y: 213, w: 0, h: 3, from: 0x123456, to: 0xABCDEF }
    );
}

#[test]
fn a_hotkey_has_a_badge_for_each_key() {
    let ops = list(&panel());
    let shapes: Vec<Shape> = ops[32..40].iter().map(|o| o.shape).collect();
    let badge = |x, w| Shape::Frame { x, y: 250, w, h: 20, r: 3, color: C_CLOSE_BG };
    let name = |x, w| text(x, 250, x + w, 270, Font::Hint, C_WHITE, IN_MIDDLE);
    assert_eq!(
        shapes,
        vec![
            Shape::Card { x: 14, y: 236, w: 312, h: 48, r: 12, color: C_CARD, alpha: 200 },
            text(24, 245, 170, 265, Font::Label, C_WHITE, AT_LEFT),
            badge(177, 44),
            name(177, 44),
            badge(225, 51),
            name(225, 51),
            badge(280, 36),
            name(280, 36),
        ]
    );
}

#[test]
fn no_hotkey_has_no_badge() {
    let look = Look { hotkey: 0, ..LOOK };
    assert_eq!(paint(&panel(), &look, "", "").len(), list(&panel()).len() - 6);
}

#[test]
fn all_keys_together_have_room() {
    let look = Look { hotkey: pack(15, 0x08), ..LOOK };
    let ops = paint(&panel(), &look, "", "");
    assert_eq!(ops[34].shape, Shape::Frame { x: 52, y: 250, w: 44, h: 20, r: 3, color: C_CLOSE_BG });
    assert_eq!(ops[43].text, "Backspace");
    match ops[43].shape {
        Shape::Text { right, .. } => assert_eq!(right, 316),
        _ => panic!("no text"),
    }
}

#[test]
fn while_a_hotkey_is_picked_the_card_says_so() {
    let mut s = panel();
    s.start_picking();
    let ops = list(&s);
    assert_eq!(ops[33].shape, text(24, 245, 170, 265, Font::Label, 0xABCDEF, AT_LEFT));
    assert_eq!(ops[34].shape, text(24, 236, 316, 284, Font::Hint, C_GREY, AT_RIGHT));
    assert_eq!(ops[34].text, "press a key\u{2026}");
}

#[test]
fn the_directory_stands_in_a_field() {
    let ops = list(&panel());
    assert_eq!(
        ops[42].shape,
        Shape::Frame { x: 24, y: 327, w: 292, h: 22, r: 3, color: C_TRACK }
    );
    assert_eq!(
        ops[43].shape,
        text(32, 327, 308, 349, Font::Hint, C_GREY_LT, 0x24 | DT_END_ELLIPSIS)
    );
    assert_eq!(dir_text(Some("D:\\me")), "D:\\me\\Videos\\Glimpse");
    assert_eq!(dir_text(None), "C:\\Users\\user\\Videos\\Glimpse");
    assert_eq!(dir_text(Some("D:\\me")), clips_dir(Some("D:\\me"), "T"));
}

#[test]
fn the_knob_of_the_switch_moves() {
    let mut s = panel();
    let knob = |s: &State| list(s)[47].shape;
    let pill = |s: &State| match list(s)[46].shape {
        Shape::Pill { x: 264, y: 373, w: 52, h: 30, r: 15, color } => color,
        _ => panic!("no switch"),
    };
    assert_eq!(knob(&s), Shape::Dot { x: 269, y: 378, w: 20, h: 20, color: C_BG });
    assert_eq!(pill(&s), C_TOG_OFF);
    for (moved, x) in [(1u8, 271), (3, 277), (4, 280), (8, 291)] {
        s.tog_anim = moved;
        assert_eq!(knob(&s), Shape::Dot { x, y: 378, w: 20, h: 20, color: C_BG });
        assert_eq!(x, 269 + (moved as f32 / 8.0 * 22.0) as i32);
        assert_eq!(pill(&s), if moved > 4 { 0xABCDEF } else { C_TOG_OFF });
    }
}

#[test]
fn the_footer_has_its_button() {
    let ops = list(&panel());
    assert_eq!(ops.len(), 53);
    let shapes: Vec<Shape> = ops[48..].iter().map(|o| o.shape).collect();
    assert_eq!(
        shapes,
        vec![
            Shape::Fill { x: 14, y: 417, w: 312, h: 1, color: C_CLOSE_BG },
            Shape::Dot { x: 16, y: 438, w: 10, h: 10, color: C_TL_GRN },
            text(30, 434, 4096, 466, Font::Hint, C_GREY, 0x24 | DT_NOCLIP),
            Shape::Frame { x: 208, y: 427, w: 118, h: 32, r: 5, color: 0xABCDEF },
            text(208, 427, 326, 459, Font::Label, C_BG, IN_MIDDLE | DT_NOCLIP),
        ]
    );
}

#[test]
fn the_advanced_tab_has_its_shapes() {
    let mut s = panel();
    s.active_tab = 1;
    s.has_image = true;
    let shapes: Vec<Shape> = list(&s)[12..26].iter().map(|o| o.shape).collect();
    let card = |y, h| Shape::Card { x: 14, y, w: 312, h, r: 12, color: C_CARD, alpha: 200 };
    assert_eq!(
        shapes,
        vec![
            card(53, 56),
            text(24, 62, 170, 82, Font::Label, C_WHITE, AT_LEFT),
            text(24, 64, 316, 82, Font::Value, 0xABCDEF, AT_RIGHT),
            text(24, 83, 316, 99, Font::Hint, C_GREY, IN_MIDDLE),
            card(114, 56),
            text(24, 123, 170, 143, Font::Label, C_WHITE, AT_LEFT),
            Shape::Hues { x: 24, y: 150, w: 292, h: 3 },
            Shape::Dot { x: 54, y: 144, w: 12, h: 12, color: 0xABCDEF },
            Shape::Dot { x: 57, y: 147, w: 5, h: 5, color: C_WHITE },
            card(175, 48),
            text(24, 184, 170, 204, Font::Label, C_WHITE, AT_LEFT),
            text(24, 175, 310, 223, Font::Hint, 0xABCDEF, AT_RIGHT | DT_END_ELLIPSIS),
            Shape::Frame { x: 316, y: 194, w: 10, h: 10, r: 4, color: C_CLOSE_BG },
            text(316, 194, 326, 204, Font::Hint, C_GREY, IN_MIDDLE),
        ]
    );
}

#[test]
fn letters_are_sized_in_points() {
    assert_eq!(font_height(10, 96), 13);
    assert_eq!(font_height(8, 144), 16);
    assert_eq!(font_height(18, 96), 24);
}

#[test]
fn images_have_four_bytes_for_each_pixel() {
    assert_eq!(image_size(3, 2), Some((12, 24)));
    assert_eq!(image_size(0, 2), None);
    assert_eq!(image_size(3, 0), None);
    assert_eq!(image_size(0x8000_0000, 0), None);
    assert_eq!(image_size(0, u32::MAX), None);
}
