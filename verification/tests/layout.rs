use glimpse::layout::{in_rounded_rect, scale, Lay};

#[test]
fn lengths_are_rounded_to_the_nearest_pixel() {
    assert_eq!(scale(340, 96), 340);
    assert_eq!(scale(5, 144), 8);
    assert_eq!(scale(-5, 144), -8);
    assert_eq!(scale(3, 120), 4);
    assert_eq!(scale(14, 0), 0);
    assert_eq!(scale(i32::MAX, 192), i32::MAX);
    assert_eq!(scale(i32::MIN, 192), i32::MIN);
}

#[test]
fn lengths_are_scaled_as_floating_point_scales_them() {
    for dpi in (0..=960u32).chain([4_000, 100_000, 439_570_212]) {
        for n in -500..=500i32 {
            let expected = (n as f64 * dpi as f64 / 96.0).round() as i32;
            assert_eq!(scale(n, dpi), expected, "{n} at {dpi}");
        }
    }
}

#[test]
fn a_longer_length_never_takes_fewer_pixels() {
    for n in 0..469 {
        assert!(scale(n, 117) <= scale(n + 1, 117));
    }
}

#[test]
fn the_layout_at_the_usual_resolution() {
    let lay = Lay::from_dpi(96);
    assert_eq!((lay.ow, lay.oh, lay.pad, lay.corner), (340, 469, 14, 14));
    assert_eq!((lay.content_x, lay.track_right), (24, 316));
    assert_eq!((lay.close_x, lay.close_y, lay.close_sz), (14, 19, 10));
    assert_eq!((lay.header_h, lay.tab_start), (48, 53));
    assert_eq!((lay.tab_btn_w, lay.tab_btn_h, lay.tab_btn_y), (80, 26, 11));
    assert_eq!((lay.card_gap, lay.card_h, lay.dir_h, lay.tog_h, lay.color_h), (5, 56, 70, 48, 56));
    assert_eq!((lay.card_r, lay.track_h, lay.track_offset, lay.col_track_offset), (12, 3, 38, 36));
    let ys: Vec<i32> = (0..7).map(|i| lay.main_card_y(i)).collect();
    assert_eq!(ys, vec![53, 114, 175, 236, 289, 364, 0]);
    let ys: Vec<i32> = (0..4).map(|i| lay.adv_card_y(i)).collect();
    assert_eq!(ys, vec![53, 114, 175, 0]);
    assert_eq!(lay.footer_y(), 417);
    assert_eq!(lay.track_y(1), 152);
    assert_eq!(lay.col_track_y(), 150);
    assert_eq!(lay.tab_x(), (78, 182));
    assert_eq!(lay.s(52), 52);
}

#[test]
fn the_cards_fill_the_panel_at_any_resolution() {
    for dpi in [0, 1, 72, 96, 120, 144, 193, 288, 1_000] {
        let lay = Lay::from_dpi(dpi);
        assert_eq!(lay.main_card_y(5) + lay.tog_h + lay.card_gap, lay.footer_y());
        assert_eq!(lay.footer_y() + lay.s(52), lay.oh);
        assert!(lay.adv_card_y(2) + lay.tog_h <= lay.footer_y());
    }
}

fn in_rounded_rect_of_floats(x: i32, y: i32, w: i32, h: i32, r: i32) -> bool {
    if x < 0 || y < 0 || x >= w || y >= h {
        return false;
    }
    let within = |dx: i32, dy: i32| {
        let (dx, dy) = (dx as f32, dy as f32);
        dx * dx + dy * dy <= (r * r) as f32
    };
    let (right, bottom) = (x - (w - r - 1), y - (h - r - 1));
    if x < r && y < r {
        return within(r - x, r - y);
    }
    if x >= w - r && y < r {
        return within(right, r - y);
    }
    if x < r && y >= h - r {
        return within(r - x, bottom);
    }
    if x >= w - r && y >= h - r {
        return within(right, bottom);
    }
    true
}

#[test]
fn corners_are_rounded() {
    assert!(!in_rounded_rect(0, 0, 340, 469, 14));
    assert!(in_rounded_rect(0, 14, 340, 469, 14));
    assert!(!in_rounded_rect(4, 4, 340, 469, 14));
    assert!(in_rounded_rect(5, 4, 340, 469, 14));
    assert!(!in_rounded_rect(339, 468, 340, 469, 14));
    assert!(!in_rounded_rect(340, 100, 340, 469, 14));
    assert!(!in_rounded_rect(100, -1, 340, 469, 14));
    for x in -2..343 {
        for y in -2..472 {
            assert_eq!(
                in_rounded_rect(x, y, 340, 469, 14),
                in_rounded_rect_of_floats(x, y, 340, 469, 14),
                "{x} {y}"
            );
        }
    }
}

#[test]
fn straight_edges_are_whole() {
    for x in 14..326 {
        assert!(in_rounded_rect(x, 0, 340, 469, 14));
        assert!(in_rounded_rect(x, 468, 340, 469, 14));
    }
}
