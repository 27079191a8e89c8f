use glimpse::hotkey::pack;
use glimpse::layout::Lay;
use glimpse::overlay::{
    centered, fade_alpha, monitor_size, mouse_point, panel_event, slider, Click, Fade, MonitorInfo,
    PanelEvent, Pointed, State, Thumbs, Toggle, ANIM_STEPS, COLOR_DRAG,
};
use glimpse::settings::Settings;

const THUMBS: Thumbs = Thumbs { clip_secs: 77, fps: 95, bitrate_mbps: 109, hue: 60 };
const AT: Pointed = Pointed { clip_secs: 64, fps: 31, bitrate_mbps: 26, hue_bits: 0x4200_0000 };

fn panel(monitors: u32) -> State {
    let list = (0..monitors).map(|i| MonitorInfo { w: 1920 + i, h: 1080 }).collect();
    State::new(&Settings::default(), list, Lay::from_dpi(96))
}

fn down(s: &mut State, x: i32, y: i32) -> Click {
    s.on_down(x, y, &THUMBS, &AT, 0)
}

#[test]
fn a_new_panel_is_hidden() {
    let s = panel(2);
    assert_eq!(s.val, [30, 30, 30]);
    assert!(!s.visible && !s.startup && !s.capturing_hotkey && !s.has_image);
    assert_eq!((s.anim_t, s.anim_dir, s.tog_anim, s.active_tab), (0, 0, 0, 0));
    assert_eq!(s.drag, None);
    let mut c = Settings::default();
    c.start_with_windows = true;
    c.bg_image_path = "a.png".to_string();
    let s = State::new(&c, vec![], Lay::from_dpi(96));
    assert_eq!(s.tog_anim, 8);
    assert_eq!(s.bg_path, "a.png");
}

#[test]
fn sliders_have_names_and_bounds() {
    let got: Vec<(&str, &str, u32, u32)> = (0..3)
        .map(|i| {
            let s = slider(i);
            (s.label, s.unit, s.min, s.max)
        })
        .collect();
    assert_eq!(
        got,
        vec![("clip_length", "s", 10, 120), ("frame_rate", "fps", 1, 120), ("bitrate", "Mbps", 1, 100)]
    );
}

#[test]
fn mouse_messages_tell_the_place() {
    assert_eq!(mouse_point(0x0010_0020), (0x20, 0x10));
    assert_eq!(mouse_point(0xFFFF_8000), (-32768, -1));
    assert_eq!(mouse_point(0x7FFF_FFFE), (-2, 32767));
}

#[test]
fn messages_are_told_apart() {
    assert_eq!(panel_event(0x0001, 0, 0), PanelEvent::Create);
    assert_eq!(panel_event(0x0002, 0, 0), PanelEvent::Destroy);
    assert_eq!(panel_event(0x0014, 0, 0), PanelEvent::EraseBackground);
    assert_eq!(panel_event(0x0084, 0, 0x0003_FFFF), PanelEvent::HitTest { x: -1, y: 3 });
    assert_eq!(panel_event(0x800A, 0, 0), PanelEvent::Toggle);
    assert_eq!(panel_event(0x000F, 0, 0), PanelEvent::Paint);
    assert_eq!(panel_event(0x0113, 2, 0), PanelEvent::FadeTimer);
    assert_eq!(panel_event(0x0113, 3, 0), PanelEvent::SwitchTimer);
    assert_eq!(panel_event(0x0113, 4, 0), PanelEvent::TabTimer);
    assert_eq!(panel_event(0x0113, 5, 0), PanelEvent::Nothing);
    assert_eq!(panel_event(0x0201, 1, 0x0002_0001), PanelEvent::Down { x: 1, y: 2 });
    assert_eq!(panel_event(0x0200, 1, 0x0002_0001), PanelEvent::Drag { x: 1, y: 2 });
    assert_eq!(panel_event(0x0200, 2, 0x0002_0001), PanelEvent::Nothing);
    assert_eq!(panel_event(0x0202, 0, 0), PanelEvent::Up);
    assert_eq!(panel_event(0x800B, pack(6, 65), 0), PanelEvent::HotkeyPicked(pack(6, 65)));
    assert_eq!(panel_event(0x0100, 0, 0), PanelEvent::Other);
}

#[test]
fn the_panel_is_centred() {
    assert_eq!(centered(1920, 340), 790);
    assert_eq!(centered(1079, 470), 304);
    assert_eq!(centered(100, 341), -120);
}

#[test]
fn monitors_without_room_do_not_count() {
    assert_eq!(monitor_size(-1920, 0, 0, 1080), Some(MonitorInfo { w: 1920, h: 1080 }));
    assert_eq!(monitor_size(0, 0, 0, 1080), None);
    assert_eq!(monitor_size(0, 5, 10, 4), None);
}

#[test]
fn the_fade_is_fast_at_first() {
    let alphas: Vec<u8> = (0..=ANIM_STEPS).map(fade_alpha).collect();
    assert_eq!(alphas, vec![0, 36, 109, 145, 181, 181, 218]);
    for t in 0..=ANIM_STEPS {
        let u = 1.0 - t as f32 / ANIM_STEPS as f32;
        let eased = ((1.0 - u * u) * ANIM_STEPS as f32) as i32;
        assert_eq!(fade_alpha(t) as i32, 218 * eased / ANIM_STEPS);
    }
}

#[test]
fn an_opened_panel_fades_in_and_a_closed_one_out() {
    let mut s = panel(1);
    let mut c = Settings::default();
    c.clip_secs = 99;
    c.start_with_windows = true;
    assert_eq!(s.toggle(&c), Toggle::Open { show_window: true });
    assert_eq!(s.val, [99, 30, 30]);
    assert_eq!(s.tog_anim, 8);
    for _ in 0..5 {
        assert_eq!(s.on_fade_timer().1, Fade::GoesOn);
    }
    assert!(!s.visible);
    assert_eq!(s.on_fade_timer(), (218, Fade::Shown));
    assert!(s.visible);
    assert_eq!(s.toggle(&c), Toggle::Close);
    assert!(!s.visible);
    for _ in 0..5 {
        assert_eq!(s.on_fade_timer().1, Fade::GoesOn);
    }
    assert_eq!(s.on_fade_timer(), (0, Fade::Hidden));
    assert_eq!(s.on_fade_timer(), (0, Fade::GoesOn));
}

#[test]
fn a_fade_can_turn_round() {
    let mut s = panel(1);
    let c = Settings::default();
    s.toggle(&c);
    s.on_fade_timer();
    s.on_fade_timer();
    assert_eq!(s.toggle(&c), Toggle::Close);
    s.on_fade_timer();
    assert_eq!(s.anim_t, 1);
    assert_eq!(s.toggle(&c), Toggle::Open { show_window: false });
}

#[test]
fn the_switch_moves_to_where_it_belongs() {
    let mut s = panel(1);
    assert_eq!(down(&mut s, 280, 380), Click::Startup);
    assert!(s.startup);
    for i in 1..=8 {
        assert!(!s.on_switch_timer());
        assert_eq!(s.tog_anim, i);
    }
    assert!(s.on_switch_timer());
    down(&mut s, 280, 380);
    assert!(!s.on_switch_timer());
    assert_eq!(s.tog_anim, 7);
}

#[test]
fn the_header_and_the_footer_can_be_clicked() {
    let mut s = panel(1);
    assert_eq!(down(&mut s, 14, 19), Click::Close);
    assert_eq!(down(&mut s, 24, 29), Click::Close);
    assert_eq!(down(&mut s, 25, 29), Click::Nothing);
    assert_eq!(down(&mut s, 208, 427), Click::SaveClip);
    assert_eq!(down(&mut s, 326, 459), Click::SaveClip);
    assert_eq!(down(&mut s, 100, 20), Click::Nothing);
    s.start_picking();
    assert_eq!(down(&mut s, 200, 20), Click::Tab(1));
    assert_eq!(s.active_tab, 1);
    assert!(!s.capturing_hotkey);
    assert_eq!(down(&mut s, 200, 20), Click::Nothing);
    assert_eq!(down(&mut s, 20, 24), Click::Close);
    assert_eq!(down(&mut s, 300, 440), Click::SaveClip);
    assert_eq!(down(&mut s, 78, 11), Click::Tab(0));
    assert_eq!(s.active_tab, 0);
}

#[test]
fn sliders_are_taken_hold_of() {
    let mut s = panel(1);
    assert_eq!(down(&mut s, 100, 95), Click::Slider(0));
    assert_eq!(s.drag, Some(0));
    assert_eq!(s.val, [64, 30, 30]);
    assert_eq!(down(&mut s, 316, 140), Click::Slider(1));
    assert_eq!(s.val, [64, 31, 30]);
    assert_eq!(down(&mut s, 24, 225), Click::Slider(2));
    assert_eq!(s.val, [64, 31, 26]);
    assert_eq!(down(&mut s, 100, 226), Click::Nothing);
    // Beside the track, close to a thumb at its end.
    let t = Thumbs { clip_secs: 24, ..THUMBS };
    assert_eq!(s.click(12, 91, &t, 0), Click::Slider(0));
    assert_eq!(s.click(11, 91, &t, 0), Click::Nothing);
}

#[test]
fn a_hotkey_can_be_picked() {
    let mut s = panel(1);
    assert_eq!(down(&mut s, 14, 236), Click::StartPicking);
    assert!(!s.capturing_hotkey);
    s.start_picking();
    assert_eq!(down(&mut s, 326, 284), Click::StopPicking);
    assert!(!s.capturing_hotkey);
    assert!(!s.cancel_capture());
    s.start_picking();
    assert!(s.cancel_capture());
    assert_eq!(down(&mut s, 170, 320), Click::Nothing);
}

#[test]
fn monitors_go_round() {
    let mut s = panel(3);
    s.active_tab = 1;
    let click = |x: i32, cur: u32| s.click(x, 60, &THUMBS, cur);
    assert_eq!(click(169, 0), Click::Monitor(2));
    assert_eq!(click(169, 2), Click::Monitor(1));
    assert_eq!(click(170, 2), Click::Monitor(0));
    assert_eq!(click(170, 0), Click::Monitor(1));
    assert_eq!(click(170, 9), Click::Monitor(0));
    assert_eq!(click(170, u32::MAX), Click::Monitor(0));
    let mut one = panel(1);
    one.active_tab = 1;
    assert_eq!(one.click(170, 60, &THUMBS, 0), Click::Nothing);
}

#[test]
fn the_background_image_is_browsed_for_and_cleared() {
    let mut s = panel(1);
    s.active_tab = 1;
    assert_eq!(down(&mut s, 320, 200), Click::BrowseImage);
    assert!(!s.set_background("C:\\sea.png", true));
    assert!(s.has_image);
    assert_eq!(s.bg_path, "C:\\sea.png");
    assert_eq!(down(&mut s, 315, 200), Click::BrowseImage);
    assert_eq!(down(&mut s, 316, 200), Click::ClearImage);
    assert!(s.set_background("C:\\gone.png", false));
    assert!(!s.has_image);
    assert!(!s.set_background("", false));
    assert_eq!(s.bg_path, "");
}

#[test]
fn the_colour_track_is_taken_hold_of() {
    let mut s = panel(1);
    s.active_tab = 1;
    assert_eq!(down(&mut s, 100, 150), Click::Hue);
    assert_eq!(s.drag, Some(COLOR_DRAG));
    assert_eq!(s.hue_bits, AT.hue_bits);
    let further = Pointed { hue_bits: 7, clip_secs: 11, ..AT };
    assert_eq!(s.on_drag(&further), None);
    assert_eq!(s.hue_bits, 7);
    assert_eq!(s.val, [30, 30, 30]);
}

#[test]
fn a_drag_changes_what_was_taken_hold_of() {
    let mut s = panel(1);
    assert_eq!(s.on_drag(&AT), None);
    assert_eq!(s.val, [30, 30, 30]);
    assert!(!s.on_up());
    down(&mut s, 100, 91);
    assert_eq!(s.on_drag(&Pointed { clip_secs: 70, ..AT }), Some(70));
    assert_eq!(s.val, [70, 30, 30]);
    assert!(s.on_up());
    assert_eq!(s.drag, None);
    down(&mut s, 100, 152);
    assert_eq!(s.on_drag(&Pointed { fps: 90, ..AT }), None);
    assert_eq!(s.val, [70, 90, 30]);
}

#[test]
fn what_is_kept_is_what_the_panel_shows() {
    let mut s = panel(1);
    s.val = [40, 60, 20];
    s.startup = true;
    s.set_background("b.png", true);
    let c = s.commit(2, pack(9, 65), 60, 20);
    assert!(!c.restart_encoder);
    let k = c.settings;
    assert_eq!((k.monitor_index, k.clip_secs, k.fps, k.bitrate_mbps), (2, 40, 60, 20));
    assert_eq!((k.hotkey_mods, k.hotkey_vk, k.start_with_windows), (9, 65, true));
    assert_eq!(k.bg_image_path, "b.png");
    assert_eq!(k.hue_bits, s.hue_bits);
    assert!(s.commit(2, 0, 61, 20).restart_encoder);
    assert!(s.commit(2, 0, 60, 21).restart_encoder);
}

#[test]
fn to_open_and_close_changes_no_setting() {
    let (c, _) = Settings::load(true, Some("clip_secs=50\nfps=60\nhotkey_vk=65\nmonitor_index=1"));
    let mut s = panel(2);
    s.do_open(&c);
    s.do_close();
    let k = s.commit(c.monitor_index, pack(c.hotkey_mods, c.hotkey_vk), 60, 30).settings;
    assert_eq!(k.save("45.0"), c.save("45.0"));
    assert_eq!(k.start_with_windows, c.start_with_windows);
    assert_eq!(k.hue_bits, c.hue_bits);
}

#[test]
fn the_sliders_keep_to_their_bounds() {
    let mut s = panel(1);
    for i in 0..3 {
        let sl = slider(i);
        let at = Pointed { clip_secs: 120, fps: 1, bitrate_mbps: 100, hue_bits: 0 };
        assert_eq!(s.on_down(100, s.lay.track_y(i), &THUMBS, &at, 0), Click::Slider(i));
        assert!(sl.min <= s.val[i] && s.val[i] <= sl.max);
    }
    let k = s.commit(0, 0, 0, 0).settings;
    assert_eq!(Settings::load(false, Some(&k.save("0.0"))).0.clip_secs, 120);
}
