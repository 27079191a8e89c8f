use glimpse::settings::{startup_command_bytes, Settings, DEFAULT_HUE_BITS};

fn same(a: &Settings, b: &Settings) -> bool {
    a.monitor_index == b.monitor_index
        && a.clip_secs == b.clip_secs
        && a.fps == b.fps
        && a.bitrate_mbps == b.bitrate_mbps
        && a.start_with_windows == b.start_with_windows
        && a.hue_bits == b.hue_bits
        && a.hotkey_mods == b.hotkey_mods
        && a.hotkey_vk == b.hotkey_vk
        && a.bg_image_path == b.bg_image_path
}

#[test]
fn a_fresh_installation_has_the_defaults() {
    let (s, hues) = Settings::load(false, None);
    assert_eq!(s.monitor_index, 0);
    assert_eq!(s.clip_secs, 30);
    assert_eq!(s.fps, 30);
    assert_eq!(s.bitrate_mbps, 30);
    assert!(!s.start_with_windows);
    // Ctrl + Shift + F8.
    assert_eq!(s.hotkey_mods, 2 | 4);
    assert_eq!(s.hotkey_vk, 0x77);
    assert_eq!(s.bg_image_path, "");
    assert!(hues.is_empty());
    assert!(same(&s, &Settings::default()));
}

#[test]
fn the_default_hue_is_forty_five_degrees() {
    assert_eq!(f32::from_bits(DEFAULT_HUE_BITS), 45.0);
    assert_eq!(f32::from_bits(Settings::default().hue_bits), 45.0);
}

#[test]
fn starting_with_windows_comes_from_the_registry() {
    assert!(Settings::load(true, None).0.start_with_windows);
    assert!(Settings::load(true, Some("start_with_windows=0\n")).0.start_with_windows);
    assert!(!Settings::load(false, Some("start_with_windows=1\n")).0.start_with_windows);
}

#[test]
fn a_file_is_read_line_by_line() {
    let text = "# a comment\n\n  clip_secs = 45  \nfps=60\r\nbitrate_mbps=+12\nmonitor_index=2\n\
                hotkey_mods=1\nhotkey_vk=65\nbg_image_path= C:\\a=b.png \nunknown=7\n#fps=9\nfps\n";
    let (s, hues) = Settings::load(false, Some(text));
    assert_eq!(s.clip_secs, 45);
    assert_eq!(s.fps, 60);
    assert_eq!(s.bitrate_mbps, 12);
    assert_eq!(s.monitor_index, 2);
    assert_eq!(s.hotkey_mods, 1);
    assert_eq!(s.hotkey_vk, 65);
    assert_eq!(s.bg_image_path, "C:\\a=b.png");
    assert!(hues.is_empty());
}

#[test]
fn values_are_held_to_their_bounds() {
    let (s, _) = Settings::load(false, Some("clip_secs=1\nfps=0\nbitrate_mbps=0\n"));
    assert_eq!((s.clip_secs, s.fps, s.bitrate_mbps), (10, 1, 1));
    let (s, _) = Settings::load(false, Some("clip_secs=999\nfps=4294967295\nbitrate_mbps=101"));
    assert_eq!((s.clip_secs, s.fps, s.bitrate_mbps), (120, 120, 100));
}

#[test]
fn what_is_no_number_changes_nothing() {
    let (s, _) = Settings::load(
        false,
        Some("clip_secs=-5\nfps=4294967296\nbitrate_mbps=1.5\nmonitor_index=\nhotkey_vk=++1\nhotkey_mods=0x2"),
    );
    assert!(same(&s, &Settings::default()));
}

#[test]
fn a_later_line_counts() {
    let (s, _) = Settings::load(false, Some("fps=24\nfps=48\n"));
    assert_eq!(s.fps, 48);
}

#[test]
fn hues_are_handed_on_in_their_order() {
    let (s, hues) = Settings::load(false, Some("hue=120.5\nfps=10\nhue = red \n"));
    assert_eq!(hues, vec!["120.5".to_string(), "red".to_string()]);
    assert_eq!(s.hue_bits, DEFAULT_HUE_BITS);
}

#[test]
fn a_file_is_written_line_by_line() {
    let mut s = Settings::default();
    s.monitor_index = 1;
    s.bg_image_path = "C:\\pictures\\sea.png".to_string();
    assert_eq!(
        s.save("45.0"),
        "monitor_index=1\nclip_secs=30\nfps=30\nbitrate_mbps=30\nhue=45.0\nhotkey_mods=6\n\
         hotkey_vk=119\nbg_image_path=C:\\pictures\\sea.png\n"
    );
}

#[test]
fn saved_settings_read_back() {
    let mut s = Settings::default();
    s.monitor_index = 3;
    s.clip_secs = 120;
    s.fps = 1;
    s.bitrate_mbps = 100;
    s.hotkey_mods = 9;
    s.hotkey_vk = 0x41;
    s.bg_image_path = "D:/x y.jpg".to_string();
    let (t, hues) = Settings::load(false, Some(&s.save("300.0")));
    assert!(same(&s, &t));
    assert_eq!(hues, vec!["300.0".to_string()]);
}

#[test]
fn the_hue_reads_back_to_the_tenth_of_a_degree() {
    for hue in [0.0f32, 45.0, 123.46, 359.94, 360.0] {
        let mut s = Settings::default();
        s.bg_image_path = "a.png".to_string();
        let (t, hues) = Settings::load(false, Some(&s.save(&format!("{hue:.1}"))));
        assert!(same(&s, &t));
        assert_eq!(hues.len(), 1);
        assert!((hues[0].parse::<f32>().unwrap() - hue).abs() <= 0.0501);
    }
}

#[test]
fn a_copy_of_the_settings_is_the_same() {
    let (s, _) = Settings::load(true, Some("fps=77\nbg_image_path=a"));
    assert!(same(&s, &s.clone()));
}

#[test]
fn the_startup_command_is_quoted_and_ends_with_a_zero() {
    assert_eq!(
        startup_command_bytes("a\u{e9}"),
        vec![b'"', 0, b'a', 0, 0xE9, 0, b'"', 0, 0, 0]
    );
}
