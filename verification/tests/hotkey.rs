use glimpse::hotkey::{
    current_modifiers, fmt_hotkey, hotkey_parts, is_modifier_vk, on_captured, on_key, on_message,
    pack, unpack, vk_name, HotkeyAction, KeyAction, HK_OVERLAY, HK_SAVE, VK_ESCAPE, VK_F9,
    WM_HOTKEY, WM_KEYDOWN, WM_REREGISTER_HK, WM_SYSKEYDOWN,
};

#[test]
fn hotkeys_are_packed_and_unpacked() {
    assert_eq!(pack(6, 0x77), 0x6_0000_0077);
    assert_eq!(unpack(0x6_0000_0077), (6, 0x77));
    assert_eq!(unpack(pack(u32::MAX, 0)), (u32::MAX, 0));
    let (mods, vk) = unpack(0xFFFF_0000_1234_5678);
    assert_eq!(pack(mods, vk), 0xFFFF_0000_1234_5678);
}

#[test]
fn hotkeys_are_written_for_the_log() {
    assert_eq!(fmt_hotkey(pack(6, 0x77)), "Ctrl+Shift+VK77");
    assert_eq!(fmt_hotkey(pack(15, 0x41)), "Ctrl+Alt+Shift+Win+VK41");
    assert_eq!(fmt_hotkey(pack(0, 7)), "VK07");
    assert_eq!(fmt_hotkey(pack(0x10, 0xABCDE)), "VKABCDE");
}

#[test]
fn keys_have_names() {
    assert_eq!(vk_name(0x70), "F1");
    assert_eq!(vk_name(0x78), "F9");
    assert_eq!(vk_name(0x7B), "F12");
    assert_eq!(vk_name(0x20), "Space");
    assert_eq!(vk_name(0x0D), "Enter");
    assert_eq!(vk_name(0x09), "Tab");
    assert_eq!(vk_name(0x08), "Backspace");
    assert_eq!(vk_name(0x2E), "Del");
    assert_eq!(vk_name(0x2D), "Ins");
    assert_eq!(vk_name(0x24), "Home");
    assert_eq!(vk_name(0x23), "End");
    assert_eq!(vk_name(0x21), "PgUp");
    assert_eq!(vk_name(0x22), "PgDn");
    assert_eq!(vk_name(0x25), "Left");
    assert_eq!(vk_name(0x27), "Right");
    assert_eq!(vk_name(0x26), "Up");
    assert_eq!(vk_name(0x28), "Down");
    assert_eq!(vk_name(0x30), "0");
    assert_eq!(vk_name(0x39), "9");
    assert_eq!(vk_name(0x41), "A");
    assert_eq!(vk_name(0x5A), "Z");
    assert_eq!(vk_name(0xBA), "VKBA");
    assert_eq!(vk_name(0x1), "VK01");
}

#[test]
fn a_word_goes_by_the_lower_half_of_a_key_alone() {
    assert_eq!(vk_name(0x1_0020), "Space");
    assert_eq!(vk_name(0x1_0041), "VK10041");
}

#[test]
fn a_hotkey_is_shown_in_parts() {
    assert_eq!(hotkey_parts(pack(6, 0x77)), vec!["Ctrl", "Shift", "F8"]);
    assert_eq!(hotkey_parts(pack(9, 0)), vec!["Alt", "Win"]);
    assert!(hotkey_parts(0).is_empty());
}

#[test]
fn no_hotkey_has_more_than_five_parts_or_a_long_name() {
    let parts = hotkey_parts(pack(u32::MAX, u32::MAX));
    assert_eq!(parts, vec!["Ctrl", "Alt", "Shift", "Win", "VKFFFFFFFF"]);
}

#[test]
fn modifiers_are_told_from_other_keys() {
    let modifiers = [0x10, 0x11, 0x12, 0x5B, 0x5C, 0xA0, 0xA1, 0xA2, 0xA3, 0xA4, 0xA5];
    for vk in 0..0x200u32 {
        assert_eq!(is_modifier_vk(vk), modifiers.contains(&vk), "{vk:x}");
    }
}

#[test]
fn held_modifiers_are_added_up() {
    assert_eq!(current_modifiers(0, 0, 0, 0, 0), 0);
    assert_eq!(current_modifiers(-1, 0, 0, 0, 0), 2);
    assert_eq!(current_modifiers(0, i16::MIN, 0, 0, 0), 1);
    assert_eq!(current_modifiers(0, 1, -128, 0, 0), 4);
    assert_eq!(current_modifiers(0, 0, 0, -1, 0), 8);
    assert_eq!(current_modifiers(0, 0, 0, -1, -1), 8);
    assert_eq!(current_modifiers(-1, -1, -1, 0, -1), 15);
}

#[test]
fn held_modifiers_are_shown() {
    let mods = current_modifiers(-1, 0, -1, 0, 0);
    assert_eq!(hotkey_parts(pack(mods, 0x42)), vec!["Ctrl", "Shift", "B"]);
}

#[test]
fn hotkeys_act() {
    assert_eq!(on_message(WM_HOTKEY, HK_SAVE, 0), HotkeyAction::SaveClip);
    assert_eq!(on_message(WM_HOTKEY, HK_OVERLAY, 0), HotkeyAction::ToggleOverlay);
    assert_eq!(on_message(WM_HOTKEY, 3, 0), HotkeyAction::Ignore);
    assert_eq!(on_message(0x10, HK_SAVE, 0), HotkeyAction::Ignore);
}

#[test]
fn the_save_hotkey_never_takes_the_overlays_combination() {
    assert_eq!(on_message(WM_REREGISTER_HK, 0, pack(6, VK_F9)), HotkeyAction::Refuse);
    assert_eq!(
        on_message(WM_REREGISTER_HK, 0, pack(7, VK_F9)),
        HotkeyAction::Register { mods: 7, vk: VK_F9 }
    );
    assert_eq!(
        on_message(WM_REREGISTER_HK, 0, pack(6, 0x77)),
        HotkeyAction::Register { mods: 6, vk: 0x77 }
    );
}

#[test]
fn keys_are_taken_while_a_hotkey_is_picked() {
    assert_eq!(on_key(0, WM_KEYDOWN, 0x42, true, 6), KeyAction::Report(pack(6, 0x42)));
    assert_eq!(on_key(0, WM_SYSKEYDOWN, 0x42, true, 1), KeyAction::Report(pack(1, 0x42)));
    assert_eq!(on_key(0, WM_KEYDOWN, VK_ESCAPE, true, 6), KeyAction::Report(0));
    assert_eq!(on_key(0, WM_KEYDOWN, 0x42, false, 6), KeyAction::Swallow);
    assert_eq!(on_key(0, WM_KEYDOWN, 0xA2, true, 2), KeyAction::PassOn);
    assert_eq!(on_key(0, WM_KEYDOWN + 1, 0x42, true, 0), KeyAction::PassOn);
    assert_eq!(on_key(-1, WM_KEYDOWN, 0x42, true, 0), KeyAction::PassOn);
}

#[test]
fn a_picked_hotkey_is_kept_and_none_changes_nothing() {
    assert_eq!(on_captured(5, pack(6, 0x42)), (pack(6, 0x42), true));
    assert_eq!(on_captured(5, 0), (5, false));
}
