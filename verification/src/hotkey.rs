//! Hotkeys: how one is kept, shown, picked by the user and answered.

use crate::text::{
    decimal, digits, law_digits_are_worth_the_number, push_decimal, push_number, texts, worth,
    zero_padded,
};
use vstd::prelude::*;

verus! {

/// The modifier keys, as `RegisterHotKey` counts them.
pub const MOD_ALT: u32 = 0x0001;

pub const MOD_CONTROL: u32 = 0x0002;

pub const MOD_SHIFT: u32 = 0x0004;

pub const MOD_WIN: u32 = 0x0008;

/// Virtual key codes with a meaning of their own.
pub const VK_ESCAPE: u32 = 0x1B;

pub const VK_F9: u32 = 0x78;

/// The hotkeys by the numbers under which they are registered.
pub const HK_SAVE: i32 = 1;

pub const HK_OVERLAY: i32 = 2;

/// Window messages.
pub const WM_KEYDOWN: u32 = 0x0100;

pub const WM_SYSKEYDOWN: u32 = 0x0104;

pub const WM_HOTKEY: u32 = 0x0312;

/// Posted to the hotkey thread to have the save hotkey registered anew.
pub const WM_REREGISTER_HK: u32 = 0x8001;

/// What a message to the hotkey thread calls for.
#[derive(Clone, Copy, PartialEq, Eq, Structural, Debug)]
pub enum HotkeyAction {
    Ignore,
    SaveClip,
    ToggleOverlay,
    /// The combination asked for is the overlay's: the save hotkey stays as it is.
    Refuse,
    /// The save hotkey is registered anew.
    Register { mods: u32, vk: u32 },
}

/// What becomes of a key that is pressed while the user picks a hotkey.
#[derive(Clone, Copy, PartialEq, Eq, Structural, Debug)]
pub enum KeyAction {
    /// The key goes on to whom it was meant for.
    PassOn,
    /// The key is kept from everyone.
    Swallow,
    /// The key is kept from everyone, and the hotkey picked is reported: zero for none.
    Report(u64),
}

/// A hotkey in one number: its modifiers above its key.
pub open spec fn packed_of(mods: u32, vk: u32) -> u64 {
    (mods * 0x1_0000_0000 + vk) as u64
}

/// The modifiers of a packed hotkey.
pub open spec fn mods_of(packed: u64) -> u32 {
    (packed / 0x1_0000_0000) as u32
}

/// The key of a packed hotkey.
pub open spec fn vk_of(packed: u64) -> u32 {
    (packed % 0x1_0000_0000) as u32
}

/// One name, or none.
pub open spec fn named(on: bool, name: Seq<char>) -> Seq<Seq<char>> {
    if on {
        seq![name]
    } else {
        Seq::empty()
    }
}

/// The names of modifier keys, in the order in which they are shown.
pub open spec fn mod_names(mods: u32) -> Seq<Seq<char>> {
    named(mods & MOD_CONTROL != 0, "Ctrl"@) + named(mods & MOD_ALT != 0, "Alt"@) + named(
        mods & MOD_SHIFT != 0,
        "Shift"@,
    ) + named(mods & MOD_WIN != 0, "Win"@)
}

/// Each name with a plus sign behind it.
pub open spec fn with_pluses(names: Seq<Seq<char>>) -> Seq<char>
    decreases names.len(),
{
    if names.len() == 0 {
        Seq::empty()
    } else {
        with_pluses(names.drop_last()) + names.last().push('+')
    }
}

/// A key by its code: `VK` and two hexadecimal digits, or more where it takes more.
pub open spec fn vk_code(vk: u32) -> Seq<char> {
    "VK"@ + zero_padded(digits(vk as nat, 16), 2)
}

/// A hotkey as the log shows it.
pub open spec fn hotkey_text(packed: u64) -> Seq<char> {
    with_pluses(mod_names(mods_of(packed))) + vk_code(vk_of(packed))
}

/// The name of a key that has a word for a name.
pub open spec fn key_word(v: u32) -> Option<Seq<char>> {
    if 0x70 <= v <= 0x7B {
        Some("F"@ + decimal((v - 0x6F) as nat))
    } else if v == 0x20 {
        Some("Space"@)
    } else if v == 0x0D {
        Some("Enter"@)
    } else if v == 0x09 {
        Some("Tab"@)
    } else if v == 0x08 {
        Some("Backspace"@)
    } else if v == 0x2E {
        Some("Del"@)
    } else if v == 0x2D {
        Some("Ins"@)
    } else if v == 0x24 {
        Some("Home"@)
    } else if v == 0x23 {
        Some("End"@)
    } else if v == 0x21 {
        Some("PgUp"@)
    } else if v == 0x22 {
        Some("PgDn"@)
    } else if v == 0x25 {
        Some("Left"@)
    } else if v == 0x27 {
        Some("Right"@)
    } else if v == 0x26 {
        Some("Up"@)
    } else if v == 0x28 {
        Some("Down"@)
    } else {
        None
    }
}

/// A key as the panel shows it: by its word, its digit or letter, or else its code. A word goes
/// by the lower half of the code alone.
pub open spec fn key_name(vk: u32) -> Seq<char> {
    match key_word(vk % 0x10000) {
        Some(w) => w,
        None => if 0x30 <= vk <= 0x39 || 0x41 <= vk <= 0x5A {
            seq![vk as char]
        } else {
            vk_code(vk)
        },
    }
}

/// A hotkey as the panel shows it, one part for each key.
pub open spec fn part_names(packed: u64) -> Seq<Seq<char>> {
    mod_names(mods_of(packed)) + named(vk_of(packed) != 0, key_name(vk_of(packed)))
}

/// Whether a key is a modifier: Shift, Ctrl, Alt, Win, or one of their left and right ones.
pub open spec fn is_modifier(vk: u32) -> bool {
    0x10 <= vk <= 0x12 || 0x5B <= vk <= 0x5C || 0xA0 <= vk <= 0xA5
}

/// The modifiers that are held: a key's state is negative while it is down.
pub open spec fn held(control: i16, alt: i16, shift: i16, left_win: i16, right_win: i16) -> u32 {
    ((if control < 0 {
        MOD_CONTROL as int
    } else {
        0
    }) + (if alt < 0 {
        MOD_ALT as int
    } else {
        0
    }) + (if shift < 0 {
        MOD_SHIFT as int
    } else {
        0
    }) + (if left_win < 0 || right_win < 0 {
        MOD_WIN as int
    } else {
        0
    })) as u32
}

/// Whether a hotkey is the one that toggles the overlay, Shift + Ctrl + F9.
pub open spec fn is_overlay_hotkey(mods: u32, vk: u32) -> bool {
    mods == MOD_SHIFT + MOD_CONTROL && vk == VK_F9
}

/// What a message to the hotkey thread calls for, where `packed` is the save hotkey wanted.
pub open spec fn message_action(message: u32, id: i32, packed: u64) -> HotkeyAction {
    if message == WM_HOTKEY {
        if id == HK_SAVE {
            HotkeyAction::SaveClip
        } else if id == HK_OVERLAY {
            HotkeyAction::ToggleOverlay
        } else {
            HotkeyAction::Ignore
        }
    } else if message == WM_REREGISTER_HK {
        if is_overlay_hotkey(mods_of(packed), vk_of(packed)) {
            HotkeyAction::Refuse
        } else {
            HotkeyAction::Register { mods: mods_of(packed), vk: vk_of(packed) }
        }
    } else {
        HotkeyAction::Ignore
    }
}

/// What becomes of a key event while the user picks a hotkey: a modifier, a key that is let go
/// and an event that is not ours to take go on; Escape picks none.
pub open spec fn key_action(code: i32, event: u32, vk: u32, listening: bool, mods: u32) -> KeyAction {
    if code >= 0 && (event == WM_KEYDOWN || event == WM_SYSKEYDOWN) && !is_modifier(vk) {
        if !listening {
            KeyAction::Swallow
        } else if vk == VK_ESCAPE {
            KeyAction::Report(0)
        } else {
            KeyAction::Report(packed_of(mods, vk))
        }
    } else {
        KeyAction::PassOn
    }
}

/// The hotkey to keep once one is reported, and whether it is to be registered anew.
pub open spec fn kept_hotkey(current: u64, reported: u64) -> (u64, bool) {
    if reported == 0 {
        (current, false)
    } else {
        (reported, true)
    }
}

/// A hotkey in one number.
pub fn pack(mods: u32, vk: u32) -> (packed: u64)
    ensures
        packed == packed_of(mods, vk),
{
    mods as u64 * 0x1_0000_0000 + vk as u64
}

/// The modifiers and the key of a packed hotkey.
pub fn unpack(packed: u64) -> (r: (u32, u32))
    ensures
        r.0 == mods_of(packed),
        r.1 == vk_of(packed),
{
    ((packed / 0x1_0000_0000) as u32, (packed % 0x1_0000_0000) as u32)
}

/// Appends the name to the list where `on` holds.
fn push_named(list: &mut Vec<String>, on: bool, name: &str)
    ensures
        texts(final(list)@) == texts(old(list)@) + named(on, name@),
{
    let ghost before = list@;
    if on {
        list.push(name.to_owned());
        assert(texts(list@) =~= texts(before).push(name@));
    }
    assert(texts(list@) =~= texts(before) + named(on, name@));
}

fn modifier_names(mods: u32) -> (list: Vec<String>)
    ensures
        texts(list@) == mod_names(mods),
{
    let mut list: Vec<String> = Vec::new();
    assert(texts(list@) =~= Seq::<Seq<char>>::empty());
    push_named(&mut list, mods & MOD_CONTROL != 0, "Ctrl");
    push_named(&mut list, mods & MOD_ALT != 0, "Alt");
    push_named(&mut list, mods & MOD_SHIFT != 0, "Shift");
    push_named(&mut list, mods & MOD_WIN != 0, "Win");
    assert(texts(list@) =~= mod_names(mods));
    list
}

fn push_vk_code(out: &mut String, vk: u32)
    ensures
        final(out)@ == old(out)@ + vk_code(vk),
{
    let ghost before = out@;
    out.push_str("VK");
    push_number(out, vk as u64, 16, 2);
    assert(out@ =~= before + vk_code(vk));
}

/// A hotkey as the log shows it, such as `Ctrl+Shift+VK77`.
pub fn fmt_hotkey(packed: u64) -> (s: String)
    ensures
        s@ == hotkey_text(packed),
{
    let (mods, vk) = unpack(packed);
    let names = modifier_names(mods);
    let mut s = String::new();
    let mut i: usize = 0;
    assert(texts(names@).take(0) =~= Seq::<Seq<char>>::empty());
    while i < names.len()
        invariant
            i <= names@.len(),
            s@ == with_pluses(texts(names@).take(i as int)),
        decreases names@.len() - i,
    {
        let ghost before = s@;
        s.push_str(names[i].as_str());
        s.push('+');
        proof {
            let upto = texts(names@).take(i + 1);
            assert(upto.drop_last() =~= texts(names@).take(i as int));
            assert(upto.last() == names@[i as int]@);
            assert(s@ =~= before + names@[i as int]@.push('+'));
        }
        i = i + 1;
    }
    assert(texts(names@).take(i as int) =~= texts(names@));
    push_vk_code(&mut s, vk);
    s
}

fn word_of_key(v: u32) -> (r: Option<&'static str>)
    requires
        !(0x70 <= v <= 0x7B),
    ensures
        r is Some <==> key_word(v) is Some,
        r matches Some(w) ==> key_word(v) == Some(w@),
{
    match v {
        0x20 => Some("Space"),
        0x0D => Some("Enter"),
        0x09 => Some("Tab"),
        0x08 => Some("Backspace"),
        0x2E => Some("Del"),
        0x2D => Some("Ins"),
        0x24 => Some("Home"),
        0x23 => Some("End"),
        0x21 => Some("PgUp"),
        0x22 => Some("PgDn"),
        0x25 => Some("Left"),
        0x27 => Some("Right"),
        0x26 => Some("Up"),
        0x28 => Some("Down"),
        _ => None,
    }
}

/// A key as the panel shows it, such as `F8`, `Space`, `A` or `VKBA`.
pub fn vk_name(vk: u32) -> (s: String)
    ensures
        s@ == key_name(vk),
{
    let v: u32 = vk % 0x10000;
    let mut s = String::new();
    if 0x70 <= v && v <= 0x7B {
        s.push_str("F");
        push_decimal(&mut s, (v - 0x6F) as u64);
        assert(s@ =~= "F"@ + decimal((v - 0x6F) as nat));
        return s;
    }
    if let Some(w) = word_of_key(v) {
        s.push_str(w);
        assert(s@ =~= w@);
        return s;
    }
    if (0x30 <= vk && vk <= 0x39) || (0x41 <= vk && vk <= 0x5A) {
        s.push(vk as u8 as char);
        assert(s@ =~= seq![vk as char]);
        return s;
    }
    push_vk_code(&mut s, vk);
    assert(s@ =~= vk_code(vk));
    s
}

/// A hotkey as the panel shows it, one part for each key.
pub fn hotkey_parts(packed: u64) -> (list: Vec<String>)
    ensures
        texts(list@) == part_names(packed),
{
    let (mods, vk) = unpack(packed);
    let mut list = modifier_names(mods);
    let name = vk_name(vk);
    push_named(&mut list, vk != 0, name.as_str());
    list
}

/// Whether a key is a modifier.
pub fn is_modifier_vk(vk: u32) -> (r: bool)
    ensures
        r == is_modifier(vk),
{
    (0x10 <= vk && vk <= 0x12) || (0x5B <= vk && vk <= 0x5C) || (0xA0 <= vk && vk <= 0xA5)
}

/// The modifiers that are held, from the states of the five keys.
pub fn current_modifiers(control: i16, alt: i16, shift: i16, left_win: i16, right_win: i16) -> (m:
    u32)
    ensures
        m == held(control, alt, shift, left_win, right_win),
{
    let mut m: u32 = 0;
    if control < 0 {
        m = m + MOD_CONTROL;
    }
    if alt < 0 {
        m = m + MOD_ALT;
    }
    if shift < 0 {
        m = m + MOD_SHIFT;
    }
    if left_win < 0 || right_win < 0 {
        m = m + MOD_WIN;
    }
    m
}

/// What a message to the hotkey thread calls for, where `packed` is the save hotkey wanted.
pub fn on_message(message: u32, id: i32, packed: u64) -> (a: HotkeyAction)
    ensures
        a == message_action(message, id, packed),
{
    if message == WM_HOTKEY {
        if id == HK_SAVE {
            HotkeyAction::SaveClip
        } else if id == HK_OVERLAY {
            HotkeyAction::ToggleOverlay
        } else {
            HotkeyAction::Ignore
        }
    } else if message == WM_REREGISTER_HK {
        let (mods, vk) = unpack(packed);
        if mods == MOD_SHIFT + MOD_CONTROL && vk == VK_F9 {
            HotkeyAction::Refuse
        } else {
            HotkeyAction::Register { mods, vk }
        }
    } else {
        HotkeyAction::Ignore
    }
}

/// What becomes of a key event while the user picks a hotkey. `listening` says whether there is
/// a window to report to, and `mods` which modifiers are held.
pub fn on_key(code: i32, event: u32, vk: u32, listening: bool, mods: u32) -> (a: KeyAction)
    ensures
        a == key_action(code, event, vk, listening, mods),
{
    if code >= 0 && (event == WM_KEYDOWN || event == WM_SYSKEYDOWN) && !is_modifier_vk(vk) {
        if !listening {
            KeyAction::Swallow
        } else if vk == VK_ESCAPE {
            KeyAction::Report(0)
        } else {
            KeyAction::Report(pack(mods, vk))
        }
    } else {
        KeyAction::PassOn
    }
}

/// The hotkey to keep once one is reported, and whether it is to be registered anew: a report
/// of zero changes nothing.
pub fn on_captured(current: u64, reported: u64) -> (r: (u64, bool))
    ensures
        r.0 == if reported != 0 {
            reported
        } else {
            current
        },
        r.1 == (reported != 0),
        r == kept_hotkey(current, reported),
{
    if reported != 0 {
        (reported, true)
    } else {
        (current, false)
    }
}

/// A hotkey's two halves come out of the number they were put into.
pub proof fn law_hotkey_unpacks(mods: u32, vk: u32)
    ensures
        mods_of(packed_of(mods, vk)) == mods,
        vk_of(packed_of(mods, vk)) == vk,
{
}

/// The number that keeps a hotkey is the one its halves make.
pub proof fn law_hotkey_packs(packed: u64)
    ensures
        packed_of(mods_of(packed), vk_of(packed)) == packed,
{
}

/// A hotkey has five keys at most, and no key's name is longer than ten characters.
pub proof fn law_names_are_short(packed: u64)
    ensures
        part_names(packed).len() <= 5,
        forall|i: int|
            0 <= i < part_names(packed).len() ==> 1 <= (#[trigger] part_names(packed)[i]).len()
                <= 10,
{
    let vk = vk_of(packed);
    lemma_names_are_short(vk);
    reveal_strlit("Ctrl");
    reveal_strlit("Alt");
    reveal_strlit("Shift");
    reveal_strlit("Win");
}

proof fn lemma_names_are_short(vk: u32)
    ensures
        1 <= key_name(vk).len() <= 10,
{
    reveal_strlit("F");
    reveal_strlit("VK");
    reveal_strlit("Space");
    reveal_strlit("Enter");
    reveal_strlit("Tab");
    reveal_strlit("Backspace");
    reveal_strlit("Del");
    reveal_strlit("Ins");
    reveal_strlit("Home");
    reveal_strlit("End");
    reveal_strlit("PgUp");
    reveal_strlit("PgDn");
    reveal_strlit("Left");
    reveal_strlit("Right");
    reveal_strlit("Up");
    reveal_strlit("Down");
    reveal_with_fuel(digits, 9);
}

/// The save hotkey is never registered on the overlay's combination.
pub proof fn law_overlay_hotkey_is_safe(message: u32, id: i32, packed: u64)
    ensures
        message_action(message, id, packed) matches HotkeyAction::Register { mods, vk }
            ==> !is_overlay_hotkey(mods, vk),
{
}

/// The modifiers shown are the ones that were held.
pub proof fn law_held_modifiers_are_shown(
    control: i16,
    alt: i16,
    shift: i16,
    left_win: i16,
    right_win: i16,
)
    ensures
        mod_names(held(control, alt, shift, left_win, right_win)) == named(control < 0, "Ctrl"@)
            + named(alt < 0, "Alt"@) + named(shift < 0, "Shift"@) + named(
            left_win < 0 || right_win < 0,
            "Win"@,
        ),
{
    let c = control < 0;
    let a = alt < 0;
    let s = shift < 0;
    let w = left_win < 0 || right_win < 0;
    let m = held(control, alt, shift, left_win, right_win);
    assert((m & 2 != 0 <==> c) && (m & 1 != 0 <==> a) && (m & 4 != 0 <==> s) && (m & 8 != 0 <==> w))
        by (bit_vector)
        requires
            m == (if c {
                2u32
            } else {
                0u32
            }) + (if a {
                1u32
            } else {
                0u32
            }) + (if s {
                4u32
            } else {
                0u32
            }) + (if w {
                8u32
            } else {
                0u32
            }),
    ;
}

/// A hotkey that the user picks is reported with the key pressed and the modifiers held, and it
/// is kept unless it is Escape.
pub proof fn law_picked_hotkey_is_kept(code: i32, event: u32, vk: u32, mods: u32)
    requires
        code >= 0,
        event == WM_KEYDOWN || event == WM_SYSKEYDOWN,
        !is_modifier(vk),
        vk != 0,
    ensures
        vk == VK_ESCAPE ==> key_action(code, event, vk, true, mods) == KeyAction::Report(0),
        vk != VK_ESCAPE ==> key_action(code, event, vk, true, mods) == KeyAction::Report(
            packed_of(mods, vk),
        ) && packed_of(mods, vk) != 0,
{
}

/// A hotkey that is asked for is registered with exactly its modifiers and its key; it is refused
/// only where it is Shift, Ctrl and F9.
pub proof fn law_hotkey_asked_for_is_registered(mods: u32, vk: u32, id: i32)
    ensures
        ({
            let action = message_action(0x8001, id, (mods * 0x1_0000_0000 + vk) as u64);
            &&& mods == 6 && vk == 0x78 ==> action == HotkeyAction::Refuse
            &&& !(mods == 6 && vk == 0x78) ==> action == (HotkeyAction::Register { mods, vk })
        }),
{
}

/// The first hotkey saves a clip and the second toggles the overlay, whatever save hotkey is
/// wanted; no other hotkey does anything, and neither does any other message.
pub proof fn law_hotkeys_do_their_own(message: u32, id: i32, packed: u64)
    ensures
        message_action(0x0312, 1, packed) == HotkeyAction::SaveClip,
        message_action(0x0312, 2, packed) == HotkeyAction::ToggleOverlay,
        id != 1 && id != 2 ==> message_action(0x0312, id, packed) == HotkeyAction::Ignore,
        message != 0x0312 && message != 0x8001 ==> message_action(message, id, packed)
            == HotkeyAction::Ignore,
{
}

/// The modifier keys are Shift, Ctrl and Alt, the two Win keys, and the left and right ones of
/// the first three.
pub proof fn law_modifier_keys(vk: u32)
    ensures
        is_modifier(vk) <==> vk == 0x10 || vk == 0x11 || vk == 0x12 || vk == 0x5B || vk == 0x5C
            || vk == 0xA0 || vk == 0xA1 || vk == 0xA2 || vk == 0xA3 || vk == 0xA4 || vk == 0xA5,
{
}

/// While a hotkey is picked, modifiers, keys that are let go and events of others go on; every
/// key that goes down otherwise is kept, and reported where somebody listens: Escape as zero,
/// any other one with its modifiers above it.
pub proof fn law_keys_are_reported(code: i32, event: u32, vk: u32, mods: u32)
    ensures
        ({
            let down = code >= 0 && (event == 0x0100 || event == 0x0104) && !is_modifier(vk);
            let heard = key_action(code, event, vk, true, mods);
            let unheard = key_action(code, event, vk, false, mods);
            &&& !down ==> heard == KeyAction::PassOn && unheard == KeyAction::PassOn
            &&& down ==> unheard == KeyAction::Swallow
            &&& down && vk == 0x1B ==> heard == KeyAction::Report(0)
            &&& down && vk != 0x1B ==> heard == KeyAction::Report(
                (mods * 0x1_0000_0000 + vk) as u64,
            )
        }),
{
}

/// A combination that the user presses while picking becomes the save hotkey: what is reported is
/// kept, and asked for again is registered as it was pressed. Escape keeps the hotkey as it was.
pub proof fn law_pressed_hotkey_is_registered(
    code: i32,
    event: u32,
    vk: u32,
    mods: u32,
    current: u64,
    reported: u64,
    id: i32,
)
    requires
        code >= 0,
        event == 0x0100 || event == 0x0104,
        !is_modifier(vk),
        vk != 0,
        key_action(code, event, vk, true, mods) == KeyAction::Report(reported),
    ensures
        vk == 0x1B ==> kept_hotkey(current, reported) == (current, false),
        vk != 0x1B ==> kept_hotkey(current, reported).1,
        vk != 0x1B && !(mods == 6 && vk == 0x78) ==> message_action(
            0x8001,
            id,
            kept_hotkey(current, reported).0,
        ) == (HotkeyAction::Register { mods, vk }),
{
}

/// Each modifier that is held has its own bit: Alt the lowest, then Ctrl, Shift and Win, of which
/// either key counts.
pub proof fn law_held_modifiers_have_their_bits(
    control: i16,
    alt: i16,
    shift: i16,
    left_win: i16,
    right_win: i16,
)
    ensures
        ({
            let m = held(control, alt, shift, left_win, right_win);
            &&& m % 2 == 1 <==> alt < 0
            &&& m / 2 % 2 == 1 <==> control < 0
            &&& m / 4 % 2 == 1 <==> shift < 0
            &&& m / 8 % 2 == 1 <==> left_win < 0 || right_win < 0
            &&& m < 16
        }),
{
}

/// One where it holds, zero where it does not.
pub open spec fn counted(b: bool) -> int {
    if b {
        1
    } else {
        0
    }
}

/// The names of the modifiers are those whose bits are set, Ctrl before Alt before Shift before
/// Win, and no others.
pub proof fn law_modifiers_are_named_in_turn(mods: u32)
    ensures
        ({
            let control = mods / 2 % 2 == 1;
            let alt = mods % 2 == 1;
            let shift = mods / 4 % 2 == 1;
            let win = mods / 8 % 2 == 1;
            let names = mod_names(mods);
            &&& control ==> names[0] == "Ctrl"@
            &&& alt ==> names[counted(control)] == "Alt"@
            &&& shift ==> names[counted(control) + counted(alt)] == "Shift"@
            &&& win ==> names[counted(control) + counted(alt) + counted(shift)] == "Win"@
            &&& names.len() == counted(control) + counted(alt) + counted(shift) + counted(win)
        }),
{
    assert((mods & 2 != 0 <==> mods / 2 % 2 == 1) && (mods & 1 != 0 <==> mods % 2 == 1) && (mods & 4
        != 0 <==> mods / 4 % 2 == 1) && (mods & 8 != 0 <==> mods / 8 % 2 == 1)) by (bit_vector);
}

/// A hotkey is shown with its modifiers and then its key; where it has no key, with its modifiers
/// alone.
pub proof fn law_key_is_shown_last(mods: u32, vk: u32)
    ensures
        ({
            let parts = part_names((mods * 0x1_0000_0000 + vk) as u64);
            &&& vk == 0 ==> parts == mod_names(mods)
            &&& vk != 0 ==> parts == mod_names(mods).push(key_name(vk))
        }),
{
    let parts = part_names((mods * 0x1_0000_0000 + vk) as u64);
    if vk == 0 {
        assert(parts =~= mod_names(mods));
    } else {
        assert(parts =~= mod_names(mods).push(key_name(vk)));
    }
}

/// Letters and digits are shown as themselves, and the twelve function keys by their numbers.
pub proof fn law_plain_keys_show_themselves(vk: u32, n: u32)
    ensures
        'A' as u32 <= vk <= 'Z' as u32 ==> key_name(vk) == seq![vk as char],
        '0' as u32 <= vk <= '9' as u32 ==> key_name(vk) == seq![vk as char],
        1 <= n <= 12 ==> key_name((0x70 + n - 1) as u32) == "F"@ + decimal(n as nat),
{
}

/// Keys that have a word for a name are shown by it, whatever the upper half of their code holds.
pub proof fn law_keys_have_their_words(high: u32)
    requires
        high < 0x10000,
    ensures
        ({
            let h = high * 0x10000;
            &&& key_name((h + 0x08) as u32) == "Backspace"@
            &&& key_name((h + 0x09) as u32) == "Tab"@
            &&& key_name((h + 0x0D) as u32) == "Enter"@
            &&& key_name((h + 0x20) as u32) == "Space"@
            &&& key_name((h + 0x21) as u32) == "PgUp"@
            &&& key_name((h + 0x22) as u32) == "PgDn"@
            &&& key_name((h + 0x23) as u32) == "End"@
            &&& key_name((h + 0x24) as u32) == "Home"@
            &&& key_name((h + 0x25) as u32) == "Left"@
            &&& key_name((h + 0x26) as u32) == "Up"@
            &&& key_name((h + 0x27) as u32) == "Right"@
            &&& key_name((h + 0x28) as u32) == "Down"@
            &&& key_name((h + 0x2D) as u32) == "Ins"@
            &&& key_name((h + 0x2E) as u32) == "Del"@
        }),
{
}

/// Every other key is shown by its code: two letters, and hexadecimal digits that are worth it,
/// two of them at least.
pub proof fn law_other_keys_show_their_codes(vk: u32)
    requires
        !(0x70 <= vk % 0x10000 <= 0x7B),
        !(0x20 <= vk % 0x10000 <= 0x28),
        vk % 0x10000 != 0x08,
        vk % 0x10000 != 0x09,
        vk % 0x10000 != 0x0D,
        vk % 0x10000 != 0x2D,
        vk % 0x10000 != 0x2E,
        !(0x30 <= vk <= 0x39),
        !(0x41 <= vk <= 0x5A),
    ensures
        key_name(vk) == vk_code(vk),
        vk_code(vk).len() >= 4,
        vk_code(vk)[0] == 'V',
        vk_code(vk)[1] == 'K',
        worth(vk_code(vk).skip(2), 16) == vk,
{
    reveal_strlit("VK");
    lemma_code_is_worth_the_key(vk);
}

proof fn lemma_code_is_worth_the_key(vk: u32)
    ensures
        worth(vk_code(vk).skip(2), 16) == vk,
{
    reveal_strlit("VK");
    law_digits_are_worth_the_number(vk as nat, 16);
    let ds = digits(vk as nat, 16);
    let code = vk_code(vk).skip(2);
    if ds.len() >= 2 {
        assert(code =~= ds);
    } else {
        assert(code =~= seq!['0', ds[0]]);
        assert(code.drop_last() =~= seq!['0']);
        assert(ds.drop_last() =~= Seq::<char>::empty());
        assert(seq!['0'].drop_last() =~= Seq::<char>::empty());
        reveal_with_fuel(worth, 3);
    }
}

/// The log shows a hotkey as its modifiers, each with a plus sign behind it, and the code of its
/// key.
pub proof fn law_log_shows_the_whole_hotkey(mods: u32, vk: u32)
    ensures
        hotkey_text((mods * 0x1_0000_0000 + vk) as u64) == (if mods / 2 % 2 == 1 {
            "Ctrl+"@
        } else {
            ""@
        }) + (if mods % 2 == 1 {
            "Alt+"@
        } else {
            ""@
        }) + (if mods / 4 % 2 == 1 {
            "Shift+"@
        } else {
            ""@
        }) + (if mods / 8 % 2 == 1 {
            "Win+"@
        } else {
            ""@
        }) + "VK"@ + zero_padded(digits(vk as nat, 16), 2),
{
    assert((mods & 2 != 0 <==> mods / 2 % 2 == 1) && (mods & 1 != 0 <==> mods % 2 == 1) && (mods & 4
        != 0 <==> mods / 4 % 2 == 1) && (mods & 8 != 0 <==> mods / 8 % 2 == 1)) by (bit_vector);
    let none = Seq::<Seq<char>>::empty();
    let a = none + named(mods & MOD_CONTROL != 0, "Ctrl"@);
    let b = a + named(mods & MOD_ALT != 0, "Alt"@);
    let c = b + named(mods & MOD_SHIFT != 0, "Shift"@);
    let d = c + named(mods & MOD_WIN != 0, "Win"@);
    assert(d =~= mod_names(mods));
    reveal_strlit("");
    assert(""@ =~= Seq::<char>::empty());
    assert(with_pluses(none) =~= ""@);
    reveal_strlit("Ctrl");
    reveal_strlit("Ctrl+");
    assert("Ctrl+"@ =~= "Ctrl"@.push('+'));
    reveal_strlit("Alt");
    reveal_strlit("Alt+");
    assert("Alt+"@ =~= "Alt"@.push('+'));
    reveal_strlit("Shift");
    reveal_strlit("Shift+");
    assert("Shift+"@ =~= "Shift"@.push('+'));
    reveal_strlit("Win");
    reveal_strlit("Win+");
    assert("Win+"@ =~= "Win"@.push('+'));
    lemma_plus_behind(none, mods & MOD_CONTROL != 0, "Ctrl"@);
    lemma_plus_behind(a, mods & MOD_ALT != 0, "Alt"@);
    lemma_plus_behind(b, mods & MOD_SHIFT != 0, "Shift"@);
    lemma_plus_behind(c, mods & MOD_WIN != 0, "Win"@);
    let front = with_pluses(mod_names(mods));
    assert(front + vk_code(vk) =~= front + "VK"@ + zero_padded(digits(vk as nat, 16), 2));
}

proof fn lemma_plus_behind(names: Seq<Seq<char>>, on: bool, name: Seq<char>)
    ensures
        with_pluses(names + named(on, name)) == with_pluses(names) + (if on {
            name.push('+')
        } else {
            ""@
        }),
{
    let more = names + named(on, name);
    if on {
        assert(more.drop_last() =~= names);
    } else {
        reveal_strlit("");
        assert(more =~= names);
        assert(with_pluses(names) + ""@ =~= with_pluses(names));
    }
}

} // verus!
