//! The icon in the system tray and its menu.

use crate::overlay::{WM_CREATE, WM_DESTROY, WM_TIMER};
use vstd::prelude::*;

verus! {

/// The message that the icon sends.
pub const WM_TRAYICON: u32 = 0x8001;

pub const WM_COMMAND: u32 = 0x0111;

pub const WM_LBUTTONDBLCLK: u32 = 0x0203;

pub const WM_RBUTTONUP: u32 = 0x0205;

// The commands of the menu.
pub const IDM_SAVE: u64 = 100;

pub const IDM_SETTINGS: u64 = 101;

pub const IDM_EXIT: u64 = 102;

pub const IDM_OPEN_FOLDER: u64 = 103;

/// The timer that keeps the list of segments up to date.
pub const TIMER_STATS: u64 = 1;

/// What a message to the tray's window calls for.
#[derive(Clone, Copy, PartialEq, Eq, Structural, Debug)]
pub enum TrayAction {
    /// It is left to the system.
    PassOn,
    Nothing,
    Create,
    Destroy,
    ShowMenu,
    SaveClip,
    ToggleSettings,
    OpenFolder,
    Exit,
    /// The segments are looked through, and the clips that were saved are announced.
    Tick,
}

/// An entry of the menu: its command and its words, or a line between entries.
#[derive(Clone, Copy)]
pub struct MenuItem {
    pub command: u64,
    pub label: Option<&'static str>,
}

/// The action of a command of the menu.
pub open spec fn command_action(id: int) -> TrayAction {
    if id == IDM_SAVE {
        TrayAction::SaveClip
    } else if id == IDM_SETTINGS {
        TrayAction::ToggleSettings
    } else if id == IDM_OPEN_FOLDER {
        TrayAction::OpenFolder
    } else if id == IDM_EXIT {
        TrayAction::Exit
    } else {
        TrayAction::Nothing
    }
}

/// What a message to the tray's window calls for. A command is in the lowest 16 bits of `wparam`,
/// what was done to the icon in the lowest 16 bits of `lparam`.
pub open spec fn action_of(message: u32, wparam: u64, lparam: u32) -> TrayAction {
    if message == WM_CREATE {
        TrayAction::Create
    } else if message == WM_DESTROY {
        TrayAction::Destroy
    } else if message == WM_TRAYICON {
        if lparam % 0x10000 == WM_RBUTTONUP || lparam % 0x10000 == WM_LBUTTONDBLCLK {
            TrayAction::ShowMenu
        } else {
            TrayAction::Nothing
        }
    } else if message == WM_COMMAND {
        command_action((wparam % 0x10000) as int)
    } else if message == WM_TIMER {
        if wparam == TIMER_STATS {
            TrayAction::Tick
        } else {
            TrayAction::Nothing
        }
    } else {
        TrayAction::PassOn
    }
}

/// An entry of the menu as values.
pub open spec fn entry_of(item: MenuItem) -> (u64, Option<Seq<char>>) {
    (
        item.command,
        match item.label {
            Some(l) => Some(l@),
            None => None,
        },
    )
}

/// The menu, from the top down.
pub open spec fn menu_entries() -> Seq<(u64, Option<Seq<char>>)> {
    seq![
        (IDM_SAVE, Some("Save Clip"@)),
        (IDM_OPEN_FOLDER, Some("Open Clips Folder"@)),
        (IDM_SETTINGS, Some("Settings..."@)),
        (0u64, None),
        (IDM_EXIT, Some("Exit"@)),
    ]
}

/// What a message to the tray's window calls for.
pub fn tray_action(message: u32, wparam: u64, lparam: u32) -> (a: TrayAction)
    ensures
        a == action_of(message, wparam, lparam),
{
    match message {
        WM_CREATE => TrayAction::Create,
        WM_DESTROY => TrayAction::Destroy,
        WM_TRAYICON => {
            let event: u32 = lparam % 0x10000;
            if event == WM_RBUTTONUP || event == WM_LBUTTONDBLCLK {
                TrayAction::ShowMenu
            } else {
                TrayAction::Nothing
            }
        },
        WM_COMMAND => match wparam % 0x10000 {
            IDM_SAVE => TrayAction::SaveClip,
            IDM_SETTINGS => TrayAction::ToggleSettings,
            IDM_OPEN_FOLDER => TrayAction::OpenFolder,
            IDM_EXIT => TrayAction::Exit,
            _ => TrayAction::Nothing,
        },
        WM_TIMER => if wparam == TIMER_STATS {
            TrayAction::Tick
        } else {
            TrayAction::Nothing
        },
        _ => TrayAction::PassOn,
    }
}

/// The menu, from the top down.
pub fn menu_items() -> (items: Vec<MenuItem>)
    ensures
        items@.map_values(|i: MenuItem| entry_of(i)) == menu_entries(),
{
    let items: Vec<MenuItem> = vec![
        MenuItem { command: IDM_SAVE, label: Some("Save Clip") },
        MenuItem { command: IDM_OPEN_FOLDER, label: Some("Open Clips Folder") },
        MenuItem { command: IDM_SETTINGS, label: Some("Settings...") },
        MenuItem { command: 0, label: None },
        MenuItem { command: IDM_EXIT, label: Some("Exit") },
    ];
    assert(items@.map_values(|i: MenuItem| entry_of(i)) =~= menu_entries());
    items
}

/// Every entry of the menu that has words does something, and no two do the same.
pub proof fn law_menu_entries_act(i: int, j: int, lparam: u32)
    requires
        0 <= i < j < menu_entries().len(),
        menu_entries()[i].1 is Some,
        menu_entries()[j].1 is Some,
    ensures
        action_of(WM_COMMAND, menu_entries()[i].0, lparam) != TrayAction::Nothing,
        action_of(WM_COMMAND, menu_entries()[j].0, lparam) != TrayAction::Nothing,
        action_of(WM_COMMAND, menu_entries()[i].0, lparam) != action_of(
            WM_COMMAND,
            menu_entries()[j].0,
            lparam,
        ),
{
}

/// Each command of the menu does what its words say, whatever the upper bits of the message
/// hold, and no other command does anything.
pub proof fn law_commands_do_what_they_say(high: u64, command: u64, lparam: u32)
    requires
        command < 0x10000,
        high * 0x10000 + command <= u64::MAX,
    ensures
        ({
            let wparam = (high * 0x10000 + command) as u64;
            let action = action_of(0x0111, wparam, lparam);
            &&& menu_entries()[0] == (100u64, Some("Save Clip"@))
            &&& action == TrayAction::SaveClip <==> command == 100
            &&& menu_entries()[2] == (101u64, Some("Settings..."@))
            &&& action == TrayAction::ToggleSettings <==> command == 101
            &&& menu_entries()[4] == (102u64, Some("Exit"@))
            &&& action == TrayAction::Exit <==> command == 102
            &&& menu_entries()[1] == (103u64, Some("Open Clips Folder"@))
            &&& action == TrayAction::OpenFolder <==> command == 103
            &&& action == TrayAction::Nothing <==> !(100 <= command <= 103)
        }),
        menu_entries().len() == 5,
        menu_entries()[3].1 is None,
{
}

/// The menu comes up on a right click on the icon or on a double click, and on nothing else.
pub proof fn law_menu_comes_up_on_clicks(wparam: u64, high: u32, event: u32)
    requires
        event < 0x10000,
        high * 0x10000 + event <= u32::MAX,
    ensures
        ({
            let action = action_of(0x8001, wparam, (high * 0x10000 + event) as u32);
            &&& event == 0x0205 || event == 0x0203 ==> action == TrayAction::ShowMenu
            &&& event != 0x0205 && event != 0x0203 ==> action == TrayAction::Nothing
        }),
{
}

/// The segments are looked through on the first timer and on no other; every message that is
/// not the icon's own is left to the system.
pub proof fn law_tray_ticks_on_its_timer(message: u32, wparam: u64, lparam: u32)
    ensures
        action_of(0x0113, 1, lparam) == TrayAction::Tick,
        wparam != 1 ==> action_of(0x0113, wparam, lparam) == TrayAction::Nothing,
        action_of(0x0001, wparam, lparam) == TrayAction::Create,
        action_of(0x0002, wparam, lparam) == TrayAction::Destroy,
        action_of(message, wparam, lparam) == TrayAction::PassOn <==> message != 0x0001 && message
            != 0x0002 && message != 0x0111 && message != 0x0113 && message != 0x8001,
{
}

} // verus!
