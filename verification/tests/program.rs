use glimpse::launch::{clips_dir, resolve_ffmpeg, Candidate, FFMPEG_EXE};
use glimpse::log::log_line;
use glimpse::mux::LocalTime;
use glimpse::tray::{menu_items, tray_action, TrayAction, WM_COMMAND, WM_TRAYICON};

fn place(path: &str, exists: bool) -> Candidate {
    Candidate { path: path.to_string(), exists }
}

#[test]
fn ffmpeg_is_looked_for_in_order() {
    let both = vec![place("a\\ffmpeg.exe", true), place("b\\ffmpeg.exe", true)];
    assert_eq!(resolve_ffmpeg(&both, FFMPEG_EXE), "a\\ffmpeg.exe");
    let second = vec![place("a\\ffmpeg.exe", false), place("b\\ffmpeg.exe", true)];
    assert_eq!(resolve_ffmpeg(&second, FFMPEG_EXE), "b\\ffmpeg.exe");
    let none = vec![place("a\\ffmpeg.exe", false), place("b\\ffmpeg.exe", false)];
    assert_eq!(resolve_ffmpeg(&none, FFMPEG_EXE), "ffmpeg.exe");
    assert_eq!(resolve_ffmpeg(&vec![], "x"), "x");
}

#[test]
fn clips_go_below_the_users_directory() {
    let dir = |p, t| clips_dir(p, t);
    assert_eq!(dir(Some("C:\\Users\\me"), "C:\\Temp\\"), "C:\\Users\\me\\Videos\\Glimpse");
    assert_eq!(dir(Some("D:\\"), ""), "D:\\Videos\\Glimpse");
    assert_eq!(dir(Some("D:/me/"), ""), "D:/me/Videos\\Glimpse");
    assert_eq!(dir(None, "C:\\Temp\\"), "C:\\Temp\\Videos\\Glimpse");
    assert_eq!(dir(None, "C:\\Temp"), "C:\\Temp\\Videos\\Glimpse");
    assert_eq!(dir(Some(""), "C:\\Temp"), "Videos\\Glimpse");
}

#[test]
fn lines_of_the_log_tell_the_time() {
    let t = LocalTime { year: 2024, month: 5, day: 1, hour: 9, minute: 30, second: 7 };
    assert_eq!(log_line(&t, "[glimpse] ready"), "[2024-05-01 09:30:07] [glimpse] ready\n");
    assert_eq!(log_line(&t, ""), "[2024-05-01 09:30:07] \n");
}

#[test]
fn the_icon_shows_its_menu() {
    assert_eq!(tray_action(WM_TRAYICON, 0, 0x0205), TrayAction::ShowMenu);
    assert_eq!(tray_action(WM_TRAYICON, 0, 0x7_0203), TrayAction::ShowMenu);
    assert_eq!(tray_action(WM_TRAYICON, 0, 0x0200), TrayAction::Nothing);
}

#[test]
fn the_trays_messages_are_told_apart() {
    assert_eq!(tray_action(0x0001, 0, 0), TrayAction::Create);
    assert_eq!(tray_action(0x0002, 0, 0), TrayAction::Destroy);
    assert_eq!(tray_action(0x0113, 1, 0), TrayAction::Tick);
    assert_eq!(tray_action(0x0113, 2, 0), TrayAction::Nothing);
    assert_eq!(tray_action(0x000F, 0, 0), TrayAction::PassOn);
    assert_eq!(tray_action(WM_COMMAND, 104, 0), TrayAction::Nothing);
    assert_eq!(tray_action(WM_COMMAND, 0x5_0064, 0), TrayAction::SaveClip);
}

#[test]
fn every_entry_of_the_menu_does_what_it_says() {
    let got: Vec<(Option<&str>, TrayAction)> = menu_items()
        .iter()
        .map(|i| (i.label, tray_action(WM_COMMAND, i.command, 0)))
        .collect();
    assert_eq!(
        got,
        vec![
            (Some("Save Clip"), TrayAction::SaveClip),
            (Some("Open Clips Folder"), TrayAction::OpenFolder),
            (Some("Settings..."), TrayAction::ToggleSettings),
            (None, TrayAction::Nothing),
            (Some("Exit"), TrayAction::Exit),
        ]
    );
}
