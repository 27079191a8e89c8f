//! The settings panel: what it holds, and what a click, a drag and the passing of time do to it.

use crate::hotkey::{law_hotkey_unpacks, mods_of, packed_of, unpack, vk_of};
use crate::layout::{law_cards_do_not_overlap, lemma_px, Lay, Slider};
use crate::settings::{
    in_bounds, Config, Settings, MAX_BITRATE, MAX_CLIP_SECS, MAX_FPS, MIN_BITRATE, MIN_CLIP_SECS,
    MIN_FPS,
};
use vstd::prelude::*;

verus! {

/// Steps from hidden to shown.
pub const ANIM_STEPS: i32 = 6;

/// Steps of the switch from off to on.
pub const TOGGLE_STEPS: u8 = 8;

/// The panel's opacity when it is shown.
pub const FULL_ALPHA: i32 = 218;

/// What stands for the colour track where a slider is dragged.
pub const COLOR_DRAG: usize = 99;

// The panel's timers.
pub const TIMER_ANIM: u64 = 2;

pub const TIMER_TOG: u64 = 3;

pub const TIMER_TAB: u64 = 4;

// Window messages.
pub const WM_CREATE: u32 = 0x0001;

pub const WM_DESTROY: u32 = 0x0002;

pub const WM_PAINT: u32 = 0x000F;

pub const WM_ERASEBKGND: u32 = 0x0014;

pub const WM_NCHITTEST: u32 = 0x0084;

pub const WM_TIMER: u32 = 0x0113;

pub const WM_MOUSEMOVE: u32 = 0x0200;

pub const WM_LBUTTONDOWN: u32 = 0x0201;

pub const WM_LBUTTONUP: u32 = 0x0202;

pub const WM_TOGGLE: u32 = 0x800A;

pub const WM_HOTKEY_CAPTURED: u32 = 0x800B;

/// The size of a monitor, in pixels.
#[derive(Clone, Copy, PartialEq, Eq, Structural, Debug)]
pub struct MonitorInfo {
    pub w: u32,
    pub h: u32,
}

/// The panel.
pub struct State {
    /// The sliders' values: clip length, frame rate and bitrate.
    pub val: [u32; 3],
    pub startup: bool,
    /// How far the switch has moved, in eighths.
    pub tog_anim: u8,
    /// The accent hue, carried along unread.
    pub hue_bits: u32,
    pub active_tab: u8,
    pub visible: bool,
    pub anim_t: i32,
    /// Which way the panel is fading: 1 in, -1 out, 0 not at all.
    pub anim_dir: i32,
    /// The slider that is dragged.
    pub drag: Option<usize>,
    /// Whether the user is picking a hotkey.
    pub capturing_hotkey: bool,
    pub bg_path: String,
    /// Whether a background image is loaded.
    pub has_image: bool,
    pub monitors: Vec<MonitorInfo>,
    pub lay: Lay,
}

/// The panel as values.
#[verifier::ext_equal]
pub struct Panel {
    pub val: Seq<u32>,
    pub startup: bool,
    pub tog_anim: u8,
    pub hue_bits: u32,
    pub active_tab: u8,
    pub visible: bool,
    pub anim_t: i32,
    pub anim_dir: i32,
    pub drag: Option<usize>,
    pub capturing_hotkey: bool,
    pub bg_path: Seq<char>,
    pub has_image: bool,
    pub monitors: Seq<MonitorInfo>,
    pub lay: Lay,
}

/// What a place on the tracks stands for: a value on each slider, and a hue.
#[derive(Clone, Copy, PartialEq, Eq, Structural, Debug)]
pub struct Pointed {
    pub clip_secs: u32,
    pub fps: u32,
    pub bitrate_mbps: u32,
    pub hue_bits: u32,
}

/// Where the thumbs of the sliders and of the colour track are.
#[derive(Clone, Copy, PartialEq, Eq, Structural, Debug)]
pub struct Thumbs {
    pub clip_secs: i32,
    pub fps: i32,
    pub bitrate_mbps: i32,
    pub hue: i32,
}

/// What a click does.
#[derive(Clone, Copy, PartialEq, Eq, Structural, Debug)]
pub enum Click {
    Nothing,
    Close,
    SaveClip,
    /// Another tab is shown.
    Tab(u8),
    /// A slider is taken hold of.
    Slider(usize),
    /// The user wants to pick a hotkey.
    StartPicking,
    /// The user no longer wants to pick one.
    StopPicking,
    /// The switch is thrown.
    Startup,
    /// Another monitor is captured.
    Monitor(u32),
    ClearImage,
    BrowseImage,
    /// The colour track is taken hold of.
    Hue,
}

/// How far a fade has come.
#[derive(Clone, Copy, PartialEq, Eq, Structural, Debug)]
pub enum Fade {
    GoesOn,
    /// The panel is shown.
    Shown,
    /// The panel is hidden.
    Hidden,
}

/// What a toggle of the panel calls for.
#[derive(Clone, Copy, PartialEq, Eq, Structural, Debug)]
pub enum Toggle {
    /// The panel fades in. Where it was wholly hidden, its window is put in place and shown.
    Open { show_window: bool },
    /// The panel's settings are kept, and it fades out.
    Close,
}

/// The settings to keep, and whether the encoder has to be run anew for them.
pub struct Committed {
    pub settings: Settings,
    pub restart_encoder: bool,
}

impl View for State {
    type V = Panel;

    open spec fn view(&self) -> Panel {
        Panel {
            val: self.val@,
            startup: self.startup,
            tog_anim: self.tog_anim,
            hue_bits: self.hue_bits,
            active_tab: self.active_tab,
            visible: self.visible,
            anim_t: self.anim_t,
            anim_dir: self.anim_dir,
            drag: self.drag,
            capturing_hotkey: self.capturing_hotkey,
            bg_path: self.bg_path@,
            has_image: self.has_image,
            monitors: self.monitors@,
            lay: self.lay,
        }
    }
}

/// The bounds of a slider's value.
pub open spec fn slider_bounds(i: int) -> (u32, u32) {
    if i == 0 {
        (MIN_CLIP_SECS, MAX_CLIP_SECS)
    } else if i == 1 {
        (MIN_FPS, MAX_FPS)
    } else {
        (MIN_BITRATE, MAX_BITRATE)
    }
}

/// A slider's name and the unit of its value.
pub open spec fn slider_words(i: int) -> (Seq<char>, Seq<char>) {
    if i == 0 {
        ("clip_length"@, "s"@)
    } else if i == 1 {
        ("frame_rate"@, "fps"@)
    } else {
        ("bitrate"@, "Mbps"@)
    }
}

/// The value that a place stands for on a slider.
pub open spec fn pointed_value(at: Pointed, i: int) -> u32 {
    if i == 0 {
        at.clip_secs
    } else if i == 1 {
        at.fps
    } else {
        at.bitrate_mbps
    }
}

/// Where the thumb of a slider is.
pub open spec fn thumb_of(t: Thumbs, i: int) -> i32 {
    if i == 0 {
        t.clip_secs
    } else if i == 1 {
        t.fps
    } else {
        t.bitrate_mbps
    }
}

/// Whether `v` lies in the stretch of length `len` from `at` on, its two ends included.
pub open spec fn along(v: int, at: int, len: int) -> bool {
    at <= v <= at + len
}

/// The distance of two places.
pub open spec fn apart(a: int, b: int) -> int {
    if a >= b {
        a - b
    } else {
        b - a
    }
}

/// A number of 16 bits, read as a signed one.
pub open spec fn signed16(v: u32) -> int {
    if v >= 0x8000 {
        v - 0x10000
    } else {
        v as int
    }
}

/// The monitor before or after the one numbered `cur` of `n`, the last one before the first.
pub open spec fn next_monitor(cur: u32, n: nat, forward: bool) -> int {
    if forward {
        if cur + 1 >= n {
            0
        } else {
            cur + 1
        }
    } else {
        if cur == 0 {
            n - 1
        } else {
            cur - 1
        }
    }
}

/// The height of the fade's curve after `t` of its steps, in steps: fast at first, then slower.
pub open spec fn eased(t: int) -> int {
    (ANIM_STEPS * ANIM_STEPS - (ANIM_STEPS - t) * (ANIM_STEPS - t)) / (ANIM_STEPS as int)
}

/// The panel's opacity after `t` steps of its fade.
pub open spec fn alpha_after(t: int) -> int {
    FULL_ALPHA * eased(t) / (ANIM_STEPS as int)
}

/// `t` one step further, between hidden and shown.
pub open spec fn stepped(t: int, dir: int) -> int {
    if t + dir < 0 {
        0
    } else if t + dir > ANIM_STEPS {
        ANIM_STEPS as int
    } else {
        t + dir
    }
}

/// The switch one step closer to where it belongs.
pub open spec fn switched(at: u8, on: bool) -> int {
    if on {
        if at < TOGGLE_STEPS {
            at + 1
        } else {
            at as int
        }
    } else {
        if at > 0 {
            at - 1
        } else {
            at as int
        }
    }
}

impl Panel {
    /// What always holds of the panel.
    pub open spec fn wf(self) -> bool {
        &&& self.val.len() == 3
        &&& self.tog_anim <= TOGGLE_STEPS
        &&& self.active_tab <= 1
        &&& 0 <= self.anim_t <= ANIM_STEPS
        &&& -1 <= self.anim_dir <= 1
        &&& self.drag matches Some(i) ==> i < 3 || i == COLOR_DRAG
        &&& self.monitors.len() <= u32::MAX
        &&& self.lay.wf()
    }

    /// Whether a point is on the close button.
    pub open spec fn on_close(self, mx: int, my: int) -> bool {
        along(mx, self.lay.close_x as int, self.lay.close_sz as int) && along(
            my,
            self.lay.close_y as int,
            self.lay.close_sz as int,
        )
    }

    /// Whether a point is on the button that saves a clip.
    pub open spec fn on_save(self, mx: int, my: int) -> bool {
        let lay = self.lay;
        &&& along(mx, lay.ow - lay.pad - lay.px(118), lay.px(118))
        &&& along(
            my,
            lay.foot_y() + (lay.oh - lay.foot_y() - lay.px(32)) / 2,
            lay.px(32),
        )
    }

    /// Whether a point is on the button of a tab.
    pub open spec fn on_tab(self, i: int, mx: int, my: int) -> bool {
        let x = if i == 0 {
            self.lay.tabs_x().0
        } else {
            self.lay.tabs_x().1
        };
        &&& along(my, self.lay.tab_btn_y as int, self.lay.tab_btn_h as int)
        &&& along(mx, x, self.lay.tab_btn_w as int)
    }

    /// Whether a point is close to a track at height `y` or to its thumb at `thumb`.
    pub open spec fn on_track(self, y: int, thumb: int, mx: int, my: int) -> bool {
        &&& apart(my, y) <= self.lay.px(12)
        &&& apart(mx, thumb) <= self.lay.px(12) || self.lay.content_x <= mx <= self.lay.track_right
    }

    /// Whether a point is on a slider.
    pub open spec fn on_slider(self, i: int, t: Thumbs, mx: int, my: int) -> bool {
        self.on_track(self.lay.main_y(i) + self.lay.px(38), thumb_of(t, i) as int, mx, my)
    }

    /// Whether a point is on a card that begins at height `y` and is `h` high.
    pub open spec fn on_card(self, y: int, h: int, mx: int, my: int) -> bool {
        self.lay.pad <= mx <= self.lay.ow - self.lay.pad && along(my, y, h)
    }

    /// Whether a point is on the switch.
    pub open spec fn on_switch(self, mx: int, my: int) -> bool {
        let lay = self.lay;
        &&& along(mx, lay.ow - lay.pad - lay.px(10) - lay.px(52), lay.px(52))
        &&& along(my, lay.main_y(5) + (lay.tog_h - lay.px(30)) / 2, lay.px(30))
    }

    /// What a click on the settings tab does.
    pub open spec fn settings_click(self, mx: int, my: int, t: Thumbs) -> Click {
        if self.on_slider(0, t, mx, my) {
            Click::Slider(0)
        } else if self.on_slider(1, t, mx, my) {
            Click::Slider(1)
        } else if self.on_slider(2, t, mx, my) {
            Click::Slider(2)
        } else if self.on_card(self.lay.main_y(3), self.lay.tog_h as int, mx, my) {
            if self.capturing_hotkey {
                Click::StopPicking
            } else {
                Click::StartPicking
            }
        } else if self.on_switch(mx, my) {
            Click::Startup
        } else {
            Click::Nothing
        }
    }

    /// What a click on the advanced tab does. A click on the left half of the display card goes
    /// to the monitor before, one on the right half to the one after.
    pub open spec fn advanced_click(self, mx: int, my: int, t: Thumbs, monitor: u32) -> Click {
        let lay = self.lay;
        if self.monitors.len() > 1 && self.on_card(lay.adv_y(0), lay.card_h as int, mx, my) {
            Click::Monitor(
                next_monitor(
                    monitor,
                    self.monitors.len(),
                    mx >= (lay.content_x + lay.track_right) / 2,
                ) as u32,
            )
        } else if self.on_card(lay.adv_y(2), lay.tog_h as int, mx, my) {
            if self.has_image && mx >= lay.ow - lay.pad - lay.close_sz {
                Click::ClearImage
            } else {
                Click::BrowseImage
            }
        } else if self.on_track(lay.adv_y(1) + lay.px(36), t.hue as int, mx, my) {
            Click::Hue
        } else {
            Click::Nothing
        }
    }

    /// What a click does: the header and the footer come before the tab that is shown.
    pub open spec fn click_at(self, mx: int, my: int, t: Thumbs, monitor: u32) -> Click {
        if self.on_close(mx, my) {
            Click::Close
        } else if self.on_save(mx, my) {
            Click::SaveClip
        } else if self.on_tab(0, mx, my) {
            if self.active_tab != 0 {
                Click::Tab(0)
            } else {
                Click::Nothing
            }
        } else if self.on_tab(1, mx, my) {
            if self.active_tab != 1 {
                Click::Tab(1)
            } else {
                Click::Nothing
            }
        } else if self.active_tab == 0 {
            self.settings_click(mx, my, t)
        } else {
            self.advanced_click(mx, my, t, monitor)
        }
    }

    /// The panel once a click has done what is up to the panel alone.
    pub open spec fn clicked(self, click: Click, at: Pointed) -> Panel {
        match click {
            Click::Tab(i) => Panel { active_tab: i, capturing_hotkey: false, ..self },
            Click::Slider(i) => Panel {
                drag: Some(i),
                val: self.val.update(i as int, pointed_value(at, i as int)),
                ..self
            },
            Click::StopPicking => Panel { capturing_hotkey: false, ..self },
            Click::Startup => Panel { startup: !self.startup, ..self },
            Click::Hue => Panel { drag: Some(COLOR_DRAG), hue_bits: at.hue_bits, ..self },
            _ => self,
        }
    }

    /// The panel once the pointer is dragged on.
    pub open spec fn dragged(self, at: Pointed) -> Panel {
        match self.drag {
            Some(i) => if i < 3 {
                Panel { val: self.val.update(i as int, pointed_value(at, i as int)), ..self }
            } else {
                Panel { hue_bits: at.hue_bits, ..self }
            },
            None => self,
        }
    }

    /// The clip length that a drag tells of: the one that it sets.
    pub open spec fn told_by_drag(self, at: Pointed) -> Option<u32> {
        if self.drag == Some(0usize) {
            Some(at.clip_secs)
        } else {
            None
        }
    }

    /// The panel once the mouse is let go.
    pub open spec fn released(self) -> Panel {
        Panel { drag: None, ..self }
    }

    /// The panel with another background image, which was loaded or could not be.
    pub open spec fn with_background(self, path: Seq<char>, loaded: bool) -> Panel {
        Panel { bg_path: path, has_image: path.len() > 0 && loaded, ..self }
    }

    /// Whether the encoder has to be run anew for what the panel holds.
    pub open spec fn needs_restart(self, old_fps: u32, old_bitrate: u32) -> bool {
        self.val[1] != old_fps || self.val[2] != old_bitrate
    }

    /// How far the next step of the fade comes.
    pub open spec fn fade_outcome(self) -> Fade {
        if self.anim_dir > 0 && self.faded().anim_t >= ANIM_STEPS {
            Fade::Shown
        } else if self.anim_dir < 0 && self.faded().anim_t <= 0 {
            Fade::Hidden
        } else {
            Fade::GoesOn
        }
    }

    /// The panel once it is toggled, and what that calls for.
    pub open spec fn toggled(self, c: Config) -> (Panel, Toggle) {
        if self.visible || self.anim_dir > 0 {
            (self.closed(), Toggle::Close)
        } else {
            (self.opened(c), Toggle::Open { show_window: self.anim_t == 0 })
        }
    }

    /// The panel as it opens on these settings.
    pub open spec fn opened(self, c: Config) -> Panel {
        Panel {
            val: seq![c.clip_secs, c.fps, c.bitrate_mbps],
            startup: c.start_with_windows,
            tog_anim: if c.start_with_windows {
                TOGGLE_STEPS
            } else {
                0
            },
            hue_bits: c.hue_bits,
            capturing_hotkey: false,
            anim_dir: 1,
            ..self
        }
    }

    /// The panel as it closes.
    pub open spec fn closed(self) -> Panel {
        Panel { capturing_hotkey: false, anim_dir: (-1) as i32, visible: false, ..self }
    }

    /// The settings that the panel stands for, with the monitor and the hotkey in use.
    pub open spec fn settings(self, monitor: u32, hotkey: u64) -> Config {
        Config {
            monitor_index: monitor,
            clip_secs: self.val[0],
            fps: self.val[1],
            bitrate_mbps: self.val[2],
            start_with_windows: self.startup,
            hue_bits: self.hue_bits,
            hotkey_mods: mods_of(hotkey),
            hotkey_vk: vk_of(hotkey),
            bg_image_path: self.bg_path,
        }
    }

    /// The panel one step of its fade later.
    pub open spec fn faded(self) -> Panel {
        let t = stepped(self.anim_t as int, self.anim_dir as int);
        if self.anim_dir > 0 && t >= ANIM_STEPS {
            Panel { anim_t: t as i32, visible: true, anim_dir: 0, ..self }
        } else if self.anim_dir < 0 && t <= 0 {
            Panel { anim_t: t as i32, visible: false, anim_dir: 0, ..self }
        } else {
            Panel { anim_t: t as i32, ..self }
        }
    }
}

/// A hidden panel for these settings.
pub open spec fn fresh_panel(c: Config, monitors: Seq<MonitorInfo>, lay: Lay) -> Panel {
    Panel {
        val: seq![c.clip_secs, c.fps, c.bitrate_mbps],
        startup: c.start_with_windows,
        tog_anim: if c.start_with_windows {
            TOGGLE_STEPS
        } else {
            0
        },
        hue_bits: c.hue_bits,
        active_tab: 0,
        visible: false,
        anim_t: 0,
        anim_dir: 0,
        drag: None,
        capturing_hotkey: false,
        bg_path: c.bg_image_path,
        has_image: false,
        monitors,
        lay,
    }
}

/// The size of a monitor between these edges.
pub open spec fn size_between(left: i32, top: i32, right: i32, bottom: i32) -> Option<MonitorInfo> {
    if right > left && bottom > top {
        Some(MonitorInfo { w: (right - left) as u32, h: (bottom - top) as u32 })
    } else {
        None
    }
}

/// What a message to the panel's window is about.
#[derive(Clone, Copy, PartialEq, Eq, Structural, Debug)]
pub enum PanelEvent {
    /// Something that the panel leaves to the system.
    Other,
    /// Something that the panel takes, and does nothing about.
    Nothing,
    Create,
    Destroy,
    EraseBackground,
    /// The system asks whether a point of the screen is on the panel.
    HitTest { x: i32, y: i32 },
    Toggle,
    Paint,
    FadeTimer,
    SwitchTimer,
    TabTimer,
    Down { x: i32, y: i32 },
    Drag { x: i32, y: i32 },
    Up,
    /// A hotkey was picked, or none.
    HotkeyPicked(u64),
}

/// What a message to the panel's window is about. While the pointer moves, the lowest bit of
/// `wparam` tells whether the left button is down.
pub open spec fn event_of(message: u32, wparam: u64, lparam: u32) -> PanelEvent {
    let x = signed16(lparam % 0x10000) as i32;
    let y = signed16(lparam / 0x10000) as i32;
    if message == WM_CREATE {
        PanelEvent::Create
    } else if message == WM_DESTROY {
        PanelEvent::Destroy
    } else if message == WM_ERASEBKGND {
        PanelEvent::EraseBackground
    } else if message == WM_NCHITTEST {
        PanelEvent::HitTest { x, y }
    } else if message == WM_TOGGLE {
        PanelEvent::Toggle
    } else if message == WM_PAINT {
        PanelEvent::Paint
    } else if message == WM_TIMER {
        if wparam == TIMER_ANIM {
            PanelEvent::FadeTimer
        } else if wparam == TIMER_TOG {
            PanelEvent::SwitchTimer
        } else if wparam == TIMER_TAB {
            PanelEvent::TabTimer
        } else {
            PanelEvent::Nothing
        }
    } else if message == WM_LBUTTONDOWN {
        PanelEvent::Down { x, y }
    } else if message == WM_MOUSEMOVE {
        if wparam % 2 == 1 {
            PanelEvent::Drag { x, y }
        } else {
            PanelEvent::Nothing
        }
    } else if message == WM_LBUTTONUP {
        PanelEvent::Up
    } else if message == WM_HOTKEY_CAPTURED {
        PanelEvent::HotkeyPicked(wparam)
    } else {
        PanelEvent::Other
    }
}

/// Half of what is left of a screen beside the panel, towards zero.
pub open spec fn half_left(screen: int, size: int) -> int {
    if screen >= size {
        (screen - size) / 2
    } else {
        -((size - screen) / 2)
    }
}

/// What a message to the panel's window is about.
pub fn panel_event(message: u32, wparam: u64, lparam: u32) -> (e: PanelEvent)
    ensures
        e == event_of(message, wparam, lparam),
{
    let (x, y) = mouse_point(lparam);
    match message {
        WM_CREATE => PanelEvent::Create,
        WM_DESTROY => PanelEvent::Destroy,
        WM_ERASEBKGND => PanelEvent::EraseBackground,
        WM_NCHITTEST => PanelEvent::HitTest { x, y },
        WM_TOGGLE => PanelEvent::Toggle,
        WM_PAINT => PanelEvent::Paint,
        WM_TIMER => if wparam == TIMER_ANIM {
            PanelEvent::FadeTimer
        } else if wparam == TIMER_TOG {
            PanelEvent::SwitchTimer
        } else if wparam == TIMER_TAB {
            PanelEvent::TabTimer
        } else {
            PanelEvent::Nothing
        },
        WM_LBUTTONDOWN => PanelEvent::Down { x, y },
        WM_MOUSEMOVE => if wparam % 2 == 1 {
            PanelEvent::Drag { x, y }
        } else {
            PanelEvent::Nothing
        },
        WM_LBUTTONUP => PanelEvent::Up,
        WM_HOTKEY_CAPTURED => PanelEvent::HotkeyPicked(wparam),
        _ => PanelEvent::Other,
    }
}

/// Where the panel begins so that it is in the middle of the screen.
pub fn centered(screen: i32, size: i32) -> (at: i32)
    ensures
        at == half_left(screen as int, size as int),
{
    ((screen as i64 - size as i64) / 2) as i32
}

/// A slider of the settings tab.
pub fn slider(i: usize) -> (r: Slider)
    requires
        i < 3,
    ensures
        r.min == slider_bounds(i as int).0,
        r.max == slider_bounds(i as int).1,
        r.label@ == slider_words(i as int).0,
        r.unit@ == slider_words(i as int).1,
{
    if i == 0 {
        Slider { label: "clip_length", unit: "s", min: MIN_CLIP_SECS, max: MAX_CLIP_SECS }
    } else if i == 1 {
        Slider { label: "frame_rate", unit: "fps", min: MIN_FPS, max: MAX_FPS }
    } else {
        Slider { label: "bitrate", unit: "Mbps", min: MIN_BITRATE, max: MAX_BITRATE }
    }
}

/// The place of the mouse, out of the parameter of a mouse message.
pub fn mouse_point(lparam: u32) -> (r: (i32, i32))
    ensures
        r.0 == signed16(lparam % 0x10000),
        r.1 == signed16(lparam / 0x10000),
{
    let x: i32 = (lparam % 0x10000) as i32;
    let y: i32 = (lparam / 0x10000) as i32;
    (
        if x >= 0x8000 {
            x - 0x10000
        } else {
            x
        },
        if y >= 0x8000 {
            y - 0x10000
        } else {
            y
        },
    )
}

/// The size of a monitor, from the edges of its place on the desktop: none where it has no room.
pub fn monitor_size(left: i32, top: i32, right: i32, bottom: i32) -> (r: Option<MonitorInfo>)
    requires
        i32::MIN <= right - left <= i32::MAX,
        i32::MIN <= bottom - top <= i32::MAX,
    ensures
        r == if right > left && bottom > top {
            Some(MonitorInfo { w: (right - left) as u32, h: (bottom - top) as u32 })
        } else {
            None
        },
        r == size_between(left, top, right, bottom),
{
    if right > left && bottom > top {
        Some(MonitorInfo { w: (right - left) as u32, h: (bottom - top) as u32 })
    } else {
        None
    }
}

/// The panel's opacity after `t` steps of its fade.
pub fn fade_alpha(t: i32) -> (a: u8)
    requires
        0 <= t <= ANIM_STEPS,
    ensures
        a == alpha_after(t as int),
{
    let rest: i32 = ANIM_STEPS - t;
    assert(0 <= rest * rest <= 36) by (nonlinear_arith)
        requires
            0 <= rest <= 6,
    ;
    let curve: i32 = (ANIM_STEPS * ANIM_STEPS - rest * rest) / ANIM_STEPS;
    (FULL_ALPHA * curve / ANIM_STEPS) as u8
}

fn is_along(v: i32, at: i32, len: i32) -> (r: bool)
    ensures
        r == along(v as int, at as int, len as int),
{
    at <= v && v as i64 <= at as i64 + len as i64
}

fn is_close_to(a: i32, b: i32, d: i32) -> (r: bool)
    ensures
        r == (apart(a as int, b as int) <= d),
{
    if a >= b {
        a as i64 - b as i64 <= d as i64
    } else {
        b as i64 - a as i64 <= d as i64
    }
}

impl State {
    /// A hidden panel for these settings.
    pub fn new(settings: &Settings, monitors: Vec<MonitorInfo>, lay: Lay) -> (s: State)
        requires
            lay.wf(),
            monitors@.len() <= u32::MAX,
        ensures
            s@.wf(),
            s@ == (Panel {
                val: seq![settings@.clip_secs, settings@.fps, settings@.bitrate_mbps],
                startup: settings@.start_with_windows,
                tog_anim: if settings@.start_with_windows {
                    TOGGLE_STEPS
                } else {
                    0
                },
                hue_bits: settings@.hue_bits,
                active_tab: 0,
                visible: false,
                anim_t: 0,
                anim_dir: 0,
                drag: None,
                capturing_hotkey: false,
                bg_path: settings@.bg_image_path,
                has_image: false,
                monitors: monitors@,
                lay,
            }),
            s@ == fresh_panel(settings@, monitors@, lay),
    {
        let s = State {
            val: [settings.clip_secs, settings.fps, settings.bitrate_mbps],
            startup: settings.start_with_windows,
            tog_anim: if settings.start_with_windows {
                TOGGLE_STEPS
            } else {
                0
            },
            hue_bits: settings.hue_bits,
            active_tab: 0,
            visible: false,
            anim_t: 0,
            anim_dir: 0,
            drag: None,
            capturing_hotkey: false,
            bg_path: settings.bg_image_path.clone(),
            has_image: false,
            monitors,
            lay,
        };
        assert(s.val@ =~= seq![settings@.clip_secs, settings@.fps, settings@.bitrate_mbps]);
        s
    }

    /// Opens the panel on these settings. The result says whether its window, which was wholly
    /// hidden, has to be put in place and shown.
    pub fn do_open(&mut self, settings: &Settings) -> (show_window: bool)
        requires
            old(self)@.wf(),
        ensures
            final(self)@.wf(),
            final(self)@ == old(self)@.opened(settings@),
            show_window == (old(self)@.anim_t == 0),
    {
        self.val = [settings.clip_secs, settings.fps, settings.bitrate_mbps];
        self.startup = settings.start_with_windows;
        self.tog_anim = if settings.start_with_windows {
            TOGGLE_STEPS
        } else {
            0
        };
        self.hue_bits = settings.hue_bits;
        self.capturing_hotkey = false;
        self.anim_dir = 1;
        assert(self@ =~= old(self)@.opened(settings@));
        self.anim_t == 0
    }

    /// Closes the panel. Its settings are to be kept.
    pub fn do_close(&mut self)
        requires
            old(self)@.wf(),
        ensures
            final(self)@.wf(),
            final(self)@ == old(self)@.closed(),
    {
        self.capturing_hotkey = false;
        self.anim_dir = -1;
        self.visible = false;
    }

    /// Opens the panel, or closes it where it is shown or about to be.
    pub fn toggle(&mut self, settings: &Settings) -> (t: Toggle)
        requires
            old(self)@.wf(),
        ensures
            final(self)@.wf(),
            if old(self)@.visible || old(self)@.anim_dir > 0 {
                t == Toggle::Close && final(self)@ == old(self)@.closed()
            } else {
                &&& t == (Toggle::Open { show_window: old(self)@.anim_t == 0 })
                &&& final(self)@ == old(self)@.opened(settings@)
            },
            (final(self)@, t) == old(self)@.toggled(settings@),
    {
        if self.visible || self.anim_dir > 0 {
            self.do_close();
            Toggle::Close
        } else {
            let show_window = self.do_open(settings);
            Toggle::Open { show_window }
        }
    }

    /// One step of the fade: the panel's opacity, and how far the fade has come.
    pub fn on_fade_timer(&mut self) -> (r: (u8, Fade))
        requires
            old(self)@.wf(),
        ensures
            final(self)@.wf(),
            final(self)@ == old(self)@.faded(),
            r.0 == alpha_after(final(self)@.anim_t as int),
            r.1 == if old(self)@.anim_dir > 0 && final(self)@.anim_t >= ANIM_STEPS {
                Fade::Shown
            } else if old(self)@.anim_dir < 0 && final(self)@.anim_t <= 0 {
                Fade::Hidden
            } else {
                Fade::GoesOn
            },
            r.1 == old(self)@.fade_outcome(),
    {
        let t: i32 = self.anim_t + self.anim_dir;
        self.anim_t = if t < 0 {
            0
        } else if t > ANIM_STEPS {
            ANIM_STEPS
        } else {
            t
        };
        let alpha: u8 = fade_alpha(self.anim_t);
        if self.anim_dir > 0 && self.anim_t >= ANIM_STEPS {
            self.visible = true;
            self.anim_dir = 0;
            (alpha, Fade::Shown)
        } else if self.anim_dir < 0 && self.anim_t <= 0 {
            self.visible = false;
            self.anim_dir = 0;
            (alpha, Fade::Hidden)
        } else {
            (alpha, Fade::GoesOn)
        }
    }

    /// One step of the switch. The result says whether it had arrived.
    pub fn on_switch_timer(&mut self) -> (arrived: bool)
        requires
            old(self)@.wf(),
        ensures
            final(self)@.wf(),
            final(self)@ == (Panel {
                tog_anim: switched(old(self)@.tog_anim, old(self)@.startup) as u8,
                ..old(self)@
            }),
            arrived == (final(self)@.tog_anim == old(self)@.tog_anim),
    {
        let target: u8 = if self.startup {
            TOGGLE_STEPS
        } else {
            0
        };
        if self.tog_anim == target {
            true
        } else {
            if self.tog_anim < target {
                self.tog_anim = self.tog_anim + 1;
            } else {
                self.tog_anim = self.tog_anim - 1;
            }
            false
        }
    }

    fn hit_track(&self, y: i32, thumb: i32, mx: i32, my: i32) -> (r: bool)
        requires
            self@.wf(),
        ensures
            r == self@.on_track(y as int, thumb as int, mx as int, my as int),
    {
        let near: i32 = self.lay.s(12);
        is_close_to(my, y, near) && (is_close_to(mx, thumb, near) || (self.lay.content_x <= mx && mx
            <= self.lay.track_right))
    }

    fn hit_card(&self, y: i32, h: i32, mx: i32, my: i32) -> (r: bool)
        requires
            self@.wf(),
        ensures
            r == self@.on_card(y as int, h as int, mx as int, my as int),
    {
        proof {
            lemma_px(self.lay.dpi as int);
        }
        self.lay.pad <= mx && mx <= self.lay.ow - self.lay.pad && is_along(my, y, h)
    }

    fn settings_tab_click(&self, mx: i32, my: i32, t: &Thumbs) -> (c: Click)
        requires
            self@.wf(),
        ensures
            c == self@.settings_click(mx as int, my as int, *t),
    {
        let lay = &self.lay;
        proof {
            lemma_px(lay.dpi as int);
        }
        if self.hit_track(lay.track_y(0), t.clip_secs, mx, my) {
            return Click::Slider(0);
        }
        if self.hit_track(lay.track_y(1), t.fps, mx, my) {
            return Click::Slider(1);
        }
        if self.hit_track(lay.track_y(2), t.bitrate_mbps, mx, my) {
            return Click::Slider(2);
        }
        if self.hit_card(lay.main_card_y(3), lay.tog_h, mx, my) {
            return if self.capturing_hotkey {
                Click::StopPicking
            } else {
                Click::StartPicking
            };
        }
        let x: i32 = lay.ow - lay.pad - lay.s(10) - lay.s(52);
        let y: i32 = lay.main_card_y(5) + (lay.tog_h - lay.s(30)) / 2;
        if is_along(mx, x, lay.s(52)) && is_along(my, y, lay.s(30)) {
            return Click::Startup;
        }
        Click::Nothing
    }

    fn advanced_tab_click(&self, mx: i32, my: i32, t: &Thumbs, monitor: u32) -> (c: Click)
        requires
            self@.wf(),
        ensures
            c == self@.advanced_click(mx as int, my as int, *t, monitor),
    {
        let lay = &self.lay;
        proof {
            lemma_px(lay.dpi as int);
        }
        let n: usize = self.monitors.len();
        if n > 1 && self.hit_card(lay.adv_card_y(0), lay.card_h, mx, my) {
            let n: u64 = n as u64;
            let mid: i32 = (lay.content_x + lay.track_right) / 2;
            let next: u64 = if mx < mid {
                if monitor == 0 {
                    n - 1
                } else {
                    monitor as u64 - 1
                }
            } else {
                if monitor as u64 + 1 >= n {
                    0
                } else {
                    monitor as u64 + 1
                }
            };
            return Click::Monitor(next as u32);
        }
        if self.hit_card(lay.adv_card_y(2), lay.tog_h, mx, my) {
            return if self.has_image && mx >= lay.ow - lay.pad - lay.close_sz {
                Click::ClearImage
            } else {
                Click::BrowseImage
            };
        }
        if self.hit_track(lay.col_track_y(), t.hue, mx, my) {
            return Click::Hue;
        }
        Click::Nothing
    }

    /// What a click at a place does, where `monitor` is the one that is captured.
    pub fn click(&self, mx: i32, my: i32, t: &Thumbs, monitor: u32) -> (c: Click)
        requires
            self@.wf(),
        ensures
            c == self@.click_at(mx as int, my as int, *t, monitor),
    {
        let lay = &self.lay;
        proof {
            lemma_px(lay.dpi as int);
        }
        if is_along(mx, lay.close_x, lay.close_sz) && is_along(my, lay.close_y, lay.close_sz) {
            return Click::Close;
        }
        let fy: i32 = lay.footer_y();
        let btn_w: i32 = lay.s(118);
        let btn_h: i32 = lay.s(32);
        let btn_x: i32 = lay.ow - lay.pad - btn_w;
        let btn_y: i32 = fy + (lay.oh - fy - btn_h) / 2;
        if is_along(mx, btn_x, btn_w) && is_along(my, btn_y, btn_h) {
            return Click::SaveClip;
        }
        if is_along(my, lay.tab_btn_y, lay.tab_btn_h) {
            let (x0, x1) = lay.tab_x();
            if is_along(mx, x0, lay.tab_btn_w) {
                return if self.active_tab != 0 {
                    Click::Tab(0)
                } else {
                    Click::Nothing
                };
            }
            if is_along(mx, x1, lay.tab_btn_w) {
                return if self.active_tab != 1 {
                    Click::Tab(1)
                } else {
                    Click::Nothing
                };
            }
        }
        if self.active_tab == 0 {
            self.settings_tab_click(mx, my, t)
        } else {
            self.advanced_tab_click(mx, my, t, monitor)
        }
    }

    /// Takes in a click. `t` is where the thumbs are, `at` what the place stands for on the
    /// tracks, and `monitor` the one that is captured. The result is what the click does; what
    /// is up to the panel alone is done.
    pub fn on_down(&mut self, mx: i32, my: i32, t: &Thumbs, at: &Pointed, monitor: u32) -> (c: Click)
        requires
            old(self)@.wf(),
        ensures
            final(self)@.wf(),
            c == old(self)@.click_at(mx as int, my as int, *t, monitor),
            final(self)@ == old(self)@.clicked(c, *at),
    {
        let c = self.click(mx, my, t, monitor);
        match c {
            Click::Tab(i) => {
                self.active_tab = i;
                self.capturing_hotkey = false;
            },
            Click::Slider(i) => {
                self.drag = Some(i);
                self.set_slider(i, at);
            },
            Click::StopPicking => {
                self.capturing_hotkey = false;
            },
            Click::Startup => {
                self.startup = !self.startup;
            },
            Click::Hue => {
                self.drag = Some(COLOR_DRAG);
                self.hue_bits = at.hue_bits;
            },
            _ => {},
        }
        assert(self@ =~= old(self)@.clicked(c, *at));
        c
    }

    fn set_slider(&mut self, i: usize, at: &Pointed)
        requires
            i < 3,
        ensures
            final(self)@ == (Panel {
                val: old(self)@.val.update(i as int, pointed_value(*at, i as int)),
                ..old(self)@
            }),
    {
        let v: u32 = if i == 0 {
            at.clip_secs
        } else if i == 1 {
            at.fps
        } else {
            at.bitrate_mbps
        };
        self.val[i] = v;
        assert(self@ =~= (Panel {
            val: old(self)@.val.update(i as int, pointed_value(*at, i as int)),
            ..old(self)@
        }));
    }

    /// Takes in a drag to a place that stands for `at` on the tracks. The result is the clip
    /// length where it is being changed, which counts at once.
    pub fn on_drag(&mut self, at: &Pointed) -> (clip_secs: Option<u32>)
        requires
            old(self)@.wf(),
        ensures
            final(self)@.wf(),
            final(self)@ == old(self)@.dragged(*at),
            clip_secs == if old(self)@.drag == Some(0usize) {
                Some(at.clip_secs)
            } else {
                None
            },
            clip_secs == old(self)@.told_by_drag(*at),
    {
        match self.drag {
            Some(i) => {
                if i < 3 {
                    self.set_slider(i, at);
                    if i == 0 {
                        Some(at.clip_secs)
                    } else {
                        None
                    }
                } else {
                    self.hue_bits = at.hue_bits;
                    None
                }
            },
            None => None,
        }
    }

    /// Takes in the letting go of the mouse. The result says whether the panel's settings are to
    /// be kept: something was dragged.
    pub fn on_up(&mut self) -> (commit: bool)
        requires
            old(self)@.wf(),
        ensures
            final(self)@.wf(),
            final(self)@ == (Panel { drag: None, ..old(self)@ }),
            final(self)@ == old(self)@.released(),
            commit == (old(self)@.drag is Some),
    {
        let dragged = self.drag.is_some();
        self.drag = None;
        dragged
    }

    /// The user can pick a hotkey from here on.
    pub fn start_picking(&mut self)
        requires
            old(self)@.wf(),
        ensures
            final(self)@.wf(),
            final(self)@ == (Panel { capturing_hotkey: true, ..old(self)@ }),
    {
        self.capturing_hotkey = true;
    }

    /// The user can no longer pick a hotkey. The result says whether they could, so that the
    /// panel has to be drawn again.
    pub fn cancel_capture(&mut self) -> (was_picking: bool)
        requires
            old(self)@.wf(),
        ensures
            final(self)@.wf(),
            final(self)@ == (Panel { capturing_hotkey: false, ..old(self)@ }),
            was_picking == old(self)@.capturing_hotkey,
    {
        let was = self.capturing_hotkey;
        self.capturing_hotkey = false;
        was
    }

    /// Another background image is chosen, or none, and was loaded, or could not be. The result
    /// says whether one was chosen that could not be loaded.
    pub fn set_background(&mut self, path: &str, loaded: bool) -> (failed: bool)
        requires
            old(self)@.wf(),
        ensures
            final(self)@.wf(),
            final(self)@ == (Panel {
                bg_path: path@,
                has_image: path@.len() > 0 && loaded,
                ..old(self)@
            }),
            final(self)@ == old(self)@.with_background(path@, loaded),
            failed == (path@.len() > 0 && !loaded),
    {
        self.bg_path = path.to_owned();
        let chosen = !path.is_empty();
        self.has_image = chosen && loaded;
        chosen && !loaded
    }

    /// The settings to keep, with the monitor and the hotkey in use, and whether the encoder has
    /// to be run anew: its frame rate or its bitrate is another than before.
    pub fn commit(&self, monitor: u32, hotkey: u64, old_fps: u32, old_bitrate: u32) -> (r: Committed)
        requires
            self@.wf(),
        ensures
            r.settings@ == self@.settings(monitor, hotkey),
            r.restart_encoder == (self@.val[1] != old_fps || self@.val[2] != old_bitrate),
            r.restart_encoder == self@.needs_restart(old_fps, old_bitrate),
    {
        let (hotkey_mods, hotkey_vk) = unpack(hotkey);
        Committed {
            settings: Settings {
                monitor_index: monitor,
                clip_secs: self.val[0],
                fps: self.val[1],
                bitrate_mbps: self.val[2],
                start_with_windows: self.startup,
                hue_bits: self.hue_bits,
                hotkey_mods,
                hotkey_vk,
                bg_image_path: self.bg_path.clone(),
            },
            restart_encoder: self.val[1] != old_fps || self.val[2] != old_bitrate,
        }
    }
}

/// The panel after a number of steps of its fade.
pub open spec fn faded_for(p: Panel, steps: nat) -> Panel
    decreases steps,
{
    if steps == 0 {
        p
    } else {
        faded_for(p.faded(), (steps - 1) as nat)
    }
}

/// A panel that was opened is shown in full once the steps of the fade are done, whatever it
/// looked like before, and nothing else about it changes.
pub proof fn law_opened_panel_is_shown(p: Panel, c: Config)
    requires
        p.wf(),
    ensures
        faded_for(p.opened(c), ANIM_STEPS as nat) == (Panel {
            anim_t: ANIM_STEPS,
            anim_dir: 0,
            visible: true,
            ..p.opened(c)
        }),
        alpha_after(ANIM_STEPS as int) == FULL_ALPHA,
{
    reveal_with_fuel(faded_for, 7);
    assert(eased(6) == 6);
}

/// A panel that was closed is gone once the steps of the fade are done, and nothing else about
/// it changes.
pub proof fn law_closed_panel_is_hidden(p: Panel)
    requires
        p.wf(),
    ensures
        faded_for(p.closed(), ANIM_STEPS as nat) == (Panel {
            anim_t: 0,
            anim_dir: 0,
            visible: false,
            ..p.closed()
        }),
        alpha_after(0) == 0,
{
    reveal_with_fuel(faded_for, 7);
    assert(eased(0) == 0);
}

/// The panel never gets fainter on its way in, nor stronger on its way out.
pub proof fn law_fade_is_steady(s: int, t: int)
    requires
        0 <= s <= t <= ANIM_STEPS,
    ensures
        0 <= alpha_after(s) <= alpha_after(t) <= FULL_ALPHA,
{
    assert((6 - t) * (6 - t) <= (6 - s) * (6 - s) <= 36) by (nonlinear_arith)
        requires
            0 <= s <= t <= 6,
    ;
    assert(0 <= (6 - t) * (6 - t)) by (nonlinear_arith);
}

/// Where the switch is after a number of steps.
pub open spec fn switched_for(at: u8, on: bool, steps: nat) -> u8
    decreases steps,
{
    if steps == 0 {
        at
    } else {
        switched_for(switched(at, on) as u8, on, (steps - 1) as nat)
    }
}

/// The switch gets to where it belongs, from wherever it is, and stays there.
pub proof fn law_switch_arrives(at: u8, on: bool, steps: nat)
    requires
        at <= TOGGLE_STEPS,
        steps >= if on {
            TOGGLE_STEPS - at
        } else {
            at as int
        },
    ensures
        switched_for(at, on, steps) == if on {
            TOGGLE_STEPS
        } else {
            0
        },
    decreases steps,
{
    if steps > 0 {
        law_switch_arrives(switched(at, on) as u8, on, (steps - 1) as nat);
    }
}

/// The card of the displays leads from each monitor to another one, and back again.
pub proof fn law_monitors_go_round(cur: u32, n: nat, forward: bool)
    requires
        cur < n,
        1 < n <= u32::MAX,
    ensures
        0 <= next_monitor(cur, n, forward) < n,
        next_monitor(cur, n, forward) != cur,
        next_monitor(next_monitor(cur, n, forward) as u32, n, !forward) == cur,
{
}

/// To open the panel and to close it again keeps every setting, whatever the panel held before:
/// the background image, the monitor and the hotkey are those in use.
pub proof fn law_open_and_close_keeps_settings(p: Panel, c: Config)
    requires
        p.wf(),
        p.bg_path == c.bg_image_path,
    ensures
        p.opened(c).settings(c.monitor_index, packed_of(c.hotkey_mods, c.hotkey_vk)) == c,
        p.opened(c).closed().settings(c.monitor_index, packed_of(c.hotkey_mods, c.hotkey_vk)) == c,
{
    law_hotkey_unpacks(c.hotkey_mods, c.hotkey_vk);
}

/// Whether the sliders' values are within their bounds.
pub open spec fn sliders_in_bounds(p: Panel) -> bool {
    forall|i: int|
        #![trigger p.val[i]]
        0 <= i < 3 ==> slider_bounds(i).0 <= p.val[i] <= slider_bounds(i).1
}

/// Whether the values that a place stands for are within the bounds of the sliders.
pub open spec fn pointed_in_bounds(at: Pointed) -> bool {
    forall|i: int|
        #![trigger pointed_value(at, i)]
        0 <= i < 3 ==> slider_bounds(i).0 <= pointed_value(at, i) <= slider_bounds(i).1
}

/// Whatever is clicked and dragged, the sliders keep to their bounds, so the settings that are
/// kept do.
pub proof fn law_sliders_stay_in_bounds(
    p: Panel,
    mx: int,
    my: int,
    t: Thumbs,
    at: Pointed,
    monitor: u32,
    hotkey: u64,
)
    requires
        p.wf(),
        sliders_in_bounds(p),
        pointed_in_bounds(at),
    ensures
        sliders_in_bounds(p.clicked(p.click_at(mx, my, t, monitor), at)),
        sliders_in_bounds(p.dragged(at)),
        in_bounds(p.settings(monitor, hotkey)),
{
    assert(slider_bounds(0).0 <= p.val[0] <= slider_bounds(0).1);
    assert(slider_bounds(1).0 <= p.val[1] <= slider_bounds(1).1);
    assert(slider_bounds(2).0 <= p.val[2] <= slider_bounds(2).1);
    assert(slider_bounds(0).0 <= pointed_value(at, 0) <= slider_bounds(0).1);
    assert(slider_bounds(1).0 <= pointed_value(at, 1) <= slider_bounds(1).1);
    assert(slider_bounds(2).0 <= pointed_value(at, 2) <= slider_bounds(2).1);
}

/// The buttons of the header and the footer do what they say on either tab: a click on the
/// close button, on the button that saves a clip or on the button of the other tab is never
/// taken for another. At a resolution so low that the two tab buttons touch, the first one has the
/// place where they do.
pub proof fn law_buttons_work_on_each_tab(p: Panel, mx: int, my: int, t: Thumbs, monitor: u32)
    requires
        p.wf(),
    ensures
        p.on_close(mx, my) ==> p.click_at(mx, my, t, monitor) == Click::Close,
        p.on_save(mx, my) && !p.on_close(mx, my) ==> p.click_at(mx, my, t, monitor)
            == Click::SaveClip,
        p.lay.dpi > 0 && p.on_tab(0, mx, my) && p.active_tab == 1 ==> p.click_at(
            mx,
            my,
            t,
            monitor,
        ) == Click::Tab(0),
        p.lay.px(24) >= 2 && p.on_tab(1, mx, my) && p.active_tab == 0 ==> p.click_at(
            mx,
            my,
            t,
            monitor,
        ) == Click::Tab(1),
{
    lemma_px(p.lay.dpi as int);
}

/// A drag sets what is held to what the place stands for, and nothing else: each of the three
/// sliders its own value, and the colour track the hue. Where nothing is held it changes nothing.
pub proof fn law_drag_sets_what_is_held(p: Panel, at: Pointed)
    requires
        p.wf(),
    ensures
        ({
            let q = p.dragged(at);
            &&& q.val.len() == 3
            &&& q.val[0] == if p.drag == Some(0usize) {
                at.clip_secs
            } else {
                p.val[0]
            }
            &&& q.val[1] == if p.drag == Some(1usize) {
                at.fps
            } else {
                p.val[1]
            }
            &&& q.val[2] == if p.drag == Some(2usize) {
                at.bitrate_mbps
            } else {
                p.val[2]
            }
            &&& q.hue_bits == if p.drag == Some(99usize) {
                at.hue_bits
            } else {
                p.hue_bits
            }
            &&& q == (Panel { val: q.val, hue_bits: q.hue_bits, ..p })
        }),
{
}

/// A drag tells of a new clip length while the first slider is held and at no other time, and it
/// is the one that the panel then holds.
pub proof fn law_drag_tells_the_clip_length(p: Panel, at: Pointed)
    requires
        p.wf(),
    ensures
        p.told_by_drag(at) is Some <==> p.drag == Some(0usize),
        p.told_by_drag(at) matches Some(secs) ==> secs == p.dragged(at).val[0],
{
}

/// A slider that is clicked is held and set to what the place stands for; another drag goes on
/// from there, and once the button is let go a drag changes nothing any more.
pub proof fn law_sliders_are_dragged_until_let_go(p: Panel, i: usize, at: Pointed, to: Pointed)
    requires
        p.wf(),
        i < 3,
    ensures
        ({
            let q = p.clicked(Click::Slider(i), at);
            &&& q.wf()
            &&& q.drag == Some(i)
            &&& q.val[0] == if i == 0 {
                at.clip_secs
            } else {
                p.val[0]
            }
            &&& q.val[1] == if i == 1 {
                at.fps
            } else {
                p.val[1]
            }
            &&& q.val[2] == if i == 2 {
                at.bitrate_mbps
            } else {
                p.val[2]
            }
            &&& q == (Panel { val: q.val, drag: q.drag, ..p })
            &&& q.dragged(to) == p.clicked(Click::Slider(i), to)
            &&& q.released() == (Panel { drag: None, ..q })
            &&& q.released().dragged(to) == q.released()
        }),
{
    let q = p.clicked(Click::Slider(i), at);
    assert(q.dragged(to) =~= p.clicked(Click::Slider(i), to));
}

/// The colour track is held and set in the same way, and no slider moves with it.
pub proof fn law_hue_is_dragged_until_let_go(p: Panel, at: Pointed, to: Pointed)
    requires
        p.wf(),
    ensures
        ({
            let q = p.clicked(Click::Hue, at);
            &&& q.wf()
            &&& q == (Panel { hue_bits: at.hue_bits, drag: Some(99usize), ..p })
            &&& q.dragged(to) == (Panel { hue_bits: to.hue_bits, ..q })
            &&& q.released().dragged(to) == q.released()
        }),
{
}

/// The other clicks change nothing of the panel but what they are for: the tab that is shown, the
/// picking of a hotkey, which ends with either, and the switch, which a second click throws back.
pub proof fn law_clicks_change_what_they_are_for(p: Panel, tab: u8, monitor: u32, at: Pointed)
    ensures
        p.clicked(Click::Tab(tab), at) == (Panel { active_tab: tab, capturing_hotkey: false, ..p }),
        p.clicked(Click::StopPicking, at) == (Panel { capturing_hotkey: false, ..p }),
        p.clicked(Click::Startup, at).startup != p.startup,
        p.clicked(Click::Startup, at).clicked(Click::Startup, at) == p,
        p.clicked(Click::Startup, at) == (Panel {
            startup: p.clicked(Click::Startup, at).startup,
            ..p
        }),
        p.clicked(Click::Nothing, at) == p,
        p.clicked(Click::Close, at) == p,
        p.clicked(Click::SaveClip, at) == p,
        p.clicked(Click::StartPicking, at) == p,
        p.clicked(Click::Monitor(monitor), at) == p,
        p.clicked(Click::ClearImage, at) == p,
        p.clicked(Click::BrowseImage, at) == p,
{
}

/// Below the header and above the footer no button of either is hit.
proof fn lemma_between_header_and_footer(p: Panel, mx: int, my: int)
    requires
        p.wf(),
        p.lay.main_y(0) <= my < p.lay.foot_y(),
    ensures
        !p.on_close(mx, my),
        !p.on_save(mx, my),
        p.lay.dpi >= 10 ==> !p.on_tab(0, mx, my) && !p.on_tab(1, mx, my),
{
    lemma_px(p.lay.dpi as int);
}

/// What is on a card has room on it, and cards lie apart.
proof fn lemma_room_on_cards(lay: Lay)
    requires
        lay.wf(),
        lay.dpi >= 10,
    ensures
        lay.card_gap >= 1,
        lay.dir_h >= 0,
        lay.card_h >= 0,
        lay.color_h >= 0,
        0 <= lay.px(30) <= lay.tog_h,
        0 <= lay.px(12) <= lay.px(38),
        lay.px(38) + lay.px(12) <= lay.card_h,
        lay.px(12) <= lay.col_track_offset,
        lay.col_track_offset + lay.px(12) <= lay.color_h,
        lay.col_track_offset == lay.px(36),
        lay.content_x + lay.track_right == lay.ow,
        lay.track_right == lay.ow - lay.pad - lay.px(10),
{
    lemma_px(lay.dpi as int);
}

/// The tracks of the sliders are not close to anything below their cards.
proof fn lemma_below_the_sliders(p: Panel, mx: int, my: int, t: Thumbs)
    requires
        p.wf(),
        p.lay.dpi >= 10,
        p.lay.main_y(3) <= my,
    ensures
        !p.on_slider(0, t, mx, my),
        !p.on_slider(1, t, mx, my),
        !p.on_slider(2, t, mx, my),
{
    law_cards_do_not_overlap(p.lay);
    lemma_room_on_cards(p.lay);
}

/// A click along the track of a slider or close to its thumb, by twelve pixels of the design, takes
/// hold of that slider; only the settings tab has sliders.
pub proof fn law_tracks_take_clicks(
    p: Panel,
    i: int,
    mx: int,
    my: int,
    t: Thumbs,
    monitor: u32,
)
    requires
        p.wf(),
        p.lay.dpi >= 10,
        0 <= i < 3,
        ({
            let thumb = if i == 0 {
                t.clip_secs
            } else if i == 1 {
                t.fps
            } else {
                t.bitrate_mbps
            };
            p.lay.content_x <= mx <= p.lay.track_right || thumb - p.lay.px(12) <= mx <= thumb
                + p.lay.px(12)
        }),
        p.lay.main_y(i) + p.lay.track_offset - p.lay.px(12) <= my <= p.lay.main_y(i)
            + p.lay.track_offset + p.lay.px(12),
    ensures
        p.active_tab == 0 ==> p.click_at(mx, my, t, monitor) == Click::Slider(i as usize),
        p.active_tab == 1 ==> !(p.click_at(mx, my, t, monitor) is Slider),
{
    lemma_px(p.lay.dpi as int);
    law_cards_do_not_overlap(p.lay);
    lemma_between_header_and_footer(p, mx, my);
}

/// A click takes hold of a slider only at its track's height, and there along the track or close
/// to the thumb.
pub proof fn law_only_tracks_take_clicks(
    p: Panel,
    i: usize,
    mx: int,
    my: int,
    t: Thumbs,
    monitor: u32,
)
    requires
        p.wf(),
        p.click_at(mx, my, t, monitor) == Click::Slider(i),
    ensures
        i < 3,
        p.active_tab == 0,
        p.lay.main_y(i as int) + p.lay.track_offset - p.lay.px(12) <= my <= p.lay.main_y(i as int)
            + p.lay.track_offset + p.lay.px(12),
        ({
            let thumb = if i == 0 {
                t.clip_secs
            } else if i == 1 {
                t.fps
            } else {
                t.bitrate_mbps
            };
            p.lay.content_x <= mx <= p.lay.track_right || thumb - p.lay.px(12) <= mx <= thumb
                + p.lay.px(12)
        }),
{
    lemma_px(p.lay.dpi as int);
}

/// A click on the hotkey's card begins the picking of a hotkey, and ends it where it has begun; a
/// click on the switch, at the right end of the last card, throws it.
pub proof fn law_cards_of_settings_take_clicks(
    p: Panel,
    mx: int,
    my: int,
    t: Thumbs,
    monitor: u32,
)
    requires
        p.wf(),
        p.lay.dpi >= 10,
        p.active_tab == 0,
    ensures
        p.lay.pad <= mx <= p.lay.ow - p.lay.pad && p.lay.main_y(3) <= my <= p.lay.main_y(3)
            + p.lay.tog_h ==> p.click_at(mx, my, t, monitor) == if p.capturing_hotkey {
            Click::StopPicking
        } else {
            Click::StartPicking
        },
        p.lay.track_right - p.lay.px(52) <= mx <= p.lay.track_right && p.lay.main_y(5) + (
        p.lay.tog_h - p.lay.px(30)) / 2 <= my <= p.lay.main_y(5) + (p.lay.tog_h - p.lay.px(30)) / 2
            + p.lay.px(30) ==> p.click_at(mx, my, t, monitor) == Click::Startup,
{
    let lay = p.lay;
    law_cards_do_not_overlap(lay);
    lemma_room_on_cards(lay);
    let y = lay.main_y(5) + (lay.tog_h - lay.px(30)) / 2;
    if lay.pad <= mx <= lay.ow - lay.pad && lay.main_y(3) <= my <= lay.main_y(3) + lay.tog_h {
        lemma_between_header_and_footer(p, mx, my);
        lemma_below_the_sliders(p, mx, my, t);
    }
    if lay.track_right - lay.px(52) <= mx <= lay.track_right && y <= my <= y + lay.px(30) {
        lemma_between_header_and_footer(p, mx, my);
        lemma_below_the_sliders(p, mx, my, t);
        assert(p.on_switch(mx, my));
        assert(!p.on_card(lay.main_y(3), lay.tog_h as int, mx, my));
    }
}

/// On the advanced tab a click on the display's card leads to the monitor before where it is left
/// of the middle, and to the one after where it is not, as long as there is more than one; a
/// click on the colour track takes hold of it; a click on the background's card asks for an
/// image, and at its right end does away with the one that is there.
pub proof fn law_cards_of_advanced_take_clicks(
    p: Panel,
    mx: int,
    my: int,
    t: Thumbs,
    monitor: u32,
)
    requires
        p.wf(),
        p.lay.dpi >= 10,
        p.active_tab == 1,
        p.lay.pad <= mx <= p.lay.ow - p.lay.pad,
    ensures
        p.monitors.len() > 1 && p.lay.adv_y(0) <= my <= p.lay.adv_y(0) + p.lay.card_h ==> {
            &&& p.click_at(mx, my, t, monitor) is Monitor
            &&& mx < p.lay.ow / 2 && monitor == 0 ==> p.click_at(mx, my, t, monitor)
                == Click::Monitor((p.monitors.len() - 1) as u32)
            &&& mx < p.lay.ow / 2 && monitor > 0 ==> p.click_at(mx, my, t, monitor)
                == Click::Monitor((monitor - 1) as u32)
            &&& mx >= p.lay.ow / 2 && monitor + 1 < p.monitors.len() ==> p.click_at(
                mx,
                my,
                t,
                monitor,
            ) == Click::Monitor((monitor + 1) as u32)
            &&& mx >= p.lay.ow / 2 && monitor + 1 >= p.monitors.len() ==> p.click_at(
                mx,
                my,
                t,
                monitor,
            ) == Click::Monitor(0)
        },
        p.monitors.len() <= 1 ==> !(p.click_at(mx, my, t, monitor) is Monitor),
        p.lay.content_x <= mx <= p.lay.track_right && p.lay.adv_y(1) + p.lay.col_track_offset
            - p.lay.px(12) <= my <= p.lay.adv_y(1) + p.lay.col_track_offset + p.lay.px(12)
            ==> p.click_at(mx, my, t, monitor) == Click::Hue,
        p.lay.adv_y(2) <= my <= p.lay.adv_y(2) + p.lay.tog_h ==> p.click_at(mx, my, t, monitor)
            == if p.has_image && mx >= p.lay.ow - p.lay.pad - p.lay.close_sz {
            Click::ClearImage
        } else {
            Click::BrowseImage
        },
{
    let lay = p.lay;
    law_cards_do_not_overlap(lay);
    lemma_room_on_cards(lay);
    if lay.main_y(0) <= my < lay.foot_y() {
        lemma_between_header_and_footer(p, mx, my);
    }
    let first = p.on_card(lay.adv_y(0), lay.card_h as int, mx, my);
    let last = p.on_card(lay.adv_y(2), lay.tog_h as int, mx, my);
    if lay.adv_y(1) <= my <= lay.adv_y(1) + lay.color_h {
        assert(!first && !last);
    }
    if lay.adv_y(2) <= my {
        assert(!first);
    }
}

/// A click beside everything does nothing: one between header and footer that is neither close to
/// a track nor on a card that can be clicked.
pub proof fn law_empty_places_take_no_clicks(
    p: Panel,
    mx: int,
    my: int,
    t: Thumbs,
    monitor: u32,
)
    requires
        p.wf(),
        p.lay.dpi >= 10,
        p.lay.main_y(4) <= my <= p.lay.main_y(4) + p.lay.dir_h,
    ensures
        p.active_tab == 0 ==> p.click_at(mx, my, t, monitor) == Click::Nothing,
{
    lemma_px(p.lay.dpi as int);
    law_cards_do_not_overlap(p.lay);
    lemma_between_header_and_footer(p, mx, my);
}

/// The close button, the save button and the tab buttons are where the layout has them: the first
/// in the header's left corner, the second at the footer's right end and in the middle of its
/// height, the others in the header.
pub proof fn law_buttons_take_clicks(p: Panel, mx: int, my: int, t: Thumbs, monitor: u32)
    requires
        p.wf(),
        p.lay.dpi >= 10,
    ensures
        p.lay.close_x <= mx <= p.lay.close_x + p.lay.close_sz && p.lay.close_y <= my
            <= p.lay.close_y + p.lay.close_sz <==> p.click_at(mx, my, t, monitor) == Click::Close,
        p.lay.ow - p.lay.pad - p.lay.px(118) <= mx <= p.lay.ow - p.lay.pad && p.lay.foot_y() + (
        p.lay.px(52) - p.lay.px(32)) / 2 <= my <= p.lay.foot_y() + (p.lay.px(52) - p.lay.px(32))
            / 2 + p.lay.px(32) <==> p.click_at(mx, my, t, monitor) == Click::SaveClip,
        p.active_tab == 1 ==> (p.click_at(mx, my, t, monitor) == Click::Tab(0)
            <==> p.lay.tabs_x().0 <= mx <= p.lay.tabs_x().0 + p.lay.tab_btn_w && p.lay.tab_btn_y
            <= my <= p.lay.tab_btn_y + p.lay.tab_btn_h),
        p.active_tab == 0 ==> (p.click_at(mx, my, t, monitor) == Click::Tab(1)
            <==> p.lay.tabs_x().1 <= mx <= p.lay.tabs_x().1 + p.lay.tab_btn_w && p.lay.tab_btn_y
            <= my <= p.lay.tab_btn_y + p.lay.tab_btn_h),
        p.click_at(mx, my, t, monitor) != Click::Tab(p.active_tab),
{
    lemma_px(p.lay.dpi as int);
}

/// The panel opens on the settings in use: each slider shows its own, the switch stands where it
/// belongs, and nothing else changes but that it fades in with no hotkey being picked.
pub proof fn law_panel_opens_on_the_settings(p: Panel, c: Config)
    ensures
        ({
            let q = p.opened(c);
            &&& q.val.len() == 3
            &&& q.val[0] == c.clip_secs
            &&& q.val[1] == c.fps
            &&& q.val[2] == c.bitrate_mbps
            &&& q.startup == c.start_with_windows
            &&& c.start_with_windows ==> q.tog_anim == 8
            &&& !c.start_with_windows ==> q.tog_anim == 0
            &&& q.hue_bits == c.hue_bits
            &&& !q.capturing_hotkey
            &&& q.anim_dir == 1
            &&& q.active_tab == p.active_tab
            &&& q.visible == p.visible
            &&& q.anim_t == p.anim_t
            &&& q.drag == p.drag
            &&& q.bg_path == p.bg_path
            &&& q.has_image == p.has_image
            &&& q.monitors == p.monitors
            &&& q.lay == p.lay
        }),
        p.closed().anim_dir == -1,
        !p.closed().visible,
        !p.closed().capturing_hotkey,
        p.closed() == (Panel {
            anim_dir: p.closed().anim_dir,
            visible: false,
            capturing_hotkey: false,
            ..p
        }),
{
}

/// The settings that are kept are those that the panel holds, with the monitor and the hotkey
/// that are in use.
pub proof fn law_panel_settings_are_kept(p: Panel, monitor: u32, mods: u32, vk: u32)
    ensures
        ({
            let c = p.settings(monitor, (mods * 0x1_0000_0000 + vk) as u64);
            &&& c.monitor_index == monitor
            &&& c.clip_secs == p.val[0]
            &&& c.fps == p.val[1]
            &&& c.bitrate_mbps == p.val[2]
            &&& c.start_with_windows == p.startup
            &&& c.hue_bits == p.hue_bits
            &&& c.hotkey_mods == mods
            &&& c.hotkey_vk == vk
            &&& c.bg_image_path == p.bg_path
        }),
{
}

/// The encoder is run anew where the frame rate or the bitrate that is kept is another than
/// before, and for no other setting.
pub proof fn law_encoder_restarts_for_its_settings(
    p: Panel,
    q: Panel,
    monitor: u32,
    hotkey: u64,
    old_fps: u32,
    old_bitrate: u32,
)
    ensures
        p.settings(monitor, hotkey).fps != old_fps ==> p.needs_restart(old_fps, old_bitrate),
        p.settings(monitor, hotkey).bitrate_mbps != old_bitrate ==> p.needs_restart(
            old_fps,
            old_bitrate,
        ),
        p.settings(monitor, hotkey).fps == old_fps && p.settings(monitor, hotkey).bitrate_mbps
            == old_bitrate ==> !p.needs_restart(old_fps, old_bitrate),
        p.val[1] == q.val[1] && p.val[2] == q.val[2] ==> p.needs_restart(old_fps, old_bitrate)
            == q.needs_restart(old_fps, old_bitrate),
{
}

/// A panel is made hidden, on the settings tab, for the settings given: it is the one that opening
/// on them would show.
pub proof fn law_fresh_panel_is_hidden(c: Config, monitors: Seq<MonitorInfo>, lay: Lay)
    ensures
        ({
            let p = fresh_panel(c, monitors, lay);
            &&& !p.visible
            &&& p.anim_t == 0
            &&& p.anim_dir == 0
            &&& p.active_tab == 0
            &&& p.drag is None
            &&& !p.capturing_hotkey
            &&& !p.has_image
            &&& p.bg_path == c.bg_image_path
            &&& p.monitors == monitors
            &&& p.lay == lay
            &&& p.opened(c) == (Panel { anim_dir: 1, ..p })
        }),
{
    let p = fresh_panel(c, monitors, lay);
    assert(p.opened(c) =~= (Panel { anim_dir: 1, ..p }));
}

/// The panel that is shown or fading in closes, and any other one opens; so of two toggles the
/// second undoes the first. The window is put in place only where it is wholly hidden.
pub proof fn law_toggles_take_turns(p: Panel, c: Config, d: Config)
    requires
        p.wf(),
    ensures
        p.visible || p.anim_dir == 1 ==> p.toggled(c) == (p.closed(), Toggle::Close),
        !p.visible && p.anim_dir != 1 ==> p.toggled(c) == (
            p.opened(c),
            Toggle::Open { show_window: p.anim_t == 0 },
        ),
        p.toggled(c).1 == Toggle::Close ==> p.toggled(c).0.toggled(d).1 is Open,
        p.toggled(c).1 is Open ==> p.toggled(c).0.toggled(d).1 == Toggle::Close,
{
}

/// A fade goes one step at a time, the way it is set, between none and six, and ends at either:
/// the panel is then shown, or hidden. Nothing else of the panel changes.
pub proof fn law_fade_goes_step_by_step(p: Panel)
    requires
        p.wf(),
    ensures
        ({
            let q = p.faded();
            &&& p.anim_dir == 1 && p.anim_t < 6 ==> q.anim_t == p.anim_t + 1
            &&& p.anim_dir == -1 && p.anim_t > 0 ==> q.anim_t == p.anim_t - 1
            &&& p.anim_dir == 0 ==> q == p
            &&& p.anim_dir == 1 && q.anim_t == 6 ==> q.visible && q.anim_dir == 0
                && p.fade_outcome() == Fade::Shown
            &&& p.anim_dir == 1 && q.anim_t < 6 ==> q.visible == p.visible && q.anim_dir == 1
                && p.fade_outcome() == Fade::GoesOn
            &&& p.anim_dir == -1 && q.anim_t == 0 ==> !q.visible && q.anim_dir == 0
                && p.fade_outcome() == Fade::Hidden
            &&& p.anim_dir == -1 && q.anim_t > 0 ==> q.visible == p.visible && q.anim_dir == -1
                && p.fade_outcome() == Fade::GoesOn
            &&& q == (Panel { anim_t: q.anim_t, anim_dir: q.anim_dir, visible: q.visible, ..p })
            &&& 0 <= q.anim_t <= 6
        }),
{
}

/// The switch moves one eighth at a time towards where it belongs, and stays there.
pub proof fn law_switch_goes_step_by_step(at: u8)
    requires
        at <= 8,
    ensures
        at < 8 ==> switched(at, true) == at + 1,
        switched(8, true) == 8,
        at > 0 ==> switched(at, false) == at - 1,
        switched(0, false) == 0,
{
}

/// A background is shown where a path was chosen and its image could be loaded; the path is kept
/// either way.
pub proof fn law_chosen_background_is_kept(p: Panel, path: Seq<char>, loaded: bool)
    ensures
        p.with_background(path, loaded).bg_path == path,
        path.len() == 0 ==> !p.with_background(path, loaded).has_image,
        path.len() > 0 ==> p.with_background(path, loaded).has_image == loaded,
        p.with_background(path, loaded) == (Panel {
            bg_path: path,
            has_image: p.with_background(path, loaded).has_image,
            ..p
        }),
{
}

/// What a place of the mouse says: each half of the number is a coordinate, up to the multiple of
/// 65536 that makes it one of 16 bits with a sign.
pub proof fn law_mouse_places_are_signed(x: int, y: int)
    requires
        -0x8000 <= x < 0x8000,
        -0x8000 <= y < 0x8000,
    ensures
        signed16((x % 0x10000) as u32) == x,
        ({
            let lparam = ((y % 0x10000) * 0x10000 + x % 0x10000) as u32;
            signed16(lparam % 0x10000) == x && signed16(lparam / 0x10000) == y
        }),
{
}

/// Messages of the mouse are about the place that they name; a move counts while the left button
/// is down only.
pub proof fn law_mouse_messages_name_their_place(x: i32, y: i32, wparam: u64)
    requires
        -0x8000 <= x < 0x8000,
        -0x8000 <= y < 0x8000,
    ensures
        ({
            let lparam = ((y as int % 0x10000) * 0x10000 + x as int % 0x10000) as u32;
            &&& event_of(0x0201, wparam, lparam) == (PanelEvent::Down { x, y })
            &&& event_of(0x0084, wparam, lparam) == (PanelEvent::HitTest { x, y })
            &&& wparam % 2 == 1 ==> event_of(0x0200, wparam, lparam) == (PanelEvent::Drag { x, y })
            &&& wparam % 2 == 0 ==> event_of(0x0200, wparam, lparam) == PanelEvent::Nothing
            &&& event_of(0x0202, wparam, lparam) == PanelEvent::Up
        }),
{
    law_mouse_places_are_signed(x as int, y as int);
}

/// The other messages are told apart by their numbers alone, and the timers by theirs; a hotkey
/// that was picked comes along with its message.
pub proof fn law_messages_are_told_apart(message: u32, wparam: u64, lparam: u32)
    ensures
        event_of(0x0001, wparam, lparam) == PanelEvent::Create,
        event_of(0x0002, wparam, lparam) == PanelEvent::Destroy,
        event_of(0x000F, wparam, lparam) == PanelEvent::Paint,
        event_of(0x0014, wparam, lparam) == PanelEvent::EraseBackground,
        event_of(0x800A, wparam, lparam) == PanelEvent::Toggle,
        event_of(0x800B, wparam, lparam) == PanelEvent::HotkeyPicked(wparam),
        event_of(0x0113, 2, lparam) == PanelEvent::FadeTimer,
        event_of(0x0113, 3, lparam) == PanelEvent::SwitchTimer,
        event_of(0x0113, 4, lparam) == PanelEvent::TabTimer,
        !(2 <= wparam <= 4) ==> event_of(0x0113, wparam, lparam) == PanelEvent::Nothing,
        event_of(message, wparam, lparam) == PanelEvent::Other <==> message != 0x0001 && message
            != 0x0002 && message != 0x000F && message != 0x0014 && message != 0x0084 && message
            != 0x0113 && !(0x0200 <= message <= 0x0202) && message != 0x800A && message != 0x800B,
{
}

/// The panel is in the middle of the screen: as much is left on one side as on the other, to a
/// pixel, also where it is the larger of the two.
pub proof fn law_panel_is_in_the_middle(screen: int, size: int)
    ensures
        -1 <= screen - (half_left(screen, size) + size) - half_left(screen, size) <= 1,
        screen >= size ==> half_left(screen, size) + size <= screen && half_left(screen, size) >= 0,
        screen < size ==> half_left(screen, size) <= 0,
{
}

/// A monitor reaches from its left to its right edge and from its upper to its lower one; where
/// one of the two is no way at all there is none.
pub proof fn law_monitor_reaches_between_its_edges(left: i32, top: i32, right: i32, bottom: i32)
    requires
        right - left <= i32::MAX,
        bottom - top <= i32::MAX,
    ensures
        size_between(left, top, right, bottom) is Some <==> right - left > 0 && bottom - top > 0,
        size_between(left, top, right, bottom) matches Some(m) ==> left + m.w == right && top + m.h
            == bottom,
{
}

/// The sliders have room for all that the settings may be, and for nothing else.
pub proof fn law_sliders_have_room_for_the_settings(p: Panel, c: Config)
    ensures
        sliders_in_bounds(p.opened(c)) <==> in_bounds(c),
{
    let q = p.opened(c);
    assert(q.val[0] == c.clip_secs && q.val[1] == c.fps && q.val[2] == c.bitrate_mbps);
}

/// A click takes hold of the colour track only on the advanced tab, at its track's height, and there
/// along the track or close to the thumb; and close to the thumb it does so also beyond the track's
/// ends.
pub proof fn law_only_the_colour_track_takes_hold_of_the_hue(
    p: Panel,
    mx: int,
    my: int,
    t: Thumbs,
    monitor: u32,
)
    requires
        p.wf(),
        p.lay.dpi >= 10,
    ensures
        p.click_at(mx, my, t, monitor) == Click::Hue <==> {
            &&& p.active_tab == 1
            &&& p.lay.adv_y(1) + p.lay.col_track_offset - p.lay.px(12) <= my <= p.lay.adv_y(1)
                + p.lay.col_track_offset + p.lay.px(12)
            &&& p.lay.content_x <= mx <= p.lay.track_right || t.hue - p.lay.px(12) <= mx <= t.hue
                + p.lay.px(12)
        },
{
    let lay = p.lay;
    law_cards_do_not_overlap(lay);
    lemma_room_on_cards(lay);
    if lay.adv_y(1) <= my <= lay.adv_y(1) + lay.color_h {
        lemma_between_header_and_footer(p, mx, my);
        assert(!p.on_card(lay.adv_y(0), lay.card_h as int, mx, my));
        assert(!p.on_card(lay.adv_y(2), lay.tog_h as int, mx, my));
    }
}

/// A click does what a card is for only on that card, and on the tab that has it.
pub proof fn law_only_cards_do_what_they_are_for(
    p: Panel,
    mx: int,
    my: int,
    t: Thumbs,
    monitor: u32,
)
    requires
        p.wf(),
    ensures
        ({
            let click = p.click_at(mx, my, t, monitor);
            let lay = p.lay;
            &&& click == Click::StartPicking || click == Click::StopPicking ==> {
                &&& p.active_tab == 0
                &&& lay.pad <= mx <= lay.ow - lay.pad
                &&& lay.main_y(3) <= my <= lay.main_y(3) + lay.tog_h
            }
            &&& click == Click::StopPicking ==> p.capturing_hotkey
            &&& click == Click::StartPicking ==> !p.capturing_hotkey
            &&& click == Click::Startup ==> {
                &&& p.active_tab == 0
                &&& lay.track_right - lay.px(52) <= mx <= lay.track_right
                &&& lay.main_y(5) + (lay.tog_h - lay.px(30)) / 2 <= my <= lay.main_y(5) + (lay.tog_h
                    - lay.px(30)) / 2 + lay.px(30)
            }
            &&& click is Monitor ==> {
                &&& p.active_tab == 1
                &&& p.monitors.len() > 1
                &&& lay.pad <= mx <= lay.ow - lay.pad
                &&& lay.adv_y(0) <= my <= lay.adv_y(0) + lay.card_h
            }
            &&& click == Click::ClearImage || click == Click::BrowseImage ==> {
                &&& p.active_tab == 1
                &&& lay.pad <= mx <= lay.ow - lay.pad
                &&& lay.adv_y(2) <= my <= lay.adv_y(2) + lay.tog_h
            }
            &&& click == Click::ClearImage ==> p.has_image && mx >= lay.ow - lay.pad - lay.close_sz
        }),
{
    assert(p.lay.track_right == p.lay.ow - p.lay.pad - p.lay.px(10)) by {
        lemma_px(p.lay.dpi as int);
    }
}

} // verus!
