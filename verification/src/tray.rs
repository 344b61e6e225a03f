//! The meaning of the messages that reach the tray icon's hidden window:
//! clicks on the icon, menu commands and global hot keys.

use vstd::prelude::*;

verus! {

/// Id of the hot key (Ctrl+K) that toggles click-through.
pub const HOTKEY_ID_TOGGLE_CLICK_THROUGH: i32 = 3001;

/// Id of the hot key (Ctrl+L) that toggles pinning.
pub const HOTKEY_ID_TOGGLE_PINNED: i32 = 3002;

/// Id of the tray icon.
pub const TRAY_UID: u32 = 1001;

/// Menu command: enable click-through.
pub const CMD_ENABLE_CLICK_THROUGH: usize = 2001;

/// Menu command: disable click-through.
pub const CMD_DISABLE_CLICK_THROUGH: usize = 2002;

/// Menu command: quit.
pub const CMD_QUIT: usize = 2003;

/// What the tray asks the application to do.
#[derive(Debug, Clone, Copy, PartialEq, Eq, Structural)]
pub enum TrayEvent {
    Quit,
    ShowWindow,
    SetClickThrough(bool),
    ToggleClickThrough,
    TogglePinned,
}

/// What a mouse message on the tray icon calls for.
#[derive(Debug, Clone, Copy, PartialEq, Eq, Structural)]
pub enum TrayIconAction {
    /// Open the tray menu.
    ShowMenu,
    /// Send an event to the application.
    Send(TrayEvent),
    /// Nothing.
    Ignore,
}

/// The mouse message carried in the low 16 bits of the icon message's
/// `lparam`.
pub open spec fn icon_mouse_message(lparam: isize) -> u32 {
    (lparam as u32) & 0xFFFF
}

/// What the application does for a tray event.
#[derive(Debug, Clone, Copy, PartialEq, Eq, Structural)]
pub enum TrayAction {
    /// Save the window state, then quit.
    SaveWindowAndQuit,
    /// Quit without saving (the main window is gone).
    Quit,
    /// Show and focus the main window.
    ShowWindow,
    /// Set click-through to the given mode.
    SetClickThrough(bool),
    /// Flip click-through.
    ToggleClickThrough,
    /// Flip pinning.
    TogglePinned,
    /// Nothing to do.
    Ignore,
}

/// The action for a tray event. Quitting always quits, saving the window
/// state first when the main window still exists; every other event acts on
/// the main window and is dropped when it is gone.
pub fn tray_event_action(event: TrayEvent, window_alive: bool) -> (r: TrayAction)
    ensures
        r == (match event {
            TrayEvent::Quit => if window_alive {
                TrayAction::SaveWindowAndQuit
            } else {
                TrayAction::Quit
            },
            TrayEvent::ShowWindow => if window_alive {
                TrayAction::ShowWindow
            } else {
                TrayAction::Ignore
            },
            TrayEvent::SetClickThrough(on) => if window_alive {
                TrayAction::SetClickThrough(on)
            } else {
                TrayAction::Ignore
            },
            TrayEvent::ToggleClickThrough => if window_alive {
                TrayAction::ToggleClickThrough
            } else {
                TrayAction::Ignore
            },
            TrayEvent::TogglePinned => if window_alive {
                TrayAction::TogglePinned
            } else {
                TrayAction::Ignore
            },
        }),
{
    match event {
        TrayEvent::Quit => if window_alive {
            TrayAction::SaveWindowAndQuit
        } else {
            TrayAction::Quit
        },
        TrayEvent::ShowWindow => if window_alive {
            TrayAction::ShowWindow
        } else {
            TrayAction::Ignore
        },
        TrayEvent::SetClickThrough(on) => if window_alive {
            TrayAction::SetClickThrough(on)
        } else {
            TrayAction::Ignore
        },
        TrayEvent::ToggleClickThrough => if window_alive {
            TrayAction::ToggleClickThrough
        } else {
            TrayAction::Ignore
        },
        TrayEvent::TogglePinned => if window_alive {
            TrayAction::TogglePinned
        } else {
            TrayAction::Ignore
        },
    }
}

/// A right-button release opens the menu; a left double click shows the
/// window; other mouse messages are ignored. `right_button_up` and
/// `left_double_click` are the numbers of those window messages.
pub fn tray_icon_action(lparam: isize, right_button_up: u32, left_double_click: u32) -> (r:
    TrayIconAction)
    ensures
        r == (if icon_mouse_message(lparam) == right_button_up {
            TrayIconAction::ShowMenu
        } else if icon_mouse_message(lparam) == left_double_click {
            TrayIconAction::Send(TrayEvent::ShowWindow)
        } else {
            TrayIconAction::Ignore
        }),
{
    let ev = (lparam as u32) & 0xFFFF;
    if ev == right_button_up {
        TrayIconAction::ShowMenu
    } else if ev == left_double_click {
        TrayIconAction::Send(TrayEvent::ShowWindow)
    } else {
        TrayIconAction::Ignore
    }
}

/// The menu command carried in the low 16 bits of a command's `wparam`.
pub open spec fn menu_command(wparam: usize) -> usize {
    wparam & 0xFFFF
}

/// The event of a menu command, if it is one of the tray menu's.
pub fn command_event(wparam: usize) -> (r: Option<TrayEvent>)
    ensures
        r == (if menu_command(wparam) == CMD_ENABLE_CLICK_THROUGH {
            Some(TrayEvent::SetClickThrough(true))
        } else if menu_command(wparam) == CMD_DISABLE_CLICK_THROUGH {
            Some(TrayEvent::SetClickThrough(false))
        } else if menu_command(wparam) == CMD_QUIT {
            Some(TrayEvent::Quit)
        } else {
            None
        }),
{
    let id = wparam & 0xFFFF;
    if id == CMD_ENABLE_CLICK_THROUGH {
        Some(TrayEvent::SetClickThrough(true))
    } else if id == CMD_DISABLE_CLICK_THROUGH {
        Some(TrayEvent::SetClickThrough(false))
    } else if id == CMD_QUIT {
        Some(TrayEvent::Quit)
    } else {
        None
    }
}

/// The event of a hot key message, if it is one of the application's hot keys.
pub fn hotkey_event(wparam: usize) -> (r: Option<TrayEvent>)
    ensures
        r == (if wparam as i32 == HOTKEY_ID_TOGGLE_CLICK_THROUGH {
            Some(TrayEvent::ToggleClickThrough)
        } else if wparam as i32 == HOTKEY_ID_TOGGLE_PINNED {
            Some(TrayEvent::TogglePinned)
        } else {
            None
        }),
{
    let id = wparam as i32;
    if id == HOTKEY_ID_TOGGLE_CLICK_THROUGH {
        Some(TrayEvent::ToggleClickThrough)
    } else if id == HOTKEY_ID_TOGGLE_PINNED {
        Some(TrayEvent::TogglePinned)
    } else {
        None
    }
}

/// Which of the two click-through menu items is grayed out: the one that
/// would set the mode that is already on.
pub fn menu_item_grayed(click_through_enabled: bool) -> (r: (bool, bool))
    ensures
        r.0 == click_through_enabled,
        r.1 == !click_through_enabled,
{
    (click_through_enabled, !click_through_enabled)
}

/// Whether pixel (x, y) of a note body `w` wide lies in the folded top-right
/// corner of size `fold_sz`, as the drawn tray icon shades it. The last test
/// is only evaluated once the first two hold.
pub fn inside_fold32(x: i32, y: i32, w: i32, fold_sz: i32) -> (r: bool)
    requires
        i32::MIN <= w - fold_sz <= i32::MAX,
        x >= w - fold_sz && y <= fold_sz ==> i32::MIN <= x - (w - fold_sz) <= i32::MAX,
        x >= w - fold_sz && y <= fold_sz ==> i32::MIN <= (x - (w - fold_sz)) + y <= i32::MAX,
    ensures
        r == (x >= w - fold_sz && y <= fold_sz && (x - (w - fold_sz)) + y <= fold_sz),
{
    let edge = w - fold_sz;
    x >= edge && y <= fold_sz && (x - edge) + y <= fold_sz
}

/// Whether pixel (x, y) of the note body lies on the crease line of the fold:
/// within one pixel of the fold's diagonal, inside the fold's square.
pub fn in_crease32(x: i32, y: i32, w: i32, fold_sz: i32) -> (r: bool)
    requires
        i32::MIN <= w - fold_sz <= i32::MAX,
        i32::MIN <= x - (w - fold_sz) <= i32::MAX,
        i32::MIN <= (x - (w - fold_sz)) + y <= i32::MAX,
        i32::MIN < fold_sz < i32::MAX,
    ensures
        ({
            let diag = x - (w - fold_sz) + y;
            r == (fold_sz - 1 <= diag <= fold_sz + 1 && x >= w - fold_sz && y <= fold_sz)
        }),
{
    let diag = x - (w - fold_sz) + y;
    diag >= fold_sz - 1 && diag <= fold_sz + 1 && x >= w - fold_sz && y <= fold_sz
}

/// A 32-bit ARGB pixel: alpha in the top byte, then red, green and blue.
pub open spec fn argb_value(a: u8, r: u8, g: u8, b: u8) -> int {
    a * 0x100_0000 + r * 0x1_0000 + g * 0x100 + b
}

/// Packs the four channels of a pixel into one `u32`.
pub fn pack_argb(a: u8, r: u8, g: u8, b: u8) -> (p: u32)
    ensures
        p == argb_value(a, r, g, b),
{
    let (a32, r32, g32, b32) = (a as u32, r as u32, g as u32, b as u32);
    let p = a32 << 24 | r32 << 16 | g32 << 8 | b32;
    assert(p == a32 * 0x100_0000 + r32 * 0x1_0000 + g32 * 0x100 + b32) by (bit_vector)
        requires
            a32 < 256,
            r32 < 256,
            g32 < 256,
            b32 < 256,
            p == a32 << 24 | r32 << 16 | g32 << 8 | b32,
    ;
    p
}

/// A command is recognised whatever the notification code in the high word
/// of `wparam` is.
pub proof fn law_command_ignores_high_word(wparam: usize, command: usize)
    requires
        command < 0x10000,
    ensures
        menu_command((wparam & !0xFFFFusize) | command) == command,
{
    assert(((wparam & !0xFFFFusize) | command) & 0xFFFF == command) by (bit_vector)
        requires
            command < 0x10000,
    ;
}

} // verus!
