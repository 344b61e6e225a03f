use sticky_note::storage::AppData;
use sticky_note::window::{
    calc_top_right, clamp_window_size, click_through_style, is_own_window, resize_window, restore_window_state,
    save_window_state, set_click_through, set_pinned, toggle_click_through, toggle_pinned,
    tray_only_style,
};

const WS_EX_LAYERED: u32 = 0x0008_0000;
const WS_EX_TRANSPARENT: u32 = 0x0000_0020;
const WS_EX_TOOLWINDOW: u32 = 0x0000_0080;
const WS_EX_APPWINDOW: u32 = 0x0004_0000;

#[test]
fn clamp_keeps_sizes_in_limits() {
    assert_eq!(clamp_window_size(100, 100), (280, 320));
    assert_eq!(clamp_window_size(1000, 2000), (600, 900));
    assert_eq!(clamp_window_size(320, 480), (320, 480));
    assert_eq!(clamp_window_size(i32::MIN, i32::MAX), (280, 900));
    let once = clamp_window_size(50, 5000);
    assert_eq!(clamp_window_size(once.0, once.1), once);
}

#[test]
fn save_then_restore_round_trip() {
    let mut d = AppData::default();
    save_window_state(&mut d, 40, 50, 400, 500, false);
    assert_eq!((d.window_x, d.window_y, d.window_w, d.window_h, d.is_pinned), (40, 50, 400, 500, false));
    let plan = restore_window_state(&d);
    assert_eq!((plan.width, plan.height), (400, 500));
    assert_eq!(plan.position, Some((40, 50)));
    assert!(!plan.is_pinned);
}

#[test]
fn restore_defaults_when_nothing_saved() {
    let d = AppData::default();
    let plan = restore_window_state(&d);
    assert_eq!((plan.width, plan.height), (320, 480));
    assert_eq!(plan.position, None);
    assert!(plan.is_pinned);
}

#[test]
fn restore_clamps_saved_size() {
    let mut d = AppData::default();
    save_window_state(&mut d, -5, 10, 2000, 10, true);
    let plan = restore_window_state(&d);
    assert_eq!((plan.width, plan.height), (600, 320));
    assert_eq!(plan.position, None);
}

#[test]
fn save_window_state_wraps_huge_width() {
    let mut d = AppData::default();
    save_window_state(&mut d, 0, 0, u32::MAX, 10, true);
    assert_eq!(d.window_w, -1);
}

#[test]
fn click_through_and_pin_toggles() {
    let mut d = AppData::default();
    assert!(toggle_click_through(&mut d));
    assert!(d.is_click_through);
    assert!(!toggle_click_through(&mut d));
    set_click_through(&mut d, true);
    assert!(d.is_click_through);
    set_pinned(&mut d, false);
    assert!(!d.is_pinned);
    assert!(toggle_pinned(&mut d, false));
    assert!(d.is_pinned);
    assert!(!toggle_pinned(&mut d, true));
    assert!(!d.is_pinned);
}

#[test]
fn top_right_position() {
    assert_eq!(calc_top_right(Some(1920), 320), (1570, 30));
    assert_eq!(calc_top_right(None, 320), (100, 100));
}

#[test]
fn resize_clamps_and_records() {
    let mut d = AppData::default();
    assert_eq!(resize_window(&mut d, 320, 480, 30, -20), (350, 460));
    assert_eq!((d.window_w, d.window_h), (350, 460));
    assert_eq!(resize_window(&mut d, 320, 480, -500, 1000), (280, 900));
    assert_eq!((d.window_w, d.window_h), (280, 900));
}

#[test]
fn click_through_style_bits() {
    let mask = WS_EX_LAYERED | WS_EX_TRANSPARENT;
    let base = 0x0000_0100u32;
    let on = click_through_style(base, mask, true);
    assert_eq!(on, base | mask);
    let off = click_through_style(on, mask, false);
    assert_eq!(off, base);
}

#[test]
fn tray_only_style_changes_once() {
    let (s1, changed1) = tray_only_style(WS_EX_APPWINDOW | 0x10, WS_EX_TOOLWINDOW, WS_EX_APPWINDOW);
    assert_eq!(s1, WS_EX_TOOLWINDOW | 0x10);
    assert!(changed1);
    let (s2, changed2) = tray_only_style(s1, WS_EX_TOOLWINDOW, WS_EX_APPWINDOW);
    assert_eq!(s2, s1);
    assert!(!changed2);
}

#[test]
fn own_window_match() {
    assert!(is_own_window(7, 7, "便签", "便签"));
    assert!(!is_own_window(8, 7, "便签", "便签"));
    assert!(!is_own_window(7, 7, "便签 ", "便签"));
    assert!(!is_own_window(7, 7, "", ""));
}
