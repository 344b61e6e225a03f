use sticky_note::storage::AppData;
use sticky_note::tray::{
    command_event, hotkey_event, in_crease32, inside_fold32, pack_argb, tray_event_action, TrayAction, menu_item_grayed, tray_icon_action, TrayEvent, TrayIconAction,
    CMD_DISABLE_CLICK_THROUGH, CMD_ENABLE_CLICK_THROUGH, CMD_QUIT,
};
use sticky_note::ui_sync::{sync_alarms, sync_all, sync_notes};

const WM_RBUTTONUP: u32 = 0x0205;
const WM_LBUTTONDBLCLK: u32 = 0x0203;

#[test]
fn icon_messages() {
    assert_eq!(tray_icon_action(0x0205, WM_RBUTTONUP, WM_LBUTTONDBLCLK), TrayIconAction::ShowMenu);
    assert_eq!(
        tray_icon_action(0x7_0203, WM_RBUTTONUP, WM_LBUTTONDBLCLK),
        TrayIconAction::Send(TrayEvent::ShowWindow)
    );
    assert_eq!(tray_icon_action(0x0200, WM_RBUTTONUP, WM_LBUTTONDBLCLK), TrayIconAction::Ignore);
}

#[test]
fn menu_commands() {
    assert_eq!(command_event(CMD_ENABLE_CLICK_THROUGH), Some(TrayEvent::SetClickThrough(true)));
    assert_eq!(command_event(CMD_DISABLE_CLICK_THROUGH), Some(TrayEvent::SetClickThrough(false)));
    assert_eq!(command_event(CMD_QUIT | 0x1_0000), Some(TrayEvent::Quit));
    assert_eq!(command_event(1), None);
}

#[test]
fn hotkeys() {
    assert_eq!(hotkey_event(3001), Some(TrayEvent::ToggleClickThrough));
    assert_eq!(hotkey_event(3002), Some(TrayEvent::TogglePinned));
    assert_eq!(hotkey_event(3003), None);
}

#[test]
fn grayed_items() {
    assert_eq!(menu_item_grayed(true), (true, false));
    assert_eq!(menu_item_grayed(false), (false, true));
}

#[test]
fn note_rows_follow_notes() {
    let mut d = AppData::default();
    d.add_note_with("1".to_string(), "a".to_string(), "t".to_string());
    d.add_note_with("2".to_string(), "b".to_string(), "t".to_string());
    let rows = sync_notes(&d);
    assert_eq!(rows.ids, vec!["1".to_string(), "2".to_string()]);
    assert_eq!(rows.contents, vec!["a".to_string(), "b".to_string()]);
}

#[test]
fn alarm_rows_follow_alarms() {
    let mut d = AppData::default();
    d.add_alarm_with("x".to_string(), 6, 5, "m1".to_string());
    d.add_alarm_with("y".to_string(), 18, 45, "m2".to_string());
    d.toggle_alarm("y");
    let rows = sync_alarms(&d);
    assert_eq!(rows.ids, vec!["x".to_string(), "y".to_string()]);
    assert_eq!(rows.times, vec!["06:05".to_string(), "18:45".to_string()]);
    assert_eq!(rows.memos, vec!["m1".to_string(), "m2".to_string()]);
    assert_eq!(rows.enables, vec![true, false]);
    let (n, a) = sync_all(&d);
    assert!(n.ids.is_empty());
    assert_eq!(a.times.len(), 2);
}

#[test]
fn fold_corner_of_icon() {
    assert!(inside_fold32(23, 0, 24, 8));
    assert!(inside_fold32(16, 8, 24, 8));
    assert!(!inside_fold32(16, 9, 24, 8));
    assert!(!inside_fold32(15, 0, 24, 8));
    assert!(!inside_fold32(23, 2, 24, 8));
}

#[test]
fn fold_test_short_circuits_far_left() {
    assert!(!inside_fold32(i32::MIN, 0, 9, 8));
}

#[test]
fn crease_line_of_icon() {
    // body 24 wide, fold 8: the crease runs along x - 16 + y == 8 (±1)
    assert!(in_crease32(16, 8, 24, 8));
    assert!(in_crease32(23, 1, 24, 8));
    assert!(in_crease32(20, 3, 24, 8));
    assert!(!in_crease32(16, 0, 24, 8));
    assert!(!in_crease32(15, 9, 24, 8));
}

#[test]
fn argb_packing() {
    assert_eq!(pack_argb(255, 45, 45, 45), 0xFF2D2D2D);
    assert_eq!(pack_argb(0x12, 0x34, 0x56, 0x78), 0x12345678);
    assert_eq!(pack_argb(0, 0, 0, 0), 0);
}

#[test]
fn tray_events_to_actions() {
    assert_eq!(tray_event_action(TrayEvent::Quit, true), TrayAction::SaveWindowAndQuit);
    assert_eq!(tray_event_action(TrayEvent::Quit, false), TrayAction::Quit);
    assert_eq!(tray_event_action(TrayEvent::ShowWindow, true), TrayAction::ShowWindow);
    assert_eq!(tray_event_action(TrayEvent::ShowWindow, false), TrayAction::Ignore);
    assert_eq!(
        tray_event_action(TrayEvent::SetClickThrough(true), true),
        TrayAction::SetClickThrough(true)
    );
    assert_eq!(tray_event_action(TrayEvent::ToggleClickThrough, true), TrayAction::ToggleClickThrough);
    assert_eq!(tray_event_action(TrayEvent::TogglePinned, true), TrayAction::TogglePinned);
    assert_eq!(tray_event_action(TrayEvent::TogglePinned, false), TrayAction::Ignore);
}
