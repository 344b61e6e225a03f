use sticky_note::alarm_alert::{
    alert_texts, dismiss_alert, position_alert_centered_on_app, refocus_active_alert,
    AlertRegistry, Rect,
};
use sticky_note::storage::AppData;

#[test]
fn alert_ids_count_up_from_one() {
    let mut r = AlertRegistry::new();
    assert_eq!(r.allocate_id(), 1);
    assert_eq!(r.allocate_id(), 2);
    assert_eq!(r.allocate_id(), 3);
}

#[test]
fn modal_owner_is_acquired_once() {
    let mut r = AlertRegistry::new();
    assert!(!r.acquire_modal_owner(None));
    assert!(r.acquire_modal_owner(Some(77)));
    assert!(!r.acquire_modal_owner(Some(88)));
    assert_eq!(r.release_modal_owner(), Some(77));
    assert_eq!(r.release_modal_owner(), None);
}

#[test]
fn keep_top_timer_starts_once() {
    let mut r = AlertRegistry::new();
    assert!(r.ensure_keep_top_timer());
    assert!(!r.ensure_keep_top_timer());
}

#[test]
fn dismiss_deletes_alarm_and_releases_last() {
    let mut data = AppData::default();
    data.add_alarm_with("a1".to_string(), 7, 0, "x".to_string());
    data.add_alarm_with("a2".to_string(), 8, 0, "y".to_string());
    let mut r = AlertRegistry::new();
    assert!(r.acquire_modal_owner(Some(5)));
    let id1 = r.allocate_id();
    r.register(id1, "a1".to_string());
    let id2 = r.allocate_id();
    r.register(id2, "a2".to_string());
    assert!(refocus_active_alert(&r));

    let out = dismiss_alert(&mut r, &mut data, id1, "a1");
    assert!(out.removed);
    assert!(out.alarm_deleted);
    assert_eq!(out.released_owner, None);
    assert_eq!(data.alarms.len(), 1);
    assert_eq!(data.alarms[0].id, "a2");

    let again = dismiss_alert(&mut r, &mut data, id1, "a1");
    assert!(!again.removed);
    assert!(!again.alarm_deleted);
    assert_eq!(data.alarms.len(), 1);

    let last = dismiss_alert(&mut r, &mut data, id2, "a2");
    assert!(last.removed);
    assert_eq!(last.released_owner, Some(5));
    assert!(data.alarms.is_empty());
    assert!(!refocus_active_alert(&r));
}

#[test]
fn release_if_no_alerts() {
    let mut r = AlertRegistry::new();
    assert!(r.acquire_modal_owner(Some(9)));
    let id = r.allocate_id();
    r.register(id, "a".to_string());
    assert_eq!(r.release_modal_owner_if_no_alerts(), None);
    let (removed, empty) = r.close(id);
    assert!(removed && empty);
    assert_eq!(r.release_modal_owner_if_no_alerts(), Some(9));
}

#[test]
fn alert_texts_format_time_and_trim_memo() {
    let (t, m) = alert_texts(9, 3, "  stretch  ");
    assert_eq!(t, "09:03");
    assert_eq!(m, "stretch");
}

#[test]
fn alert_is_centred_on_app() {
    let app = Rect { left: 100, top: 100, right: 420, bottom: 580 };
    assert_eq!(position_alert_centered_on_app(app, 0, 0, None), (80, 210));
    assert_eq!(position_alert_centered_on_app(app, 200, 100, None), (160, 290));
}

#[test]
fn alert_is_kept_in_work_area() {
    let app = Rect { left: 1700, top: -50, right: 2020, bottom: 430 };
    let work = Rect { left: 0, top: 0, right: 1920, bottom: 1040 };
    let (x, y) = position_alert_centered_on_app(app, 360, 260, Some(work));
    assert_eq!((x, y), (1560, 60));
    let tiny = Rect { left: 10, top: 10, right: 100, bottom: 100 };
    assert_eq!(position_alert_centered_on_app(app, 360, 260, Some(tiny)), (10, 10));
}

#[test]
fn negative_centre_offset_rounds_toward_zero() {
    let app = Rect { left: 0, top: 0, right: 101, bottom: 0 };
    // (101 - 360) / 2 == -129 with truncation toward zero
    assert_eq!(position_alert_centered_on_app(app, 0, 0, None), (-129, -130));
}

#[test]
fn registered_ids_are_open_until_closed() {
    let mut r = AlertRegistry::new();
    let id = r.allocate_id();
    assert!(!r.is_open(id));
    r.register(id, "a".to_string());
    assert!(r.is_open(id));
    assert_eq!(r.close(id), (true, true));
    assert!(!r.is_open(id));
    assert_eq!(r.close(id), (false, true));
}

#[test]
fn new_ids_exceed_open_ids_and_can_register() {
    let mut r = AlertRegistry::new();
    let a = r.allocate_id();
    assert!(r.can_register(a));
    r.register(a, "x".to_string());
    assert!(!r.can_register(a));
    assert!(!r.can_register(a + 5));
    let b = r.allocate_id();
    assert!(b > a);
    assert!(r.can_allocate());
    assert!(r.can_register(b));
}

#[test]
fn closing_alert_whose_alarm_is_gone_deletes_nothing() {
    let mut data = AppData::default();
    let mut r = AlertRegistry::new();
    let id = r.allocate_id();
    r.register(id, "gone".to_string());
    let out = dismiss_alert(&mut r, &mut data, id, "gone");
    assert!(out.removed);
    assert!(!out.alarm_deleted);
}
