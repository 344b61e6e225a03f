use sticky_note::storage::AppData;
use sticky_note::timers::{AlarmChecker, MinuteKey};

fn key(h: u32, m: u32) -> MinuteKey {
    MinuteKey { year: 2024, ordinal: 100, hour: h, minute: m }
}

#[test]
fn rings_enabled_alarms_at_their_minute() {
    let mut d = AppData::default();
    d.add_alarm_with("a".to_string(), 7, 30, "one".to_string());
    d.add_alarm_with("b".to_string(), 7, 30, "two".to_string());
    d.add_alarm_with("c".to_string(), 7, 31, "three".to_string());
    d.toggle_alarm("b");
    let mut c = AlarmChecker::new();
    let alerts = c.check_at(&d.alarms, key(7, 30));
    assert_eq!(alerts.len(), 1);
    assert_eq!(alerts[0].alarm_id, "a");
    assert_eq!(alerts[0].memo, "one");
    assert_eq!((alerts[0].hour, alerts[0].minute), (7, 30));
}

#[test]
fn rings_once_per_minute() {
    let mut d = AppData::default();
    d.add_alarm_with("a".to_string(), 7, 30, "one".to_string());
    let mut c = AlarmChecker::new();
    assert_eq!(c.check_at(&d.alarms, key(7, 30)).len(), 1);
    assert_eq!(c.check_at(&d.alarms, key(7, 30)).len(), 0);
    let next_day = MinuteKey { year: 2024, ordinal: 101, hour: 7, minute: 30 };
    assert_eq!(c.check_at(&d.alarms, next_day).len(), 1);
}

#[test]
fn quiet_check_does_not_block_later_alarm() {
    let mut d = AppData::default();
    let mut c = AlarmChecker::new();
    assert_eq!(c.check_at(&d.alarms, key(9, 0)).len(), 0);
    d.add_alarm_with("late".to_string(), 9, 0, "m".to_string());
    assert_eq!(c.check_at(&d.alarms, key(9, 0)).len(), 1);
}

#[test]
fn check_now_rings_exactly_the_current_minute() {
    let mut d = AppData::default();
    for h in 0..24u32 {
        for m in 0..60u32 {
            d.add_alarm_with(format!("{h}-{m}"), h, m, String::new());
        }
    }
    let mut c = AlarmChecker::new();
    let (alerts, minute) = c.check_now(&d.alarms);
    assert_eq!(alerts.len(), 1);
    assert_eq!((alerts[0].hour, alerts[0].minute), (minute.hour, minute.minute));
    assert!(alerts[0].hour < 24 && alerts[0].minute < 60);
    assert_eq!(alerts[0].alarm_id, format!("{}-{}", alerts[0].hour, alerts[0].minute));
}
