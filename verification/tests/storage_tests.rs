use sticky_note::storage::{AppData, DataDirBase, data_dir_base};

fn sample() -> AppData {
    let mut d = AppData::default();
    d.add_note_with("n1".to_string(), "first".to_string(), "2024-01-01 08:00".to_string());
    d.add_note_with("n2".to_string(), "second".to_string(), "2024-01-02 09:30".to_string());
    d.add_alarm_with("a1".to_string(), 7, 30, "wake".to_string());
    d.add_alarm_with("a2".to_string(), 22, 0, "sleep".to_string());
    d
}

#[test]
fn default_data_is_empty_and_pinned() {
    let d = AppData::default();
    assert!(d.notes.is_empty());
    assert!(d.alarms.is_empty());
    assert_eq!((d.window_x, d.window_y, d.window_w, d.window_h), (-1, -1, -1, -1));
    assert!(d.is_pinned);
    assert!(!d.is_click_through);
}

#[test]
fn add_note_gives_uuid_and_stamp() {
    let mut d = AppData::default();
    let id = d.add_note("hello".to_string());
    assert_eq!(id.len(), 36);
    let chars: Vec<char> = id.chars().collect();
    for (i, c) in chars.iter().enumerate() {
        if i == 8 || i == 13 || i == 18 || i == 23 {
            assert_eq!(*c, '-');
        } else {
            assert!(c.is_ascii_hexdigit() && !c.is_ascii_uppercase());
        }
    }
    assert_eq!(chars[14], '4');
    assert!(matches!(chars[19], '8' | '9' | 'a' | 'b'));
    assert_eq!(d.notes.len(), 1);
    assert_eq!(d.notes[0].id, id);
    assert_eq!(d.notes[0].content, "hello");
    let stamp: Vec<char> = d.notes[0].created_at.chars().collect();
    let l = stamp.len();
    assert!(l >= 16);
    assert_eq!(stamp[l - 12], '-');
    assert_eq!(stamp[l - 9], '-');
    assert_eq!(stamp[l - 6], ' ');
    assert_eq!(stamp[l - 3], ':');
}

#[test]
fn two_added_notes_get_different_ids() {
    let mut d = AppData::default();
    let a = d.add_note("a".to_string());
    let b = d.add_note("b".to_string());
    assert_ne!(a, b);
    assert_eq!(d.get_note(&a).unwrap().content, "a");
    assert_eq!(d.get_note(&b).unwrap().content, "b");
}

#[test]
fn update_note_then_get_reads_new_content() {
    let mut d = sample();
    assert!(d.update_note("n2", "changed".to_string()));
    let n = d.get_note("n2").unwrap();
    assert_eq!(n.content, "changed");
    assert_eq!(n.created_at, "2024-01-02 09:30");
    assert_eq!(d.get_note("n1").unwrap().content, "first");
}

#[test]
fn update_missing_note_changes_nothing() {
    let mut d = sample();
    assert!(!d.update_note("zz", "x".to_string()));
    assert_eq!(d.notes[0].content, "first");
    assert_eq!(d.notes[1].content, "second");
}

#[test]
fn update_note_touches_first_match_only() {
    let mut d = AppData::default();
    d.add_note_with("dup".to_string(), "one".to_string(), "t".to_string());
    d.add_note_with("dup".to_string(), "two".to_string(), "t".to_string());
    assert!(d.update_note("dup", "new".to_string()));
    assert_eq!(d.notes[0].content, "new");
    assert_eq!(d.notes[1].content, "two");
}

#[test]
fn delete_note_removes_all_with_id() {
    let mut d = sample();
    d.add_note_with("n1".to_string(), "again".to_string(), "t".to_string());
    assert!(d.delete_note("n1"));
    assert_eq!(d.notes.len(), 1);
    assert_eq!(d.notes[0].id, "n2");
    assert!(d.get_note("n1").is_none());
    assert!(!d.delete_note("n1"));
    assert_eq!(d.alarms.len(), 2);
}

#[test]
fn get_missing_note_is_none() {
    let d = sample();
    assert!(d.get_note("nope").is_none());
    assert!(d.get_note("").is_none());
}

#[test]
fn add_alarm_is_enabled_with_uuid() {
    let mut d = AppData::default();
    let id = d.add_alarm(6, 45, "run".to_string());
    assert_eq!(id.len(), 36);
    assert_eq!(d.alarms.len(), 1);
    let a = &d.alarms[0];
    assert_eq!((a.hour, a.minute, a.memo.as_str(), a.enabled), (6, 45, "run", true));
    assert_eq!(a.id, id);
}

#[test]
fn update_alarm_changes_time_and_memo_only() {
    let mut d = sample();
    d.toggle_alarm("a1");
    assert!(d.update_alarm("a1", 8, 15, "later".to_string()));
    let a = &d.alarms[0];
    assert_eq!((a.hour, a.minute, a.memo.as_str(), a.enabled), (8, 15, "later", false));
    assert_eq!(a.id, "a1");
    assert!(!d.update_alarm("zz", 1, 1, "x".to_string()));
}

#[test]
fn delete_alarm_reports_presence() {
    let mut d = sample();
    assert!(d.delete_alarm("a2"));
    assert_eq!(d.alarms.len(), 1);
    assert!(!d.delete_alarm("a2"));
    assert_eq!(d.notes.len(), 2);
}

#[test]
fn toggle_alarm_twice_restores() {
    let mut d = sample();
    assert!(!d.toggle_alarm("a2"));
    assert!(!d.alarms[1].enabled);
    assert!(d.toggle_alarm("a2"));
    assert!(d.alarms[1].enabled);
    assert!(!d.toggle_alarm("missing"));
}

#[test]
fn data_dir_prefers_appdata_on_windows() {
    let r = data_dir_base(true, Some("C:\\A".to_string()), Some("C:\\U".to_string()), None);
    assert_eq!(r, DataDirBase::AppData("C:\\A".to_string()));
    let r = data_dir_base(false, Some("C:\\A".to_string()), Some("/u".to_string()), Some("/h".to_string()));
    assert_eq!(r, DataDirBase::Home("/u".to_string()));
    let r = data_dir_base(true, None, None, Some("/h".to_string()));
    assert_eq!(r, DataDirBase::Home("/h".to_string()));
    assert_eq!(data_dir_base(false, None, None, None), DataDirBase::CurrentDir);
}
