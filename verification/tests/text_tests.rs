use sticky_note::handlers::{parse_time, AlarmSave, NoteSave};
use sticky_note::storage::AppData;
use sticky_note::text::{format_clock, parse_u32, push_decimal, push_two_digit, trim};

#[test]
fn trim_removes_unicode_whitespace() {
    assert_eq!(trim("  hi  "), "hi");
    assert_eq!(trim("\t\n x y \r"), "x y");
    assert_eq!(trim("\u{3000}全角\u{00A0}"), "全角");
    assert_eq!(trim("   "), "");
    assert_eq!(trim(""), "");
    assert_eq!(trim("a"), "a");
}

#[test]
fn trim_matches_std() {
    for s in ["", " ", "a b", "\u{2028}x\u{205F}", " \u{85}y\u{1680} ", "z\u{200B}"] {
        assert_eq!(trim(s), s.trim());
    }
}

#[test]
fn trim_is_idempotent() {
    let once = trim(" \t note \n");
    assert_eq!(trim(&once), once);
}

#[test]
fn parse_u32_matches_std() {
    for s in ["0", "7", "007", "+5", "+", "-1", "", "12a", "4294967295", "4294967296", "99999999999", " 1", "+-3"] {
        assert_eq!(parse_u32(s), s.parse::<u32>().ok(), "input {:?}", s);
    }
}

#[test]
fn decimal_and_two_digit_text() {
    let mut s = String::new();
    push_decimal(&mut s, 0);
    push_decimal(&mut s, 4294967295);
    assert_eq!(s, "04294967295");
    let mut t = String::new();
    push_two_digit(&mut t, 5);
    push_two_digit(&mut t, 42);
    push_two_digit(&mut t, 123);
    assert_eq!(t, "0542123");
}

#[test]
fn clock_text_is_zero_padded() {
    assert_eq!(format_clock(7, 5), "07:05");
    assert_eq!(format_clock(23, 59), "23:59");
    assert_eq!(format_clock(0, 0), "00:00");
    assert_eq!(format_clock(100, 7), "100:07");
}

#[test]
fn parse_time_accepts_valid_times() {
    assert_eq!(parse_time(" 7 ", "05"), Some((7, 5)));
    assert_eq!(parse_time("23", "59"), Some((23, 59)));
    assert_eq!(parse_time("+0", "0"), Some((0, 0)));
}

#[test]
fn parse_time_rejects_bad_input() {
    assert_eq!(parse_time("24", "00"), None);
    assert_eq!(parse_time("12", "60"), None);
    assert_eq!(parse_time("", "10"), None);
    assert_eq!(parse_time("ab", "10"), None);
    assert_eq!(parse_time("10", "-1"), None);
}

#[test]
fn parse_time_reads_back_clock_text() {
    for h in 0..24u32 {
        for m in [0u32, 1, 9, 10, 59] {
            let text = format_clock(h, m);
            let (hs, ms) = text.split_at(2);
            assert_eq!(parse_time(hs, &ms[1..]), Some((h, m)));
        }
    }
}

#[test]
fn save_note_input_ignores_blank_content() {
    let mut d = AppData::default();
    assert!(matches!(d.save_note_input("", "   "), NoteSave::Ignored));
    assert!(d.notes.is_empty());
}

#[test]
fn save_note_input_adds_then_updates() {
    let mut d = AppData::default();
    let id = match d.save_note_input("", "  buy milk ") {
        NoteSave::Added(id) => id,
        other => panic!("unexpected {:?}", other),
    };
    assert_eq!(d.notes[0].content, "buy milk");
    assert!(matches!(d.save_note_input(&id, " buy bread"), NoteSave::Updated(true)));
    assert_eq!(d.get_note(&id).unwrap().content, "buy bread");
    assert!(matches!(d.save_note_input("missing", "x"), NoteSave::Updated(false)));
    assert_eq!(d.notes.len(), 1);
}

#[test]
fn save_alarm_input_rejects_bad_time() {
    let mut d = AppData::default();
    assert!(matches!(d.save_alarm_input("", "25", "00", "x"), AlarmSave::Rejected));
    assert!(d.alarms.is_empty());
}

#[test]
fn save_alarm_input_adds_then_updates() {
    let mut d = AppData::default();
    let id = match d.save_alarm_input("", "6", "30", " gym ") {
        AlarmSave::Added(id) => id,
        other => panic!("unexpected {:?}", other),
    };
    let a = &d.alarms[0];
    assert_eq!((a.hour, a.minute, a.memo.as_str(), a.enabled), (6, 30, "gym", true));
    assert!(matches!(d.save_alarm_input(&id, "07", "05", ""), AlarmSave::Updated(true)));
    let a = &d.alarms[0];
    assert_eq!((a.hour, a.minute, a.memo.as_str()), (7, 5, ""));
    assert!(matches!(d.save_alarm_input("nope", "1", "1", "m"), AlarmSave::Updated(false)));
}

#[test]
fn trim_agrees_with_std_on_every_char() {
    for u in 0u32..0x1_0000 {
        if let Some(c) = char::from_u32(u) {
            let s = format!("{c}x{c}");
            assert_eq!(trim(&s), s.trim(), "char {:#x}", u);
        }
    }
}
