//! What the editor forms do with the user's input.
//!
//! The shell forwards each form submission here and redraws the lists when
//! the answer says that something was taken in.

use crate::clock::is_minute_stamp_text;
use crate::ids::{fresh_id_limit, is_uuid_v4_text};
use crate::storage::{
    alarm_ids, alarms_with_time, has_id, note_ids, notes_with_content, same_except_alarms,
    same_except_notes, AppData,
};
use crate::text::{parse_u32, trim, trimmed, two_digit, u32_text_value, law_two_digit_parses_back};
use vstd::prelude::*;

verus! {

/// The hour and minute that the two input fields denote: each field is
/// trimmed and parsed as a decimal `u32`, the hour must be below 24 and the
/// minute below 60.
pub open spec fn time_input_value(hour_text: Seq<char>, minute_text: Seq<char>) -> Option<
    (u32, u32),
> {
    match (u32_text_value(trimmed(hour_text)), u32_text_value(trimmed(minute_text))) {
        (Some(h), Some(m)) => if h < 24 && m < 60 {
            Some((h, m))
        } else {
            None
        },
        _ => None,
    }
}

/// Parses the alarm time fields; `None` when either field is not a number or
/// the time is out of range.
pub fn parse_time(hour_str: &str, minute_str: &str) -> (r: Option<(u32, u32)>)
    ensures
        r == time_input_value(hour_str@, minute_str@),
{
    let hour_text = trim(hour_str);
    let hour = match parse_u32(hour_text.as_str()) {
        Some(h) => h,
        None => return None,
    };
    let minute_text = trim(minute_str);
    let minute = match parse_u32(minute_text.as_str()) {
        Some(m) => m,
        None => return None,
    };
    if hour < 24 && minute < 60 {
        Some((hour, minute))
    } else {
        None
    }
}

/// The time that the editor shows for an alarm reads back as that time.
pub proof fn law_time_input_round_trip(hour: u32, minute: u32)
    requires
        hour < 24,
        minute < 60,
    ensures
        time_input_value(two_digit(hour as nat), two_digit(minute as nat)) == Some((hour, minute)),
{
    law_two_digit_parses_back(hour);
    law_two_digit_parses_back(minute);
}

/// What became of a submitted note.
#[derive(Debug)]
pub enum NoteSave {
    /// The trimmed content was empty; nothing changed.
    Ignored,
    /// A new note was added under this id.
    Added(String),
    /// An existing note was edited; whether the id was found.
    Updated(bool),
}

/// What became of a submitted alarm.
#[derive(Debug)]
pub enum AlarmSave {
    /// The time fields did not denote a time of day; nothing changed.
    Rejected,
    /// A new alarm was added under this id.
    Added(String),
    /// An existing alarm was edited; whether the id was found.
    Updated(bool),
}

impl AppData {
    /// Takes in the note editor: the content is trimmed; empty content is
    /// ignored; an empty id adds a note, any other id edits that note.
    pub fn save_note_input(&mut self, id: &str, content: &str) -> (r: NoteSave)
        ensures
            trimmed(content@).len() == 0 ==> r is Ignored && *final(self) == *old(self),
            trimmed(content@).len() > 0 && id@.len() == 0 ==> {
                &&& r matches NoteSave::Added(new_id) && {
                    &&& is_uuid_v4_text(new_id@)
                    &&& old(self).notes@.len() < fresh_id_limit() ==> !has_id(
                        note_ids(old(self).notes@),
                        new_id@,
                    )
                    &&& final(self).notes@.len() == old(self).notes@.len() + 1
                    &&& final(self).notes@.drop_last() == old(self).notes@
                    &&& final(self).notes@.last().id == new_id
                    &&& final(self).notes@.last().content@ == trimmed(content@)
                    &&& is_minute_stamp_text(final(self).notes@.last().created_at@)
                }
                &&& same_except_notes(*old(self), *final(self))
            },
            trimmed(content@).len() > 0 && id@.len() > 0 ==> {
                &&& r == NoteSave::Updated(has_id(note_ids(old(self).notes@), id@))
                &&& exists|c: String|
                    c@ == trimmed(content@) && final(self).notes@ == notes_with_content(
                        old(self).notes@,
                        id@,
                        c,
                    )
                &&& same_except_notes(*old(self), *final(self))
            },
    {
        let content = trim(content);
        if content.as_str().is_empty() {
            return NoteSave::Ignored;
        }
        if id.is_empty() {
            NoteSave::Added(self.add_note(content))
        } else {
            let found = self.update_note(id, content);
            NoteSave::Updated(found)
        }
    }

    /// Takes in the alarm editor: the memo is trimmed; a time that does not
    /// parse is rejected; an empty id adds an alarm, any other id edits that
    /// alarm.
    pub fn save_alarm_input(&mut self, id: &str, hour_str: &str, minute_str: &str, memo: &str) -> (r:
        AlarmSave)
        ensures
            time_input_value(hour_str@, minute_str@) is None ==> r is Rejected && *final(self)
                == *old(self),
            time_input_value(hour_str@, minute_str@) is Some && id@.len() == 0 ==> {
                let (h, m) = time_input_value(hour_str@, minute_str@)->0;
                &&& r matches AlarmSave::Added(new_id) && {
                    &&& is_uuid_v4_text(new_id@)
                    &&& old(self).alarms@.len() < fresh_id_limit() ==> !has_id(
                        alarm_ids(old(self).alarms@),
                        new_id@,
                    )
                    &&& final(self).alarms@.len() == old(self).alarms@.len() + 1
                    &&& final(self).alarms@.drop_last() == old(self).alarms@
                    &&& final(self).alarms@.last().id == new_id
                    &&& final(self).alarms@.last().hour == h
                    &&& final(self).alarms@.last().minute == m
                    &&& final(self).alarms@.last().memo@ == trimmed(memo@)
                    &&& final(self).alarms@.last().enabled
                }
                &&& same_except_alarms(*old(self), *final(self))
            },
            time_input_value(hour_str@, minute_str@) is Some && id@.len() > 0 ==> {
                let (h, m) = time_input_value(hour_str@, minute_str@)->0;
                &&& r == AlarmSave::Updated(has_id(alarm_ids(old(self).alarms@), id@))
                &&& exists|c: String|
                    c@ == trimmed(memo@) && final(self).alarms@ == alarms_with_time(
                        old(self).alarms@,
                        id@,
                        h,
                        m,
                        c,
                    )
                &&& same_except_alarms(*old(self), *final(self))
            },
    {
        let memo = trim(memo);
        match parse_time(hour_str, minute_str) {
            Some((hour, minute)) => {
                if id.is_empty() {
                    let ghost before = self.alarms@;
                    let new_id = self.add_alarm(hour, minute, memo);
                    assert(self.alarms@.drop_last() =~= before);
                    AlarmSave::Added(new_id)
                } else {
                    let found = self.update_alarm(id, hour, minute, memo);
                    AlarmSave::Updated(found)
                }
            },
            None => AlarmSave::Rejected,
        }
    }
}

} // verus!
