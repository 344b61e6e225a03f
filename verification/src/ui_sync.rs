//! The rows that the list views show, derived from the data.
//!
//! The views bind parallel arrays; the shell copies these rows into them
//! after every change.

use crate::storage::AppData;
use crate::text::{clock_text, format_clock};
use vstd::prelude::*;

verus! {

/// The note list: ids and contents, one entry per note, in order.
#[derive(Debug)]
pub struct NoteRows {
    pub ids: Vec<String>,
    pub contents: Vec<String>,
}

/// The alarm list: ids, `HH:MM` times, memos and enabled flags, one entry per
/// alarm, in order.
#[derive(Debug)]
pub struct AlarmRows {
    pub ids: Vec<String>,
    pub times: Vec<String>,
    pub memos: Vec<String>,
    pub enables: Vec<bool>,
}

/// The rows show exactly the notes of `data`.
pub open spec fn shows_notes(rows: NoteRows, data: AppData) -> bool {
    &&& rows.ids@.len() == data.notes@.len()
    &&& rows.contents@.len() == data.notes@.len()
    &&& forall|i: int|
        0 <= i < data.notes@.len() ==> {
            &&& #[trigger] rows.ids@[i]@ == data.notes@[i].id@
            &&& rows.contents@[i]@ == data.notes@[i].content@
        }
}

/// The rows show exactly the alarms of `data`.
pub open spec fn shows_alarms(rows: AlarmRows, data: AppData) -> bool {
    &&& rows.ids@.len() == data.alarms@.len()
    &&& rows.times@.len() == data.alarms@.len()
    &&& rows.memos@.len() == data.alarms@.len()
    &&& rows.enables@.len() == data.alarms@.len()
    &&& forall|i: int|
        0 <= i < data.alarms@.len() ==> {
            &&& #[trigger] rows.ids@[i]@ == data.alarms@[i].id@
            &&& rows.times@[i]@ == clock_text(
                data.alarms@[i].hour as nat,
                data.alarms@[i].minute as nat,
            )
            &&& rows.memos@[i]@ == data.alarms@[i].memo@
            &&& rows.enables@[i] == data.alarms@[i].enabled
        }
}

/// The note rows.
pub fn sync_notes(data: &AppData) -> (rows: NoteRows)
    ensures
        shows_notes(rows, *data),
{
    let mut ids: Vec<String> = Vec::new();
    let mut contents: Vec<String> = Vec::new();
    let mut i: usize = 0;
    while i < data.notes.len()
        invariant
            i <= data.notes@.len(),
            ids@.len() == i,
            contents@.len() == i,
            forall|j: int|
                0 <= j < i ==> {
                    &&& #[trigger] ids@[j]@ == data.notes@[j].id@
                    &&& contents@[j]@ == data.notes@[j].content@
                },
        decreases data.notes@.len() - i,
    {
        ids.push(data.notes[i].id.clone());
        contents.push(data.notes[i].content.clone());
        assert(ids@[i as int]@ == data.notes@[i as int].id@);
        assert(contents@[i as int]@ == data.notes@[i as int].content@);
        i = i + 1;
    }
    NoteRows { ids, contents }
}

/// The alarm rows.
pub fn sync_alarms(data: &AppData) -> (rows: AlarmRows)
    ensures
        shows_alarms(rows, *data),
{
    let mut ids: Vec<String> = Vec::new();
    let mut times: Vec<String> = Vec::new();
    let mut memos: Vec<String> = Vec::new();
    let mut enables: Vec<bool> = Vec::new();
    let mut i: usize = 0;
    while i < data.alarms.len()
        invariant
            i <= data.alarms@.len(),
            ids@.len() == i,
            times@.len() == i,
            memos@.len() == i,
            enables@.len() == i,
            forall|j: int| 0 <= j < i ==> #[trigger] ids@[j]@ == data.alarms@[j].id@,
            forall|j: int|
                0 <= j < i ==> #[trigger] times@[j]@ == clock_text(
                    data.alarms@[j].hour as nat,
                    data.alarms@[j].minute as nat,
                ),
            forall|j: int| 0 <= j < i ==> #[trigger] memos@[j]@ == data.alarms@[j].memo@,
            forall|j: int| 0 <= j < i ==> #[trigger] enables@[j] == data.alarms@[j].enabled,
        decreases data.alarms@.len() - i,
    {
        let a = &data.alarms[i];
        ids.push(a.id.clone());
        times.push(format_clock(a.hour, a.minute));
        memos.push(a.memo.clone());
        enables.push(a.enabled);
        assert(ids@[i as int]@ == data.alarms@[i as int].id@);
        assert(memos@[i as int]@ == data.alarms@[i as int].memo@);
        assert(times@[i as int]@ == clock_text(a.hour as nat, a.minute as nat));
        assert(enables@[i as int] == data.alarms@[i as int].enabled);
        i = i + 1;
    }
    AlarmRows { ids, times, memos, enables }
}

/// All rows: notes and alarms.
pub fn sync_all(data: &AppData) -> (rows: (NoteRows, AlarmRows))
    ensures
        shows_notes(rows.0, *data),
        shows_alarms(rows.1, *data),
{
    (sync_notes(data), sync_alarms(data))
}

} // verus!
