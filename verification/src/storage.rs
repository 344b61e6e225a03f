//! The data model: notes, alarms and the saved window state, with the
//! operations that edit them.
//!
//! Every edit here is a pure change of the in-memory value; the shell writes
//! the value to disk after each edit that changed it.

use crate::clock::{is_minute_stamp_text, read_local_clock};
use crate::ids::{fresh_id_limit, fresh_uuid_text, is_uuid_v4_text, texts};
use vstd::prelude::*;

verus! {

/// A sticky note.
#[derive(Debug, Clone)]
pub struct Note {
    /// Unique id, used to edit and delete the note.
    pub id: String,
    /// The text of the note.
    pub content: String,
    /// Creation time, kept as display text.
    pub created_at: String,
}

/// An alarm.
#[derive(Debug, Clone)]
pub struct Alarm {
    /// Unique id.
    pub id: String,
    /// Hour of the day, 24-hour clock.
    pub hour: u32,
    /// Minute of the hour.
    pub minute: u32,
    /// The reminder text.
    pub memo: String,
    /// Whether the alarm rings.
    pub enabled: bool,
}

/// The whole persistent state of the application.
#[derive(Debug, Clone)]
pub struct AppData {
    /// All notes.
    pub notes: Vec<Note>,
    /// All alarms.
    pub alarms: Vec<Alarm>,
    /// Window position X at the last close (-1: none, place top right).
    pub window_x: i32,
    /// Window position Y at the last close.
    pub window_y: i32,
    /// Window width at the last close (-1: default width).
    pub window_w: i32,
    /// Window height at the last close (-1: default height).
    pub window_h: i32,
    /// Whether the window stays on top.
    pub is_pinned: bool,
    /// Whether mouse input passes through the window.
    pub is_click_through: bool,
}

// ==================== specification ====================

/// The ids of the notes, in order.
pub open spec fn note_ids(notes: Seq<Note>) -> Seq<Seq<char>> {
    notes.map_values(|n: Note| n.id@)
}

/// The ids of the alarms, in order.
pub open spec fn alarm_ids(alarms: Seq<Alarm>) -> Seq<Seq<char>> {
    alarms.map_values(|a: Alarm| a.id@)
}

/// Some entry carries the id.
pub open spec fn has_id(ids: Seq<Seq<char>>, id: Seq<char>) -> bool {
    exists|i: int| 0 <= i < ids.len() && ids[i] == id
}

/// `i` is the first position that carries the id.
pub open spec fn is_first_index(ids: Seq<Seq<char>>, id: Seq<char>, i: int) -> bool {
    &&& 0 <= i < ids.len()
    &&& ids[i] == id
    &&& forall|j: int| 0 <= j < i ==> ids[j] != id
}

/// The first position that carries the id, or -1 when none does; this is the
/// entry that a lookup by id finds.
pub open spec fn first_index(ids: Seq<Seq<char>>, id: Seq<char>) -> int {
    if has_id(ids, id) {
        choose|i: int| is_first_index(ids, id, i)
    } else {
        -1
    }
}

/// Where an id occurs, a first occurrence exists.
pub proof fn lemma_first_index_exists(ids: Seq<Seq<char>>, id: Seq<char>, w: int)
    requires
        0 <= w < ids.len(),
        ids[w] == id,
    ensures
        exists|i: int| is_first_index(ids, id, i),
    decreases w,
{
    if exists|j: int| 0 <= j < w && ids[j] == id {
        let j = choose|j: int| 0 <= j < w && ids[j] == id;
        lemma_first_index_exists(ids, id, j);
    } else {
        assert(is_first_index(ids, id, w));
    }
}

/// The first position is unique, and it is what `first_index` names.
pub proof fn lemma_first_index_is(ids: Seq<Seq<char>>, id: Seq<char>, i: int)
    requires
        is_first_index(ids, id, i),
    ensures
        first_index(ids, id) == i,
{
    assert(has_id(ids, id));
    let k = choose|k: int| is_first_index(ids, id, k);
    if k < i {
        assert(ids[k] != id);
    } else if i < k {
        assert(ids[i] != id);
    }
}

/// `first_index` is a position that carries the id when the id occurs, and
/// -1 otherwise.
pub proof fn lemma_first_index(ids: Seq<Seq<char>>, id: Seq<char>)
    ensures
        has_id(ids, id) ==> is_first_index(ids, id, first_index(ids, id)),
        !has_id(ids, id) <==> first_index(ids, id) == -1,
{
    if has_id(ids, id) {
        let w = choose|w: int| 0 <= w < ids.len() && ids[w] == id;
        lemma_first_index_exists(ids, id, w);
    }
}

/// The notes after the content of the first note with `id` is replaced.
pub open spec fn notes_with_content(notes: Seq<Note>, id: Seq<char>, content: String) -> Seq<
    Note,
> {
    let k = first_index(note_ids(notes), id);
    if k < 0 {
        notes
    } else {
        notes.update(k, Note { content: content, ..notes[k] })
    }
}

/// The predicate that keeps the notes whose id differs from `id`.
pub open spec fn note_kept(id: Seq<char>) -> spec_fn(Note) -> bool {
    |n: Note| n.id@ != id
}

/// The notes after every note with `id` is removed.
pub open spec fn notes_without(notes: Seq<Note>, id: Seq<char>) -> Seq<Note> {
    notes.filter(note_kept(id))
}

/// The alarms after the first alarm with `id` gets a new time and memo.
pub open spec fn alarms_with_time(
    alarms: Seq<Alarm>,
    id: Seq<char>,
    hour: u32,
    minute: u32,
    memo: String,
) -> Seq<Alarm> {
    let k = first_index(alarm_ids(alarms), id);
    if k < 0 {
        alarms
    } else {
        alarms.update(k, Alarm { hour: hour, minute: minute, memo: memo, ..alarms[k] })
    }
}

/// The predicate that keeps the alarms whose id differs from `id`.
pub open spec fn alarm_kept(id: Seq<char>) -> spec_fn(Alarm) -> bool {
    |a: Alarm| a.id@ != id
}

/// The alarms after every alarm with `id` is removed.
pub open spec fn alarms_without(alarms: Seq<Alarm>, id: Seq<char>) -> Seq<Alarm> {
    alarms.filter(alarm_kept(id))
}

/// The alarms after the first alarm with `id` has its enabled flag flipped.
pub open spec fn alarms_toggled(alarms: Seq<Alarm>, id: Seq<char>) -> Seq<Alarm> {
    let k = first_index(alarm_ids(alarms), id);
    if k < 0 {
        alarms
    } else {
        alarms.update(k, Alarm { enabled: !alarms[k].enabled, ..alarms[k] })
    }
}

/// What `toggle_alarm` answers: the new enabled flag of the first alarm with
/// `id`, or false when there is none.
pub open spec fn toggled_state(alarms: Seq<Alarm>, id: Seq<char>) -> bool {
    let k = first_index(alarm_ids(alarms), id);
    k >= 0 && !alarms[k].enabled
}

/// The window and mode fields of two values agree.
pub open spec fn same_window_state(a: AppData, b: AppData) -> bool {
    &&& a.window_x == b.window_x
    &&& a.window_y == b.window_y
    &&& a.window_w == b.window_w
    &&& a.window_h == b.window_h
    &&& a.is_pinned == b.is_pinned
    &&& a.is_click_through == b.is_click_through
}

/// Only the notes of `b` differ from `a`.
pub open spec fn same_except_notes(a: AppData, b: AppData) -> bool {
    a.alarms@ == b.alarms@ && same_window_state(a, b)
}

/// Only the alarms of `b` differ from `a`.
pub open spec fn same_except_alarms(a: AppData, b: AppData) -> bool {
    a.notes@ == b.notes@ && same_window_state(a, b)
}

// ==================== construction ====================

impl Default for AppData {
    /// No notes, no alarms, no saved window geometry, pinned on top.
    fn default() -> (r: AppData)
        ensures
            r.notes@.len() == 0,
            r.alarms@.len() == 0,
            r.window_x == -1,
            r.window_y == -1,
            r.window_w == -1,
            r.window_h == -1,
            r.is_pinned,
            !r.is_click_through,
    {
        AppData {
            notes: Vec::new(),
            alarms: Vec::new(),
            window_x: -1,
            window_y: -1,
            window_w: -1,
            window_h: -1,
            is_pinned: true,
            is_click_through: false,
        }
    }
}

// ==================== storage location ====================

/// Where the data directory lies.
#[derive(Debug, PartialEq, Eq)]
pub enum DataDirBase {
    /// `<APPDATA>/便签`, on Windows.
    AppData(String),
    /// `<home>/.sticky-note`.
    Home(String),
    /// The current directory.
    CurrentDir,
}

/// Chooses the data directory from the environment: on Windows the
/// `APPDATA` folder when it is set; otherwise, or when it is not set, the
/// home folder from `USERPROFILE`, else from `HOME`; the current directory
/// when neither is set. A variable that is unset or not valid Unicode counts
/// as absent.
pub fn data_dir_base(
    is_windows: bool,
    appdata: Option<String>,
    userprofile: Option<String>,
    home: Option<String>,
) -> (r: DataDirBase)
    ensures
        r == (if is_windows && appdata is Some {
            DataDirBase::AppData(appdata->0)
        } else if userprofile is Some {
            DataDirBase::Home(userprofile->0)
        } else if home is Some {
            DataDirBase::Home(home->0)
        } else {
            DataDirBase::CurrentDir
        }),
{
    if is_windows {
        if let Some(dir) = appdata {
            return DataDirBase::AppData(dir);
        }
    }
    match userprofile {
        Some(dir) => DataDirBase::Home(dir),
        None => match home {
            Some(dir) => DataDirBase::Home(dir),
            None => DataDirBase::CurrentDir,
        },
    }
}

// ==================== lookup ====================

fn find_note_index(notes: &Vec<Note>, key: &String) -> (r: Option<usize>)
    ensures
        match r {
            Some(i) => is_first_index(note_ids(notes@), key@, i as int),
            None => !has_id(note_ids(notes@), key@),
        },
{
    let mut i: usize = 0;
    while i < notes.len()
        invariant
            i <= notes@.len(),
            forall|j: int| 0 <= j < i ==> #[trigger] note_ids(notes@)[j] != key@,
        decreases notes@.len() - i,
    {
        if notes[i].id == *key {
            return Some(i);
        }
        i = i + 1;
    }
    None
}

fn find_alarm_index(alarms: &Vec<Alarm>, key: &String) -> (r: Option<usize>)
    ensures
        match r {
            Some(i) => is_first_index(alarm_ids(alarms@), key@, i as int),
            None => !has_id(alarm_ids(alarms@), key@),
        },
{
    let mut i: usize = 0;
    while i < alarms.len()
        invariant
            i <= alarms@.len(),
            forall|j: int| 0 <= j < i ==> #[trigger] alarm_ids(alarms@)[j] != key@,
        decreases alarms@.len() - i,
    {
        if alarms[i].id == *key {
            return Some(i);
        }
        i = i + 1;
    }
    None
}

fn note_id_texts(notes: &Vec<Note>) -> (r: Vec<String>)
    ensures
        texts(r@) == note_ids(notes@),
{
    let mut r: Vec<String> = Vec::new();
    let mut i: usize = 0;
    while i < notes.len()
        invariant
            i <= notes@.len(),
            r@.len() == i,
            texts(r@) == note_ids(notes@).take(i as int),
        decreases notes@.len() - i,
    {
        let ghost before = r@;
        r.push(notes[i].id.clone());
        assert forall|j: int| 0 <= j < i + 1 implies #[trigger] texts(r@)[j] == note_ids(notes@).take(
            i + 1,
        )[j] by {
            if j < i {
                assert(r@[j] == before[j]);
                assert(texts(before)[j] == note_ids(notes@).take(i as int)[j]);
            }
        }
        i = i + 1;
        assert(texts(r@) =~= note_ids(notes@).take(i as int));
    }
    assert(note_ids(notes@).take(i as int) =~= note_ids(notes@));
    r
}

fn alarm_id_texts(alarms: &Vec<Alarm>) -> (r: Vec<String>)
    ensures
        texts(r@) == alarm_ids(alarms@),
{
    let mut r: Vec<String> = Vec::new();
    let mut i: usize = 0;
    while i < alarms.len()
        invariant
            i <= alarms@.len(),
            r@.len() == i,
            texts(r@) == alarm_ids(alarms@).take(i as int),
        decreases alarms@.len() - i,
    {
        let ghost before = r@;
        r.push(alarms[i].id.clone());
        assert forall|j: int| 0 <= j < i + 1 implies #[trigger] texts(r@)[j] == alarm_ids(alarms@).take(
            i + 1,
        )[j] by {
            if j < i {
                assert(r@[j] == before[j]);
                assert(texts(before)[j] == alarm_ids(alarms@).take(i as int)[j]);
            }
        }
        i = i + 1;
        assert(texts(r@) =~= alarm_ids(alarms@).take(i as int));
    }
    assert(alarm_ids(alarms@).take(i as int) =~= alarm_ids(alarms@));
    r
}

/// Carrying an id is being among the ids.
pub proof fn lemma_has_id_is_contains(ids: Seq<Seq<char>>, id: Seq<char>)
    ensures
        has_id(ids, id) == ids.contains(id),
{
}

// ==================== notes ====================

impl AppData {
    /// Appends a note with the given id, content and creation stamp.
    pub fn add_note_with(&mut self, id: String, content: String, created_at: String)
        ensures
            final(self).notes@ == old(self).notes@.push(
                Note { id: id, content: content, created_at: created_at },
            ),
            same_except_notes(*old(self), *final(self)),
    {
        self.notes.push(Note { id, content, created_at });
    }

    /// Adds a note with a fresh random id and the current local time as its
    /// creation stamp, and returns the id.
    pub fn add_note(&mut self, content: String) -> (id: String)
        ensures
            is_uuid_v4_text(id@),
            final(self).notes@.len() == old(self).notes@.len() + 1,
            final(self).notes@.drop_last() == old(self).notes@,
            final(self).notes@.last().id == id,
            final(self).notes@.last().content == content,
            is_minute_stamp_text(final(self).notes@.last().created_at@),
            old(self).notes@.len() < fresh_id_limit() ==> !has_id(note_ids(old(self).notes@), id@),
            same_except_notes(*old(self), *final(self)),
    {
        let created_at = read_local_clock().into_stamp();
        let taken = note_id_texts(&self.notes);
        let id = fresh_uuid_text(&taken);
        proof {
            lemma_has_id_is_contains(note_ids(self.notes@), id@);
        }
        self.add_note_with(id.clone(), content, created_at);
        assert(self.notes@.drop_last() =~= old(self).notes@);
        id
    }

    /// Replaces the content of the first note with `id`; answers whether
    /// such a note exists.
    pub fn update_note(&mut self, id: &str, content: String) -> (found: bool)
        ensures
            found == has_id(note_ids(old(self).notes@), id@),
            final(self).notes@ == notes_with_content(old(self).notes@, id@, content),
            same_except_notes(*old(self), *final(self)),
    {
        let key = id.to_owned();
        match find_note_index(&self.notes, &key) {
            Some(i) => {
                proof {
                    lemma_first_index_is(note_ids(self.notes@), id@, i as int);
                }
                self.notes[i].content = content;
                true
            },
            None => {
                proof {
                    lemma_first_index(note_ids(self.notes@), id@);
                }
                false
            },
        }
    }

    /// Removes every note with `id`; answers whether any was removed.
    pub fn delete_note(&mut self, id: &str) -> (deleted: bool)
        ensures
            deleted == has_id(note_ids(old(self).notes@), id@),
            final(self).notes@ == notes_without(old(self).notes@, id@),
            same_except_notes(*old(self), *final(self)),
    {
        let key = id.to_owned();
        let ghost o = self.notes@;
        let ghost p = note_kept(id@);
        let len_before = self.notes.len();
        let mut i: usize = 0;
        let ghost mut j: int = 0;
        assert(o.take(0) =~= Seq::<Note>::empty());
        assert(o.skip(0) =~= o);
        proof {
            reveal(Seq::filter);
        }
        while i < self.notes.len()
            invariant
                0 <= j <= o.len(),
                len_before == o.len(),
                i == o.take(j).filter(p).len(),
                self.notes@ == o.take(j).filter(p) + o.skip(j),
                self.notes@.len() == o.len() - (j - i),
                (j - i > 0) == (exists|k: int| 0 <= k < j && #[trigger] o[k].id@ == id@),
                key@ == id@,
                p == note_kept(id@),
                same_except_notes(*old(self), *self),
            decreases self.notes@.len() - i,
        {
            assert(self.notes@[i as int] == o[j]);
            assert(o.take(j + 1) =~= o.take(j).push(o[j]));
            proof {
                o.take(j).lemma_filter_push(o[j], p);
            }
            if self.notes[i].id == key {
                self.notes.remove(i);
                assert(self.notes@ =~= o.take(j + 1).filter(p) + o.skip(j + 1));
            } else {
                i = i + 1;
                assert(self.notes@ =~= o.take(j + 1).filter(p) + o.skip(j + 1));
            }
            proof {
                j = j + 1;
            }
        }
        proof {
            assert(o.skip(j).len() == 0);
            assert(o.take(j) =~= o);
            assert(self.notes@ =~= o.filter(p));
            if has_id(note_ids(o), id@) {
                let w = choose|w: int| 0 <= w < note_ids(o).len() && note_ids(o)[w] == id@;
                assert(o[w].id@ == id@);
            }
            if exists|k: int| 0 <= k < j && #[trigger] o[k].id@ == id@ {
                let k = choose|k: int| 0 <= k < j && #[trigger] o[k].id@ == id@;
                assert(note_ids(o)[k] == id@);
            }
        }
        self.notes.len() != len_before
    }

    /// The first note with `id`, if any.
    pub fn get_note(&self, id: &str) -> (r: Option<&Note>)
        ensures
            match r {
                Some(n) => {
                    let k = first_index(note_ids(self.notes@), id@);
                    k >= 0 && *n == self.notes@[k]
                },
                None => first_index(note_ids(self.notes@), id@) == -1,
            },
    {
        let key = id.to_owned();
        proof {
            lemma_first_index(note_ids(self.notes@), id@);
        }
        match find_note_index(&self.notes, &key) {
            Some(i) => {
                proof {
                    lemma_first_index_is(note_ids(self.notes@), id@, i as int);
                }
                Some(&self.notes[i])
            },
            None => None,
        }
    }
}

// ==================== alarms ====================

impl AppData {
    /// Appends an enabled alarm with the given id, time and memo.
    pub fn add_alarm_with(&mut self, id: String, hour: u32, minute: u32, memo: String)
        ensures
            final(self).alarms@ == old(self).alarms@.push(
                Alarm { id: id, hour: hour, minute: minute, memo: memo, enabled: true },
            ),
            same_except_alarms(*old(self), *final(self)),
    {
        self.alarms.push(Alarm { id, hour, minute, memo, enabled: true });
    }

    /// Adds an enabled alarm with a fresh random id and returns the id.
    pub fn add_alarm(&mut self, hour: u32, minute: u32, memo: String) -> (id: String)
        ensures
            is_uuid_v4_text(id@),
            final(self).alarms@ == old(self).alarms@.push(
                Alarm { id: id, hour: hour, minute: minute, memo: memo, enabled: true },
            ),
            old(self).alarms@.len() < fresh_id_limit() ==> !has_id(alarm_ids(old(self).alarms@), id@),
            same_except_alarms(*old(self), *final(self)),
    {
        let taken = alarm_id_texts(&self.alarms);
        let id = fresh_uuid_text(&taken);
        proof {
            lemma_has_id_is_contains(alarm_ids(self.alarms@), id@);
        }
        self.add_alarm_with(id.clone(), hour, minute, memo);
        id
    }

    /// Whether some alarm carries `id`.
    pub fn has_alarm(&self, id: &str) -> (r: bool)
        ensures
            r == has_id(alarm_ids(self.alarms@), id@),
    {
        let key = id.to_owned();
        find_alarm_index(&self.alarms, &key).is_some()
    }

    /// Gives the first alarm with `id` a new time and memo; answers whether
    /// such an alarm exists.
    pub fn update_alarm(&mut self, id: &str, hour: u32, minute: u32, memo: String) -> (found:
        bool)
        ensures
            found == has_id(alarm_ids(old(self).alarms@), id@),
            final(self).alarms@ == alarms_with_time(old(self).alarms@, id@, hour, minute, memo),
            same_except_alarms(*old(self), *final(self)),
    {
        let key = id.to_owned();
        match find_alarm_index(&self.alarms, &key) {
            Some(i) => {
                proof {
                    lemma_first_index_is(alarm_ids(self.alarms@), id@, i as int);
                }
                self.alarms[i].hour = hour;
                self.alarms[i].minute = minute;
                self.alarms[i].memo = memo;
                true
            },
            None => {
                proof {
                    lemma_first_index(alarm_ids(self.alarms@), id@);
                }
                false
            },
        }
    }

    /// Removes every alarm with `id`; answers whether any was removed.
    pub fn delete_alarm(&mut self, id: &str) -> (deleted: bool)
        ensures
            deleted == has_id(alarm_ids(old(self).alarms@), id@),
            final(self).alarms@ == alarms_without(old(self).alarms@, id@),
            same_except_alarms(*old(self), *final(self)),
    {
        let key = id.to_owned();
        let ghost o = self.alarms@;
        let ghost p = alarm_kept(id@);
        let len_before = self.alarms.len();
        let mut i: usize = 0;
        let ghost mut j: int = 0;
        assert(o.take(0) =~= Seq::<Alarm>::empty());
        assert(o.skip(0) =~= o);
        proof {
            reveal(Seq::filter);
        }
        while i < self.alarms.len()
            invariant
                0 <= j <= o.len(),
                len_before == o.len(),
                i == o.take(j).filter(p).len(),
                self.alarms@ == o.take(j).filter(p) + o.skip(j),
                self.alarms@.len() == o.len() - (j - i),
                (j - i > 0) == (exists|k: int| 0 <= k < j && #[trigger] o[k].id@ == id@),
                key@ == id@,
                p == alarm_kept(id@),
                same_except_alarms(*old(self), *self),
            decreases self.alarms@.len() - i,
        {
            assert(self.alarms@[i as int] == o[j]);
            assert(o.take(j + 1) =~= o.take(j).push(o[j]));
            proof {
                o.take(j).lemma_filter_push(o[j], p);
            }
            if self.alarms[i].id == key {
                self.alarms.remove(i);
                assert(self.alarms@ =~= o.take(j + 1).filter(p) + o.skip(j + 1));
            } else {
                i = i + 1;
                assert(self.alarms@ =~= o.take(j + 1).filter(p) + o.skip(j + 1));
            }
            proof {
                j = j + 1;
            }
        }
        proof {
            assert(o.take(j) =~= o);
            assert(self.alarms@ =~= o.filter(p));
            if has_id(alarm_ids(o), id@) {
                let w = choose|w: int| 0 <= w < alarm_ids(o).len() && alarm_ids(o)[w] == id@;
                assert(o[w].id@ == id@);
            }
            if exists|k: int| 0 <= k < j && #[trigger] o[k].id@ == id@ {
                let k = choose|k: int| 0 <= k < j && #[trigger] o[k].id@ == id@;
                assert(alarm_ids(o)[k] == id@);
            }
        }
        self.alarms.len() != len_before
    }

    /// Flips the enabled flag of the first alarm with `id` and answers the new
    /// flag; answers false when there is no such alarm.
    pub fn toggle_alarm(&mut self, id: &str) -> (enabled: bool)
        ensures
            enabled == toggled_state(old(self).alarms@, id@),
            final(self).alarms@ == alarms_toggled(old(self).alarms@, id@),
            same_except_alarms(*old(self), *final(self)),
    {
        let key = id.to_owned();
        match find_alarm_index(&self.alarms, &key) {
            Some(i) => {
                proof {
                    lemma_first_index_is(alarm_ids(self.alarms@), id@, i as int);
                }
                let flipped = !self.alarms[i].enabled;
                self.alarms[i].enabled = flipped;
                flipped
            },
            None => {
                proof {
                    lemma_first_index(alarm_ids(self.alarms@), id@);
                }
                false
            },
        }
    }
}


// ==================== laws ====================

/// Filtering twice by the same predicate is filtering once.
pub proof fn lemma_filter_idempotent<A>(s: Seq<A>, p: spec_fn(A) -> bool)
    ensures
        s.filter(p).filter(p) == s.filter(p),
    decreases s.len(),
{
    reveal(Seq::filter);
    if s.len() > 0 {
        lemma_filter_idempotent(s.drop_last(), p);
        if p(s.last()) {
            s.drop_last().filter(p).lemma_filter_push(s.last(), p);
        }
    }
}

/// An id occurs among the kept elements exactly when it occurs in the
/// unfiltered sequence and the filter keeps elements with it.
proof fn lemma_ids_after_filter<A>(
    s: Seq<A>,
    p: spec_fn(A) -> bool,
    key: spec_fn(A) -> Seq<char>,
    id: Seq<char>,
)
    requires
        forall|a: A| #[trigger] key(a) == id ==> p(a),
    ensures
        has_id(s.filter(p).map_values(key), id) == has_id(s.map_values(key), id),
{
    broadcast use vstd::seq_lib::group_filter_ensures;

    let f = s.filter(p);
    if has_id(s.map_values(key), id) {
        let w = choose|w: int| 0 <= w < s.len() && s.map_values(key)[w] == id;
        assert(key(s[w]) == id);
        assert(f.contains(s[w]));
        let v = choose|v: int| 0 <= v < f.len() && f[v] == s[w];
        assert(f.map_values(key)[v] == id);
    }
    if has_id(f.map_values(key), id) {
        let v = choose|v: int| 0 <= v < f.len() && f.map_values(key)[v] == id;
        assert(f.contains(f[v]));
        s.lemma_filter_contains_rev(p, f[v]);
        let w = choose|w: int| 0 <= w < s.len() && s[w] == f[v];
        assert(s.map_values(key)[w] == id);
    }
}

/// No kept element fails the filter.
proof fn lemma_none_after_filter<A>(
    s: Seq<A>,
    p: spec_fn(A) -> bool,
    key: spec_fn(A) -> Seq<char>,
    id: Seq<char>,
)
    requires
        forall|a: A| #[trigger] key(a) == id ==> !p(a),
    ensures
        !has_id(s.filter(p).map_values(key), id),
{
    broadcast use vstd::seq_lib::group_filter_ensures;

    let f = s.filter(p);
    if has_id(f.map_values(key), id) {
        let v = choose|v: int| 0 <= v < f.len() && f.map_values(key)[v] == id;
        assert(p(f[v]));
        assert(key(f[v]) == id);
    }
}

/// Read after write: once a note's content is replaced, the lookup by its id
/// finds the same position holding the new content; every other note is
/// unchanged.
pub proof fn law_update_note_then_lookup(notes: Seq<Note>, id: Seq<char>, content: String)
    requires
        has_id(note_ids(notes), id),
    ensures
        ({
            let k = first_index(note_ids(notes), id);
            let after = notes_with_content(notes, id, content);
            &&& first_index(note_ids(after), id) == k
            &&& after[k].content == content
            &&& after[k].id == notes[k].id
            &&& after[k].created_at == notes[k].created_at
            &&& after.len() == notes.len()
            &&& forall|i: int| 0 <= i < notes.len() && i != k ==> after[i] == notes[i]
        }),
{
    lemma_first_index(note_ids(notes), id);
    let after = notes_with_content(notes, id, content);
    assert(note_ids(after) =~= note_ids(notes));
}

/// After a delete no note carries the id, notes with other ids are still
/// found, and deleting again changes nothing.
pub proof fn law_delete_note(notes: Seq<Note>, id: Seq<char>, other: Seq<char>)
    requires
        other != id,
    ensures
        !has_id(note_ids(notes_without(notes, id)), id),
        has_id(note_ids(notes_without(notes, id)), other) == has_id(note_ids(notes), other),
        notes_without(notes_without(notes, id), id) == notes_without(notes, id),
{
    let key = |n: Note| n.id@;
    assert(note_ids(notes) == notes.map_values(key));
    assert(note_ids(notes_without(notes, id)) == notes_without(notes, id).map_values(key));
    lemma_none_after_filter(notes, note_kept(id), key, id);
    lemma_ids_after_filter(notes, note_kept(id), key, other);
    lemma_filter_idempotent(notes, note_kept(id));
}

/// A note added under a fresh id is what the lookup by that id finds.
pub proof fn law_added_note_is_found(notes: Seq<Note>, note: Note)
    requires
        !has_id(note_ids(notes), note.id@),
    ensures
        first_index(note_ids(notes.push(note)), note.id@) == notes.len(),
{
    let ids = note_ids(notes.push(note));
    assert(ids[notes.len() as int] == note.id@);
    assert forall|j: int| 0 <= j < notes.len() implies ids[j] != note.id@ by {
        assert(ids[j] == note_ids(notes)[j]);
    }
    lemma_first_index_is(ids, note.id@, notes.len() as int);
}

/// Toggling an alarm twice restores the alarms, and the answer of a toggle
/// is the enabled flag that the alarm has afterwards.
pub proof fn law_toggle_alarm_twice(alarms: Seq<Alarm>, id: Seq<char>)
    ensures
        alarms_toggled(alarms_toggled(alarms, id), id) == alarms,
        has_id(alarm_ids(alarms), id) ==> toggled_state(alarms, id) == alarms_toggled(
            alarms,
            id,
        )[first_index(alarm_ids(alarms), id)].enabled,
{
    lemma_first_index(alarm_ids(alarms), id);
    let once = alarms_toggled(alarms, id);
    assert(alarm_ids(once) =~= alarm_ids(alarms));
    if has_id(alarm_ids(alarms), id) {
        assert(alarms_toggled(once, id) =~= alarms);
    }
}

/// Editing an alarm's time keeps every id and every enabled flag.
pub proof fn law_update_alarm_keeps_ids(
    alarms: Seq<Alarm>,
    id: Seq<char>,
    hour: u32,
    minute: u32,
    memo: String,
)
    ensures
        alarm_ids(alarms_with_time(alarms, id, hour, minute, memo)) == alarm_ids(alarms),
        forall|i: int|
            0 <= i < alarms.len() ==> #[trigger] alarms_with_time(
                alarms,
                id,
                hour,
                minute,
                memo,
            )[i].enabled == alarms[i].enabled,
{
    lemma_first_index(alarm_ids(alarms), id);
    assert(alarm_ids(alarms_with_time(alarms, id, hour, minute, memo)) =~= alarm_ids(alarms));
}

/// After a delete no alarm carries the id, alarms with other ids are still
/// found, and deleting again changes nothing.
pub proof fn law_delete_alarm(alarms: Seq<Alarm>, id: Seq<char>, other: Seq<char>)
    requires
        other != id,
    ensures
        !has_id(alarm_ids(alarms_without(alarms, id)), id),
        has_id(alarm_ids(alarms_without(alarms, id)), other) == has_id(alarm_ids(alarms), other),
        alarms_without(alarms_without(alarms, id), id) == alarms_without(alarms, id),
{
    let key = |a: Alarm| a.id@;
    assert(alarm_ids(alarms) == alarms.map_values(key));
    assert(alarm_ids(alarms_without(alarms, id)) == alarms_without(alarms, id).map_values(key));
    lemma_none_after_filter(alarms, alarm_kept(id), key, id);
    lemma_ids_after_filter(alarms, alarm_kept(id), key, other);
    lemma_filter_idempotent(alarms, alarm_kept(id));
}

/// An edit by an id that no entry carries changes nothing, so the shell only
/// needs to save when the edit answered that it found the id.
pub proof fn law_missing_id_changes_nothing(
    notes: Seq<Note>,
    alarms: Seq<Alarm>,
    id: Seq<char>,
    content: String,
    hour: u32,
    minute: u32,
    memo: String,
)
    ensures
        !has_id(note_ids(notes), id) ==> notes_with_content(notes, id, content) == notes
            && notes_without(notes, id) == notes,
        !has_id(alarm_ids(alarms), id) ==> alarms_with_time(alarms, id, hour, minute, memo)
            == alarms && alarms_toggled(alarms, id) == alarms && alarms_without(alarms, id)
            == alarms && !toggled_state(alarms, id),
{
    lemma_first_index(note_ids(notes), id);
    lemma_first_index(alarm_ids(alarms), id);
    if !has_id(note_ids(notes), id) {
        assert forall|i: int| 0 <= i < notes.len() implies #[trigger] note_kept(id)(notes[i]) by {
            assert(note_ids(notes)[i] == notes[i].id@);
        }
        lemma_filter_all_kept(notes, note_kept(id));
    }
    if !has_id(alarm_ids(alarms), id) {
        assert forall|i: int| 0 <= i < alarms.len() implies #[trigger] alarm_kept(id)(alarms[i]) by {
            assert(alarm_ids(alarms)[i] == alarms[i].id@);
        }
        lemma_filter_all_kept(alarms, alarm_kept(id));
    }
}

/// Filtering keeps a sequence whose elements all pass.
proof fn lemma_filter_all_kept<A>(s: Seq<A>, p: spec_fn(A) -> bool)
    requires
        forall|i: int| 0 <= i < s.len() ==> #[trigger] p(s[i]),
    ensures
        s.filter(p) == s,
    decreases s.len(),
{
    reveal(Seq::filter);
    if s.len() > 0 {
        let t = s.drop_last();
        assert forall|i: int| 0 <= i < t.len() implies #[trigger] p(t[i]) by {
            assert(t[i] == s[i]);
        }
        lemma_filter_all_kept(t, p);
        assert(p(s[s.len() - 1]));
        assert(t.push(s.last()) =~= s);
    }
}

/// Read after write for alarms: once an alarm found by id gets a new time
/// and memo, the lookup by that id finds the same position holding exactly
/// the new hour, minute and memo with its id and enabled flag kept, and
/// every other alarm is unchanged.
pub proof fn law_update_alarm_then_lookup(
    alarms: Seq<Alarm>,
    id: Seq<char>,
    hour: u32,
    minute: u32,
    memo: String,
)
    requires
        has_id(alarm_ids(alarms), id),
    ensures
        ({
            let k = first_index(alarm_ids(alarms), id);
            let after = alarms_with_time(alarms, id, hour, minute, memo);
            &&& 0 <= k < alarms.len()
            &&& alarms[k].id@ == id
            &&& first_index(alarm_ids(after), id) == k
            &&& after.len() == alarms.len()
            &&& after[k].hour == hour
            &&& after[k].minute == minute
            &&& after[k].memo == memo
            &&& after[k].id == alarms[k].id
            &&& after[k].enabled == alarms[k].enabled
            &&& forall|i: int| 0 <= i < alarms.len() && i != k ==> after[i] == alarms[i]
        }),
{
    lemma_first_index(alarm_ids(alarms), id);
    let after = alarms_with_time(alarms, id, hour, minute, memo);
    assert(alarm_ids(after) =~= alarm_ids(alarms));
}

/// A toggle flips exactly one alarm: the first one with the id. Its enabled
/// flag is negated and its other fields kept, every other alarm is
/// unchanged, and the answer is its new flag.
pub proof fn law_toggle_alarm_flips_one(alarms: Seq<Alarm>, id: Seq<char>)
    requires
        has_id(alarm_ids(alarms), id),
    ensures
        ({
            let k = first_index(alarm_ids(alarms), id);
            let after = alarms_toggled(alarms, id);
            &&& 0 <= k < alarms.len()
            &&& alarms[k].id@ == id
            &&& forall|j: int| 0 <= j < k ==> alarms[j].id@ != id
            &&& after.len() == alarms.len()
            &&& after[k].enabled == !alarms[k].enabled
            &&& after[k].id == alarms[k].id
            &&& after[k].hour == alarms[k].hour
            &&& after[k].minute == alarms[k].minute
            &&& after[k].memo == alarms[k].memo
            &&& forall|i: int| 0 <= i < alarms.len() && i != k ==> after[i] == alarms[i]
            &&& toggled_state(alarms, id) == after[k].enabled
        }),
{
    lemma_first_index(alarm_ids(alarms), id);
    let k = first_index(alarm_ids(alarms), id);
    assert(alarm_ids(alarms)[k] == alarms[k].id@);
    assert forall|j: int| 0 <= j < k implies alarms[j].id@ != id by {
        assert(alarm_ids(alarms)[j] == alarms[j].id@);
    }
}

/// Ids stay unique across additions: when the ids are distinct and the new
/// entry's id is carried by none of them (as `add_note` and `add_alarm`
/// ensure), the ids are still distinct afterwards, and the new id differs
/// from every earlier one.
pub proof fn law_fresh_ids_stay_unique(ids: Seq<Seq<char>>, new_id: Seq<char>)
    requires
        ids.no_duplicates(),
        !has_id(ids, new_id),
    ensures
        ids.push(new_id).no_duplicates(),
        forall|i: int| 0 <= i < ids.len() ==> #[trigger] ids[i] != new_id,
{
    let after = ids.push(new_id);
    assert forall|a: int, b: int| 0 <= a < after.len() && 0 <= b < after.len() && a != b implies after[a]
        != after[b] by {
        if a < ids.len() && b < ids.len() {
            assert(after[a] == ids[a] && after[b] == ids[b]);
        } else if a == ids.len() {
            assert(after[b] == ids[b]);
        } else {
            assert(after[a] == ids[a]);
        }
    }
}

/// Two alarms added one after the other get different ids: the second id is
/// carried by no alarm present when it was made, the first one included.
pub proof fn law_second_add_differs(alarms: Seq<Alarm>, first: Alarm, second_id: Seq<char>)
    requires
        !has_id(alarm_ids(alarms.push(first)), second_id),
    ensures
        second_id != first.id@,
{
    assert(alarm_ids(alarms.push(first))[alarms.len() as int] == first.id@);
}

} // verus!
