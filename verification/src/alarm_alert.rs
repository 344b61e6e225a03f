//! Bookkeeping of the alarm alert popups.
//!
//! Each ringing alarm opens a popup that stays until the user stops it.
//! While any popup is open the main window is disabled (made modal-owned);
//! stopping a popup deletes its alarm, and stopping the last one gives the
//! main window back. The popup windows and the sound live in the shell; this
//! module keeps the list of open alerts, the alert ids, the modal owner and
//! the placement of a popup.

use crate::storage::{alarm_ids, alarms_without, has_id, same_except_alarms, AppData};
use crate::text::{clock_text, format_clock, trim, trimmed};
use vstd::prelude::*;

verus! {

/// An open alert: its id and the id of the alarm that raised it.
#[derive(Debug)]
pub struct ActiveAlert {
    pub id: u64,
    pub alarm_id: String,
}

/// The open alerts and the state around them.
pub struct AlertRegistry {
    next_id: u64,
    alerts: Vec<ActiveAlert>,
    modal_owner: Option<isize>,
    keep_top_timer: bool,
}

/// The abstract state of an [`AlertRegistry`].
pub struct AlertRegistryView {
    /// The id that the next alert gets.
    pub next_id: u64,
    /// The ids of the open alerts, oldest first.
    pub alert_ids: Seq<u64>,
    /// The ids of the alarms of the open alerts, in the same order.
    pub alarm_ids: Seq<Seq<char>>,
    /// The main window that was disabled while alerts are open, if any.
    pub modal_owner: Option<isize>,
    /// Whether the timer that keeps alerts on top has been started.
    pub keep_top_timer: bool,
}

impl View for AlertRegistry {
    type V = AlertRegistryView;

    closed spec fn view(&self) -> AlertRegistryView {
        AlertRegistryView {
            next_id: self.next_id,
            alert_ids: self.alerts@.map_values(|a: ActiveAlert| a.id),
            alarm_ids: self.alerts@.map_values(|a: ActiveAlert| a.alarm_id@),
            modal_owner: self.modal_owner,
            keep_top_timer: self.keep_top_timer,
        }
    }
}

/// The first position of `id` among the alert ids, if any.
pub open spec fn alert_position(ids: Seq<u64>, id: u64) -> int {
    if exists|i: int| 0 <= i < ids.len() && ids[i] == id {
        choose|i: int| 0 <= i < ids.len() && ids[i] == id && forall|j: int| 0 <= j < i ==> ids[j] != id
    } else {
        -1
    }
}

proof fn lemma_alert_position(ids: Seq<u64>, id: u64, i: int)
    requires
        0 <= i < ids.len(),
        ids[i] == id,
        forall|j: int| 0 <= j < i ==> ids[j] != id,
    ensures
        alert_position(ids, id) == i,
{
    let k = choose|k: int| 0 <= k < ids.len() && ids[k] == id && forall|j: int| 0 <= j < k ==> ids[j] != id;
    if k < i {
        assert(ids[k] != id);
    } else if i < k {
        assert(ids[i] != id);
    }
}

/// The modal owner after an attempt to disable `main_window`: the first
/// window recorded stays the owner until it is released.
pub open spec fn owner_after_acquire(owner: Option<isize>, main_window: Option<isize>) -> Option<
    isize,
> {
    if main_window is Some && owner is None {
        main_window
    } else {
        owner
    }
}

/// The main window is disabled once however many alerts open: the first
/// alert records it, later alerts keep that record, and the release hands
/// back exactly that window.
pub proof fn law_modal_owner_once(main_window: isize, later: Option<isize>)
    ensures
        owner_after_acquire(None, Some(main_window)) == Some(main_window),
        owner_after_acquire(owner_after_acquire(None, Some(main_window)), later) == Some(
            main_window,
        ),
        owner_after_acquire(None, None) == None::<isize>,
{
}

/// Removing an entry from a sequence without duplicates leaves one without
/// duplicates that no longer holds the removed value.
proof fn lemma_remove_keeps_distinct(ids: Seq<u64>, i: int)
    requires
        ids.no_duplicates(),
        0 <= i < ids.len(),
    ensures
        ids.remove(i).no_duplicates(),
        !ids.remove(i).contains(ids[i]),
{
    let rest = ids.remove(i);
    assert forall|a: int, b: int|
        0 <= a < rest.len() && 0 <= b < rest.len() && a != b implies rest[a] != rest[b] by {
        let oa = if a < i { a } else { a + 1 };
        let ob = if b < i { b } else { b + 1 };
        assert(rest[a] == ids[oa] && rest[b] == ids[ob]);
    }
    if rest.contains(ids[i]) {
        let a = choose|a: int| 0 <= a < rest.len() && rest[a] == ids[i];
        let oa = if a < i { a } else { a + 1 };
        assert(ids[oa] == ids[i]);
    }
}

impl AlertRegistry {
    /// No two open alerts share an id, and every open id was handed out
    /// before: it lies below the next id.
    #[verifier::type_invariant]
    closed spec fn open_ids_distinct(&self) -> bool {
        let ids = self.alerts@.map_values(|a: ActiveAlert| a.id);
        &&& ids.no_duplicates()
        &&& forall|j: int| 0 <= j < ids.len() ==> #[trigger] ids[j] < self.next_id
    }

    /// Whether another alert id can be handed out (the counter is not at its
    /// limit).
    pub fn can_allocate(&self) -> (r: bool)
        ensures
            r == (self@.next_id < u64::MAX),
    {
        self.next_id < u64::MAX
    }

    /// Whether an alert with `id` is open.
    pub fn is_open(&self, id: u64) -> (r: bool)
        ensures
            r == self@.alert_ids.contains(id),
    {
        let mut i: usize = 0;
        while i < self.alerts.len()
            invariant
                i <= self.alerts@.len(),
                forall|j: int| 0 <= j < i ==> #[trigger] self@.alert_ids[j] != id,
            decreases self.alerts@.len() - i,
        {
            if self.alerts[i].id == id {
                assert(self@.alert_ids[i as int] == id);
                return true;
            }
            i = i + 1;
        }
        false
    }

    /// Whether `register` accepts `id`: it was handed out already and is not
    /// open.
    pub fn can_register(&self, id: u64) -> (r: bool)
        ensures
            r == (!self@.alert_ids.contains(id) && id < self@.next_id),
    {
        !self.is_open(id) && id < self.next_id
    }

    /// No alerts; the first alert gets id 1.
    pub fn new() -> (r: AlertRegistry)
        ensures
            r@.next_id == 1,
            r@.alert_ids.len() == 0,
            r@.alarm_ids.len() == 0,
            r@.modal_owner is None,
            !r@.keep_top_timer,
    {
        AlertRegistry { next_id: 1, alerts: Vec::new(), modal_owner: None, keep_top_timer: false }
    }

    /// Hands out the next alert id.
    pub fn allocate_id(&mut self) -> (id: u64)
        requires
            old(self)@.next_id < u64::MAX,
        ensures
            id == old(self)@.next_id,
            final(self)@.next_id == id + 1,
            forall|j: int|
                0 <= j < old(self)@.alert_ids.len() ==> #[trigger] old(self)@.alert_ids[j] < id,
            !old(self)@.alert_ids.contains(id),
            final(self)@.alert_ids == old(self)@.alert_ids,
            final(self)@.alarm_ids == old(self)@.alarm_ids,
            final(self)@.modal_owner == old(self)@.modal_owner,
            final(self)@.keep_top_timer == old(self)@.keep_top_timer,
    {
        proof {
            use_type_invariant(&*self);
        }
        let id = self.next_id;
        self.next_id = id + 1;
        proof {
            if old(self)@.alert_ids.contains(id) {
                let j = choose|j: int| 0 <= j < old(self)@.alert_ids.len() && old(self)@.alert_ids[j] == id;
                assert(old(self)@.alert_ids[j] < id);
            }
        }
        id
    }

    /// Records an alert that is now shown, under an id handed out by
    /// `allocate_id` that is not open already.
    pub fn register(&mut self, id: u64, alarm_id: String)
        requires
            !old(self)@.alert_ids.contains(id),
            id < old(self)@.next_id,
        ensures
            final(self)@.alert_ids == old(self)@.alert_ids.push(id),
            final(self)@.alarm_ids == old(self)@.alarm_ids.push(alarm_id@),
            final(self)@.next_id == old(self)@.next_id,
            final(self)@.modal_owner == old(self)@.modal_owner,
            final(self)@.keep_top_timer == old(self)@.keep_top_timer,
    {
        proof {
            use_type_invariant(&*self);
        }
        let ghost before = self@.alert_ids;
        let mut alerts: Vec<ActiveAlert> = Vec::new();
        std::mem::swap(&mut alerts, &mut self.alerts);
        alerts.push(ActiveAlert { id, alarm_id });
        proof {
            let after = alerts@.map_values(|a: ActiveAlert| a.id);
            assert(after =~= before.push(id));
            assert forall|j: int| 0 <= j < after.len() implies #[trigger] after[j] < self.next_id by {
                if j < before.len() {
                    assert(after[j] == before[j]);
                }
            }
            assert forall|a: int, b: int|
                0 <= a < after.len() && 0 <= b < after.len() && a != b implies after[a]
                != after[b] by {
                if a < before.len() && b < before.len() {
                    assert(after[a] == before[a] && after[b] == before[b]);
                } else if a == before.len() {
                    assert(before.contains(before[b]));
                } else {
                    assert(before.contains(before[a]));
                }
            }
        }
        self.alerts = alerts;
        assert(self@.alert_ids =~= old(self)@.alert_ids.push(id));
        assert(self@.alarm_ids =~= old(self)@.alarm_ids.push(alarm_id@));
    }

    /// Whether any alert is open.
    pub fn has_active_alert(&self) -> (r: bool)
        ensures
            r == (self@.alert_ids.len() > 0),
    {
        self.alerts.len() > 0
    }

    /// Disables the main window for the alerts if it is not already: answers
    /// true and records the window when there is a main window and no owner
    /// yet; answers false otherwise.
    pub fn acquire_modal_owner(&mut self, main_window: Option<isize>) -> (acquired: bool)
        ensures
            acquired == (main_window is Some && old(self)@.modal_owner is None),
            final(self)@.modal_owner == owner_after_acquire(old(self)@.modal_owner, main_window),
            final(self)@.next_id == old(self)@.next_id,
            final(self)@.alert_ids == old(self)@.alert_ids,
            final(self)@.alarm_ids == old(self)@.alarm_ids,
            final(self)@.keep_top_timer == old(self)@.keep_top_timer,
    {
        proof {
            use_type_invariant(&*self);
        }
        match main_window {
            Some(w) => {
                if self.modal_owner.is_none() {
                    self.modal_owner = Some(w);
                    true
                } else {
                    false
                }
            },
            None => false,
        }
    }

    /// Gives the main window back: answers the window to enable again, if
    /// one was recorded, and forgets it.
    pub fn release_modal_owner(&mut self) -> (owner: Option<isize>)
        ensures
            owner == old(self)@.modal_owner,
            final(self)@.modal_owner is None,
            final(self)@.next_id == old(self)@.next_id,
            final(self)@.alert_ids == old(self)@.alert_ids,
            final(self)@.alarm_ids == old(self)@.alarm_ids,
            final(self)@.keep_top_timer == old(self)@.keep_top_timer,
    {
        proof {
            use_type_invariant(&*self);
        }
        let owner = self.modal_owner;
        self.modal_owner = None;
        owner
    }

    /// Gives the main window back when no alert is open.
    pub fn release_modal_owner_if_no_alerts(&mut self) -> (owner: Option<isize>)
        ensures
            old(self)@.alert_ids.len() == 0 ==> owner == old(self)@.modal_owner
                && final(self)@.modal_owner is None,
            old(self)@.alert_ids.len() > 0 ==> owner is None && final(self)@.modal_owner == old(
                self,
            )@.modal_owner,
            final(self)@.next_id == old(self)@.next_id,
            final(self)@.alert_ids == old(self)@.alert_ids,
            final(self)@.alarm_ids == old(self)@.alarm_ids,
            final(self)@.keep_top_timer == old(self)@.keep_top_timer,
    {
        if !self.has_active_alert() {
            self.release_modal_owner()
        } else {
            None
        }
    }

    /// Whether the keep-on-top timer must be started now: true exactly once.
    pub fn ensure_keep_top_timer(&mut self) -> (start: bool)
        ensures
            start == !old(self)@.keep_top_timer,
            final(self)@.keep_top_timer,
            final(self)@.next_id == old(self)@.next_id,
            final(self)@.alert_ids == old(self)@.alert_ids,
            final(self)@.alarm_ids == old(self)@.alarm_ids,
            final(self)@.modal_owner == old(self)@.modal_owner,
    {
        proof {
            use_type_invariant(&*self);
        }
        if self.keep_top_timer {
            false
        } else {
            self.keep_top_timer = true;
            true
        }
    }

    /// Closes the first open alert with `alert_id`: answers whether one was
    /// open and whether no alert is open afterwards.
    pub fn close(&mut self, alert_id: u64) -> (r: (bool, bool))
        ensures
            ({
                let k = alert_position(old(self)@.alert_ids, alert_id);
                &&& r.0 == (k >= 0)
                &&& final(self)@.alert_ids == (if k >= 0 {
                    old(self)@.alert_ids.remove(k)
                } else {
                    old(self)@.alert_ids
                })
                &&& final(self)@.alarm_ids == (if k >= 0 {
                    old(self)@.alarm_ids.remove(k)
                } else {
                    old(self)@.alarm_ids
                })
                &&& r.1 == (final(self)@.alert_ids.len() == 0)
            }),
            !final(self)@.alert_ids.contains(alert_id),
            final(self)@.next_id == old(self)@.next_id,
            final(self)@.modal_owner == old(self)@.modal_owner,
            final(self)@.keep_top_timer == old(self)@.keep_top_timer,
    {
        proof {
            use_type_invariant(&*self);
        }
        let ghost ids = old(self)@.alert_ids;
        let mut i: usize = 0;
        while i < self.alerts.len()
            invariant
                i <= self.alerts@.len(),
                self.alerts@ == old(self).alerts@,
                self.next_id == old(self).next_id,
                self.modal_owner == old(self).modal_owner,
                self.keep_top_timer == old(self).keep_top_timer,
                ids == self.alerts@.map_values(|a: ActiveAlert| a.id),
                ids.no_duplicates(),
                forall|j: int| 0 <= j < ids.len() ==> #[trigger] ids[j] < self.next_id,
                forall|j: int| 0 <= j < i ==> ids[j] != alert_id,
            decreases self.alerts@.len() - i,
        {
            if self.alerts[i].id == alert_id {
                proof {
                    lemma_alert_position(ids, alert_id, i as int);
                }
                let mut alerts: Vec<ActiveAlert> = Vec::new();
                std::mem::swap(&mut alerts, &mut self.alerts);
                alerts.remove(i);
                proof {
                    lemma_remove_keeps_distinct(ids, i as int);
                    let rest = ids.remove(i as int);
                    assert(alerts@.map_values(|a: ActiveAlert| a.id) =~= rest);
                    assert forall|j: int| 0 <= j < rest.len() implies #[trigger] rest[j] < self.next_id by {
                        if j < i {
                            assert(rest[j] == ids[j]);
                        } else {
                            assert(rest[j] == ids[j + 1]);
                        }
                    }
                }
                self.alerts = alerts;
                assert(self@.alert_ids =~= old(self)@.alert_ids.remove(i as int));
                assert(self@.alarm_ids =~= old(self)@.alarm_ids.remove(i as int));
                return (true, self.alerts.len() == 0);
            }
            i = i + 1;
        }
        assert(!(exists|j: int| 0 <= j < ids.len() && ids[j] == alert_id));
        assert(!ids.contains(alert_id));
        (false, self.alerts.len() == 0)
    }
}

/// What stopping an alert did.
#[derive(Debug, Clone, Copy)]
pub struct DismissOutcome {
    /// The alert was open and is now closed.
    pub removed: bool,
    /// Closing it deleted at least one alarm (the data changed and needs saving).
    pub alarm_deleted: bool,
    /// The main window to enable again, when the last alert was closed.
    pub released_owner: Option<isize>,
}

/// Stops an alert: closes it and, if it was open, deletes its alarm; when no
/// alert is left open the main window is given back.
pub fn dismiss_alert(
    registry: &mut AlertRegistry,
    data: &mut AppData,
    alert_id: u64,
    alarm_storage_id: &str,
) -> (r: DismissOutcome)
    ensures
        ({
            let k = alert_position(old(registry)@.alert_ids, alert_id);
            &&& r.removed == (k >= 0)
            &&& final(registry)@.alert_ids == (if k >= 0 {
                old(registry)@.alert_ids.remove(k)
            } else {
                old(registry)@.alert_ids
            })
            &&& final(registry)@.alarm_ids == (if k >= 0 {
                old(registry)@.alarm_ids.remove(k)
            } else {
                old(registry)@.alarm_ids
            })
        }),
        !final(registry)@.alert_ids.contains(alert_id),
        r.alarm_deleted == (r.removed && has_id(alarm_ids(old(data).alarms@), alarm_storage_id@)),
        r.removed ==> final(data).alarms@ == alarms_without(old(data).alarms@, alarm_storage_id@),
        !r.removed ==> *final(data) == *old(data),
        same_except_alarms(*old(data), *final(data)),
        r.removed && final(registry)@.alert_ids.len() == 0 ==> r.released_owner == old(
            registry,
        )@.modal_owner && final(registry)@.modal_owner is None,
        !(r.removed && final(registry)@.alert_ids.len() == 0) ==> r.released_owner is None
            && final(registry)@.modal_owner == old(registry)@.modal_owner,
        final(registry)@.next_id == old(registry)@.next_id,
        final(registry)@.keep_top_timer == old(registry)@.keep_top_timer,
{
    let (removed, became_empty) = registry.close(alert_id);
    let alarm_deleted = if removed {
        data.delete_alarm(alarm_storage_id)
    } else {
        false
    };
    let released_owner = if removed && became_empty {
        registry.release_modal_owner()
    } else {
        None
    };
    DismissOutcome { removed, alarm_deleted, released_owner }
}

/// Stopping an alert a second time finds nothing to close: once an alert is
/// stopped its id is no longer open (`AlertRegistry::close` ensures it, as
/// open ids are distinct), and an id that is not open has no position, so the
/// second stop deletes no alarm and releases nothing.
pub proof fn law_dismiss_twice(ids: Seq<u64>, alert_id: u64)
    requires
        !ids.contains(alert_id),
    ensures
        alert_position(ids, alert_id) == -1,
{
    if exists|i: int| 0 <= i < ids.len() && ids[i] == alert_id {
        let i = choose|i: int| 0 <= i < ids.len() && ids[i] == alert_id;
        assert(ids.contains(ids[i]));
    }
}

/// Whether the open alert must be brought to the front again: exactly when
/// an alert is open.
pub fn refocus_active_alert(registry: &AlertRegistry) -> (r: bool)
    ensures
        r == (registry@.alert_ids.len() > 0),
{
    registry.has_active_alert()
}

/// The texts an alert shows: the `HH:MM` time and the trimmed memo.
pub fn alert_texts(hour: u32, minute: u32, memo: &str) -> (r: (String, String))
    ensures
        r.0@ == clock_text(hour as nat, minute as nat),
        r.1@ == trimmed(memo@),
{
    (format_clock(hour, minute), trim(memo))
}

/// A screen rectangle in physical pixels.
#[derive(Debug, Clone, Copy)]
pub struct Rect {
    pub left: i32,
    pub top: i32,
    pub right: i32,
    pub bottom: i32,
}

/// The alert's width or height: the window's size when known (non-zero),
/// else the preferred size.
pub open spec fn alert_extent(size: u32, preferred: i32) -> int {
    if size > 0 {
        (size as i32) as int
    } else {
        preferred as int
    }
}

/// Division by two rounding toward zero, as `/` does on integers.
pub open spec fn half_toward_zero(v: int) -> int {
    if v >= 0 {
        v / 2
    } else {
        -((-v) / 2)
    }
}

/// The start coordinate that centres an extent of `size` in `[lo, hi)`.
pub open spec fn centred(lo: int, hi: int, size: int) -> int {
    lo + half_toward_zero((hi - lo) - size)
}

/// `v` kept within `[lo, hi]` when that range is not empty, else `lo`.
pub open spec fn fit_into(v: int, lo: int, hi: int) -> int {
    if hi >= lo {
        if v < lo {
            lo
        } else if v > hi {
            hi
        } else {
            v
        }
    } else {
        lo
    }
}

/// All intermediate values of the placement fit in an `i32`.
pub open spec fn alert_geometry_in_range(size: int, lo: int, hi: int, work: Option<(int, int)>) -> bool {
    &&& i32::MIN <= hi - lo <= i32::MAX
    &&& i32::MIN <= (hi - lo) - size <= i32::MAX
    &&& i32::MIN <= centred(lo, hi, size) <= i32::MAX
    &&& work matches Some((wl, wh)) ==> i32::MIN <= wh - size <= i32::MAX
}

fn centre_on_axis(lo: i32, hi: i32, size: i32, work: Option<(i32, i32)>) -> (r: i32)
    requires
        i32::MIN <= hi - lo <= i32::MAX,
        i32::MIN <= (hi - lo) - size <= i32::MAX,
        i32::MIN <= centred(lo as int, hi as int, size as int) <= i32::MAX,
        work matches Some((wl, wh)) ==> i32::MIN <= wh - size <= i32::MAX,
    ensures
        r == (match work {
            Some((wl, wh)) => fit_into(centred(lo as int, hi as int, size as int), wl as int, wh - size),
            None => centred(lo as int, hi as int, size as int),
        }),
{
    let span = hi - lo;
    let d = span - size;
    let half = if d >= 0 {
        d / 2
    } else {
        let neg = -(d as i64);
        -((neg / 2) as i32)
    };
    let c = lo + half;
    match work {
        Some((wl, wh)) => {
            let max = wh - size;
            if max >= wl {
                if c < wl {
                    wl
                } else if c > max {
                    max
                } else {
                    c
                }
            } else {
                wl
            }
        },
        None => c,
    }
}

/// Where to put an alert: centred on the main window, then kept inside the
/// work area of its monitor when that is known. A zero alert size stands
/// for the preferred size of 360 by 260.
pub fn position_alert_centered_on_app(
    app: Rect,
    alert_width: u32,
    alert_height: u32,
    work: Option<Rect>,
) -> (r: (i32, i32))
    requires
        alert_geometry_in_range(
            alert_extent(alert_width, 360),
            app.left as int,
            app.right as int,
            match work {
                Some(w) => Some((w.left as int, w.right as int)),
                None => None,
            },
        ),
        alert_geometry_in_range(
            alert_extent(alert_height, 260),
            app.top as int,
            app.bottom as int,
            match work {
                Some(w) => Some((w.top as int, w.bottom as int)),
                None => None,
            },
        ),
    ensures
        ({
            let w = alert_extent(alert_width, 360);
            let h = alert_extent(alert_height, 260);
            let cx = centred(app.left as int, app.right as int, w);
            let cy = centred(app.top as int, app.bottom as int, h);
            match work {
                Some(wa) => r.0 == fit_into(cx, wa.left as int, wa.right - w) && r.1 == fit_into(
                    cy,
                    wa.top as int,
                    wa.bottom - h,
                ),
                None => r.0 == cx && r.1 == cy,
            }
        }),
{
    let w: i32 = if alert_width > 0 {
        alert_width as i32
    } else {
        360
    };
    let h: i32 = if alert_height > 0 {
        alert_height as i32
    } else {
        260
    };
    let (wx, wy) = match work {
        Some(wa) => (Some((wa.left, wa.right)), Some((wa.top, wa.bottom))),
        None => (None, None),
    };
    let x = centre_on_axis(app.left, app.right, w, wx);
    let y = centre_on_axis(app.top, app.bottom, h, wy);
    (x, y)
}

/// When the alert fits into the work area, the placed alert lies entirely
/// inside it.
pub proof fn law_alert_inside_work_area(v: int, lo: int, hi: int, size: int)
    requires
        hi - size >= lo,
    ensures
        lo <= fit_into(v, lo, hi - size),
        fit_into(v, lo, hi - size) + size <= hi,
{
}

/// `fit_into` is clamping: when the range is not empty the result lies in
/// it, a value already inside is kept, and the result is monotone in the
/// value, so a value left of the range goes to its left end and a value
/// right of it to its right end. When the range is empty the result is its
/// left end.
pub proof fn law_fit_into_is_clamp(v: int, w: int, lo: int, hi: int)
    ensures
        hi >= lo ==> lo <= fit_into(v, lo, hi) <= hi,
        lo <= v <= hi ==> fit_into(v, lo, hi) == v,
        hi >= lo && v <= w ==> fit_into(v, lo, hi) <= fit_into(w, lo, hi),
        hi >= lo && v < lo ==> fit_into(v, lo, hi) == lo,
        hi >= lo && v > hi ==> fit_into(v, lo, hi) == hi,
        hi < lo ==> fit_into(v, lo, hi) == lo,
{
}

/// The centred start puts the extent in the middle of the window, to within
/// rounding: twice the space left of it and the space right of it differ by
/// at most one pixel, and the start moves with the window.
pub proof fn law_centred_is_middle(lo: int, hi: int, size: int, shift: int)
    ensures
        ({
            let c = centred(lo, hi, size);
            let left = c - lo;
            let right = hi - (c + size);
            -1 <= left - right <= 1
        }),
        centred(lo + shift, hi + shift, size) == centred(lo, hi, size) + shift,
{
}

/// The placed alert: without a work area it is centred on the main window;
/// with one that it fits in, it lies inside the work area, and it stays
/// centred whenever the centred place already lies inside.
pub proof fn law_alert_placement(app_lo: int, app_hi: int, size: int, work_lo: int, work_hi: int)
    requires
        work_hi - size >= work_lo,
    ensures
        ({
            let c = centred(app_lo, app_hi, size);
            let x = fit_into(c, work_lo, work_hi - size);
            &&& work_lo <= x
            &&& x + size <= work_hi
            &&& (work_lo <= c && c + size <= work_hi ==> x == c)
            &&& (c < work_lo ==> x == work_lo)
            &&& (c + size > work_hi ==> x == work_hi - size)
        }),
{
}

} // verus!
