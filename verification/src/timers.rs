//! The periodic alarm check: which alarms ring in the current minute.
//!
//! The shell runs the check every 30 seconds; the checker remembers the
//! minute in which it last rang so that an alarm rings once per minute.

use crate::clock::{read_local_clock, LocalClock, LocalClockView};
use crate::text::clock_text;
use crate::storage::Alarm;
use vstd::prelude::*;

verus! {

/// A minute of the calendar: year, day of the year, hour and minute.
#[derive(Debug, Clone, Copy, PartialEq, Eq, Structural)]
pub struct MinuteKey {
    pub year: i32,
    pub ordinal: u32,
    pub hour: u32,
    pub minute: u32,
}

/// An alert to raise for an alarm.
#[derive(Debug)]
pub struct AlarmAlertRequest {
    pub hour: u32,
    pub minute: u32,
    pub memo: String,
    pub alarm_id: String,
}

/// The alarm rings at this hour and minute.
pub open spec fn alarm_due(a: Alarm, hour: u32, minute: u32) -> bool {
    a.enabled && a.hour == hour && a.minute == minute
}

/// The predicate of the alarms that ring at this hour and minute.
pub open spec fn due_at(hour: u32, minute: u32) -> spec_fn(Alarm) -> bool {
    |a: Alarm| alarm_due(a, hour, minute)
}

/// The alert that an alarm raises.
pub open spec fn request_for(a: Alarm) -> AlarmAlertRequest {
    AlarmAlertRequest { hour: a.hour, minute: a.minute, memo: a.memo, alarm_id: a.id }
}

/// The alerts that a check at `now` raises, in the order of the alarms:
/// none if the checker already rang in this minute, else one for every
/// enabled alarm set to this hour and minute.
pub open spec fn alerts_at(last: Option<MinuteKey>, alarms: Seq<Alarm>, now: MinuteKey) -> Seq<
    AlarmAlertRequest,
> {
    if last == Some(now) {
        Seq::empty()
    } else {
        alarms.filter(due_at(now.hour, now.minute)).map_values(|a: Alarm| request_for(a))
    }
}

/// The minute that the checker remembers after a check at `now`: `now` if
/// the check raised an alert, the old minute otherwise.
pub open spec fn last_after(last: Option<MinuteKey>, alarms: Seq<Alarm>, now: MinuteKey) -> Option<
    MinuteKey,
> {
    if alerts_at(last, alarms, now).len() > 0 {
        Some(now)
    } else {
        last
    }
}

/// Remembers the minute in which alarms last rang, and the last reading of
/// the wall clock that it checked against.
pub struct AlarmChecker {
    last_triggered_minute: Option<MinuteKey>,
    last_reading: Option<LocalClock>,
}

/// The minute of a clock reading.
pub open spec fn minute_of_reading(c: LocalClockView) -> MinuteKey {
    MinuteKey { year: c.year, ordinal: c.ordinal, hour: c.hour, minute: c.minute }
}

impl View for AlarmChecker {
    type V = Option<MinuteKey>;

    /// The minute in which alarms last rang, if any.
    closed spec fn view(&self) -> Option<MinuteKey> {
        self.last_triggered_minute
    }
}

impl AlarmChecker {
    /// The last reading of the wall clock that `check_now` checked against,
    /// if any.
    pub closed spec fn last_reading(&self) -> Option<LocalClockView> {
        match self.last_reading {
            Some(c) => Some(c@),
            None => None,
        }
    }

    /// A checker that has not rung yet.
    pub fn new() -> (r: AlarmChecker)
        ensures
            r@ == None::<MinuteKey>,
            r.last_reading() is None,
    {
        AlarmChecker { last_triggered_minute: None, last_reading: None }
    }

    /// The alerts to raise when the clock reads `now`.
    pub fn check_at(&mut self, alarms: &Vec<Alarm>, now: MinuteKey) -> (r: Vec<AlarmAlertRequest>)
        ensures
            r@ == alerts_at(old(self)@, alarms@, now),
            final(self)@ == last_after(old(self)@, alarms@, now),
            final(self).last_reading() == old(self).last_reading(),
    {
        if let Some(k) = self.last_triggered_minute {
            if k == now {
                let r: Vec<AlarmAlertRequest> = Vec::new();
                assert(r@ =~= alerts_at(old(self)@, alarms@, now));
                return r;
            }
        }
        let ghost p = due_at(now.hour, now.minute);
        let ghost f = |a: Alarm| request_for(a);
        let mut out: Vec<AlarmAlertRequest> = Vec::new();
        let mut i: usize = 0;
        assert(alarms@.take(0) =~= Seq::<Alarm>::empty());
        proof {
            reveal(Seq::filter);
        }
        while i < alarms.len()
            invariant
                i <= alarms@.len(),
                p == due_at(now.hour, now.minute),
                f == (|a: Alarm| request_for(a)),
                out@ == alarms@.take(i as int).filter(p).map_values(f),
            decreases alarms@.len() - i,
        {
            let a = &alarms[i];
            assert(alarms@.take(i + 1) =~= alarms@.take(i as int).push(alarms@[i as int]));
            proof {
                alarms@.take(i as int).lemma_filter_push(alarms@[i as int], p);
            }
            if a.enabled && a.hour == now.hour && a.minute == now.minute {
                out.push(
                    AlarmAlertRequest {
                        hour: a.hour,
                        minute: a.minute,
                        memo: a.memo.clone(),
                        alarm_id: a.id.clone(),
                    },
                );
                assert(out@ =~= alarms@.take(i + 1).filter(p).map_values(f));
            } else {
                assert(out@ =~= alarms@.take(i + 1).filter(p).map_values(f));
            }
            i = i + 1;
        }
        assert(alarms@.take(alarms@.len() as int) =~= alarms@);
        if out.len() > 0 {
            self.last_triggered_minute = Some(now);
        }
        out
    }

    /// The alerts to raise now, by the local wall clock, with the minute that
    /// the clock read. The reading is kept as `last_reading`: the returned
    /// minute is the reading's date, hour and minute, and its stamp shows the
    /// same `HH:MM`.
    pub fn check_now(&mut self, alarms: &Vec<Alarm>) -> (r: (Vec<AlarmAlertRequest>, MinuteKey))
        ensures
            1 <= r.1.ordinal <= 366,
            r.1.hour < 24,
            r.1.minute < 60,
            r.0@ == alerts_at(old(self)@, alarms@, r.1),
            final(self)@ == last_after(old(self)@, alarms@, r.1),
            final(self).last_reading() is Some,
            r.1 == minute_of_reading(final(self).last_reading()->0),
            ({
                let stamp = final(self).last_reading()->0.stamp;
                stamp.subrange(stamp.len() - 5, stamp.len() as int) == clock_text(
                    r.1.hour as nat,
                    r.1.minute as nat,
                )
            }),
    {
        let clock = read_local_clock();
        let now = MinuteKey {
            year: clock.year(),
            ordinal: clock.ordinal(),
            hour: clock.hour(),
            minute: clock.minute(),
        };
        let alerts = self.check_at(alarms, now);
        self.last_reading = Some(clock);
        (alerts, now)
    }
}

/// What `check_now` checks against is the clock: the minute it returns is the
/// date, hour and minute of the reading it keeps, and the reading's
/// `YYYY-MM-DD HH:MM` stamp ends in that same hour and minute. A check that
/// used any other minute than the one read breaks this.
pub proof fn law_check_now_uses_clock_minute(reading: LocalClockView, minute: MinuteKey)
    requires
        minute == minute_of_reading(reading),
        reading.stamp.subrange(reading.stamp.len() - 5, reading.stamp.len() as int) == clock_text(
            reading.hour as nat,
            reading.minute as nat,
        ),
    ensures
        minute.hour == reading.hour,
        minute.minute == reading.minute,
        minute.year == reading.year,
        minute.ordinal == reading.ordinal,
        reading.stamp.subrange(reading.stamp.len() - 5, reading.stamp.len() as int) == clock_text(
            minute.hour as nat,
            minute.minute as nat,
        ),
{
}

/// An alarm rings at most once in a minute: after a check that raised
/// alerts, another check in the same minute raises none, whatever the alarms
/// are then.
pub proof fn law_no_repeat_in_same_minute(
    last: Option<MinuteKey>,
    alarms: Seq<Alarm>,
    later_alarms: Seq<Alarm>,
    now: MinuteKey,
)
    requires
        alerts_at(last, alarms, now).len() > 0,
    ensures
        alerts_at(last_after(last, alarms, now), later_alarms, now).len() == 0,
{
}

/// A check that raises nothing leaves the remembered minute alone, so an
/// alarm set later in the same minute still rings.
pub proof fn law_quiet_check_keeps_memory(
    last: Option<MinuteKey>,
    alarms: Seq<Alarm>,
    now: MinuteKey,
)
    requires
        alerts_at(last, alarms, now).len() == 0,
    ensures
        last_after(last, alarms, now) == last,
{
}

/// Every alert belongs to an enabled alarm set to the checked hour and
/// minute, and each such alarm raises one, unless the minute already rang.
pub proof fn law_alerts_match_due_alarms(
    last: Option<MinuteKey>,
    alarms: Seq<Alarm>,
    now: MinuteKey,
)
    requires
        last != Some(now),
    ensures
        forall|i: int|
            0 <= i < alerts_at(last, alarms, now).len() ==> {
                let r = #[trigger] alerts_at(last, alarms, now)[i];
                r.hour == now.hour && r.minute == now.minute
            },
        forall|i: int|
            0 <= i < alarms.len() && alarm_due(#[trigger] alarms[i], now.hour, now.minute)
                ==> alerts_at(last, alarms, now).contains(request_for(alarms[i])),
        alerts_at(last, alarms, now).len() == alarms.filter(due_at(now.hour, now.minute)).len(),
{
    broadcast use vstd::seq_lib::group_filter_ensures;

    let p = due_at(now.hour, now.minute);
    let d = alarms.filter(p);
    assert forall|i: int| 0 <= i < alerts_at(last, alarms, now).len() implies {
        let r = #[trigger] alerts_at(last, alarms, now)[i];
        r.hour == now.hour && r.minute == now.minute
    } by {
        assert(p(d[i]));
    }
    assert forall|i: int|
        0 <= i < alarms.len() && alarm_due(#[trigger] alarms[i], now.hour, now.minute) implies alerts_at(
        last,
        alarms,
        now,
    ).contains(request_for(alarms[i])) by {
        assert(p(alarms[i]));
        assert(d.contains(alarms[i]));
        let k = choose|k: int| 0 <= k < d.len() && d[k] == alarms[i];
        assert(alerts_at(last, alarms, now)[k] == request_for(alarms[i]));
    }
}


/// The minute a fresh checker remembers before tick `i` of a run in which
/// tick `j` reads the clock as `ticks[j]` and sees the alarms `alarms[j]`.
pub open spec fn remembered_before(ticks: Seq<MinuteKey>, alarms: Seq<Seq<Alarm>>, i: nat) -> Option<
    MinuteKey,
>
    decreases i,
{
    if i == 0 {
        None
    } else {
        last_after(
            remembered_before(ticks, alarms, (i - 1) as nat),
            alarms[i - 1],
            ticks[i - 1],
        )
    }
}

/// The alerts that tick `i` of such a run raises.
pub open spec fn tick_alerts(ticks: Seq<MinuteKey>, alarms: Seq<Seq<Alarm>>, i: nat) -> Seq<
    AlarmAlertRequest,
> {
    alerts_at(remembered_before(ticks, alarms, i), alarms[i as int], ticks[i as int])
}

/// The last tick before `i` that raised alerts, or -1.
pub open spec fn last_alerting_tick(ticks: Seq<MinuteKey>, alarms: Seq<Seq<Alarm>>, i: nat) -> int
    decreases i,
{
    if i == 0 {
        -1
    } else if tick_alerts(ticks, alarms, (i - 1) as nat).len() > 0 {
        i - 1
    } else {
        last_alerting_tick(ticks, alarms, (i - 1) as nat)
    }
}

proof fn lemma_remembered_is_last_alerting(ticks: Seq<MinuteKey>, alarms: Seq<Seq<Alarm>>, i: nat)
    requires
        i <= ticks.len(),
        alarms.len() == ticks.len(),
    ensures
        ({
            let k = last_alerting_tick(ticks, alarms, i);
            &&& -1 <= k < i
            &&& k >= 0 ==> tick_alerts(ticks, alarms, k as nat).len() > 0
            &&& forall|j: int| k < j < i ==> #[trigger] tick_alerts(ticks, alarms, j as nat).len() == 0
            &&& remembered_before(ticks, alarms, i) == (if k < 0 {
                None
            } else {
                Some(ticks[k])
            })
        }),
    decreases i,
{
    if i > 0 {
        lemma_remembered_is_last_alerting(ticks, alarms, (i - 1) as nat);
    }
}

/// An alarm rings once per minute over a whole run of the 30-second check.
/// Starting from a fresh checker and reading the clock at ticks in time
/// order (ticks of one minute come one after another), tick `i` raises no
/// alert when an earlier tick of the same minute already raised one, and
/// otherwise one alert for each enabled alarm set to that hour and minute,
/// in the order of the alarms.
pub proof fn law_one_ring_per_minute(ticks: Seq<MinuteKey>, alarms: Seq<Seq<Alarm>>, i: nat)
    requires
        alarms.len() == ticks.len(),
        i < ticks.len(),
        forall|a: int, b: int, c: int|
            #![trigger ticks[a], ticks[b], ticks[c]]
            0 <= a < b < c < ticks.len() && ticks[a] == ticks[c] ==> ticks[b] == ticks[a],
    ensures
        tick_alerts(ticks, alarms, i) == (if exists|j: int|
            0 <= j < i && ticks[j] == ticks[i as int] && #[trigger] tick_alerts(
                ticks,
                alarms,
                j as nat,
            ).len() > 0 {
            Seq::empty()
        } else {
            alarms[i as int].filter(due_at(ticks[i as int].hour, ticks[i as int].minute)).map_values(
                |a: Alarm| request_for(a),
            )
        }),
{
    lemma_remembered_is_last_alerting(ticks, alarms, i);
    let k = last_alerting_tick(ticks, alarms, i);
    let now = ticks[i as int];
    if exists|j: int|
        0 <= j < i && ticks[j] == now && #[trigger] tick_alerts(ticks, alarms, j as nat).len() > 0 {
        let j = choose|j: int|
            0 <= j < i && ticks[j] == now && #[trigger] tick_alerts(ticks, alarms, j as nat).len()
                > 0;
        assert(j <= k);
        if j < k {
            assert(ticks[k] == ticks[j]);
        }
        assert(remembered_before(ticks, alarms, i) == Some(now));
    } else {
        if k >= 0 {
            assert(ticks[k] != now);
        }
        assert(remembered_before(ticks, alarms, i) != Some(now));
    }
}

} // verus!
