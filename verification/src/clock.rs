//! The local wall clock, read through `chrono`.

use chrono::{Datelike, Timelike};
use crate::text::clock_text;
use vstd::prelude::*;

verus! {

/// One reading of the local wall clock, taken apart into plain values. Its
/// fields are private: a value of it only comes from `read_local_clock`, so
/// holding one shows what the clock read.
pub struct LocalClock {
    year: i32,
    ordinal: u32,
    hour: u32,
    minute: u32,
    stamp: String,
}

/// The plain values of a clock reading.
pub struct LocalClockView {
    /// Calendar year.
    pub year: i32,
    /// Day of the year, from 1.
    pub ordinal: u32,
    /// Hour of the day, 0 to 23.
    pub hour: u32,
    /// Minute of the hour, 0 to 59.
    pub minute: u32,
    /// The same instant as `%Y-%m-%d %H:%M` text.
    pub stamp: Seq<char>,
}

impl View for LocalClock {
    type V = LocalClockView;

    closed spec fn view(&self) -> LocalClockView {
        LocalClockView {
            year: self.year,
            ordinal: self.ordinal,
            hour: self.hour,
            minute: self.minute,
            stamp: self.stamp@,
        }
    }
}

impl LocalClock {
    /// The year read.
    pub fn year(&self) -> (r: i32)
        ensures
            r == self@.year,
    {
        self.year
    }

    /// The day of the year read.
    pub fn ordinal(&self) -> (r: u32)
        ensures
            r == self@.ordinal,
    {
        self.ordinal
    }

    /// The hour read.
    pub fn hour(&self) -> (r: u32)
        ensures
            r == self@.hour,
    {
        self.hour
    }

    /// The minute read.
    pub fn minute(&self) -> (r: u32)
        ensures
            r == self@.minute,
    {
        self.minute
    }

    /// The `%Y-%m-%d %H:%M` text of the reading.
    pub fn into_stamp(self) -> (r: String)
        ensures
            r@ == self@.stamp,
    {
        self.stamp
    }
}

/// The shape of the text that `%Y-%m-%d %H:%M` gives: a year of at least
/// four characters, then `-MM-DD HH:MM` with two digits in each field.
pub open spec fn is_minute_stamp_text(s: Seq<char>) -> bool {
    let l = s.len() as int;
    &&& l >= 16
    &&& s[l - 12] == '-' && s[l - 9] == '-' && s[l - 6] == ' ' && s[l - 3] == ':'
    &&& forall|i: int|
        l - 12 <= i < l && i != l - 12 && i != l - 9 && i != l - 6 && i != l - 3 ==> {
            let u = #[trigger] s[i] as u32;
            48 <= u <= 57
        }
}

/// The local date and time now.
///
/// Trusted: calls `chrono::Local::now` once and reads the result through
/// `Datelike::year`, `Datelike::ordinal`, `Timelike::hour`, `Timelike::minute`
/// and `DateTime::format` with `%Y-%m-%d %H:%M`. Stated: the documented
/// ranges of the ordinal (1 to 366), hour (0 to 23) and minute (0 to 59); the
/// shape of the stamp, which the source of chrono writes with `%Y`
/// zero-padded to four digits (signed outside years 0 to 9999) and the other
/// fields as two zero-padded digits; and that the stamp ends in the same hour
/// and minute. Which instant is read is not stated: it depends on the
/// machine's clock and time zone. The call panics when the system clock is
/// set before 1970 or the time-zone data cannot be used, which depends on
/// the machine, not on any input.
#[verifier::external_body]
pub(crate) fn read_local_clock() -> (r: LocalClock)
    ensures
        1 <= r@.ordinal <= 366,
        r@.hour < 24,
        r@.minute < 60,
        is_minute_stamp_text(r@.stamp),
        r@.stamp.subrange(r@.stamp.len() - 5, r@.stamp.len() as int) == clock_text(
            r@.hour as nat,
            r@.minute as nat,
        ),
{
    let now = chrono::Local::now();
    LocalClock {
        year: now.year(),
        ordinal: now.ordinal(),
        hour: now.hour(),
        minute: now.minute(),
        stamp: now.format("%Y-%m-%d %H:%M").to_string(),
    }
}

} // verus!
