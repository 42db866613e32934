//! Calendar dates at day granularity, with the successor arithmetic the
//! lookahead schedule needs. Protection expiries are compared at this
//! granularity: a timestamp counts as reaching a day when its calendar date
//! is on or after that day.

use vstd::prelude::*;

verus! {

/// A calendar date in the proleptic Gregorian calendar, UTC.
#[derive(Clone, Copy, PartialEq, Eq, Structural, Debug)]
pub struct Date {
    pub year: u32,
    pub month: u32,
    pub day: u32,
}

/// Years divisible by 4 are leap years, except century years not divisible
/// by 400.
pub open spec fn is_leap_year(y: int) -> bool {
    (y % 4 == 0 && y % 100 != 0) || y % 400 == 0
}

pub open spec fn days_in_month_s(y: int, m: int) -> int {
    if m == 2 {
        if is_leap_year(y) {
            29
        } else {
            28
        }
    } else if m == 4 || m == 6 || m == 9 || m == 11 {
        30
    } else {
        31
    }
}

impl Date {
    /// Field ranges alone: what formatting needs of a date that came from
    /// outside and is only carried through.
    pub open spec fn wf(self) -> bool {
        &&& 1 <= self.month <= 12
        &&& 1 <= self.day <= 31
        &&& self.year <= 9999
    }

    /// A real calendar date: the day exists in its month.
    pub open spec fn valid(self) -> bool {
        &&& 1 <= self.month <= 12
        &&& 1 <= self.day <= days_in_month_s(self.year as int, self.month as int)
        &&& self.year <= 9999
    }
}

/// Strict calendar order.
pub open spec fn date_lt(a: Date, b: Date) -> bool {
    ||| a.year < b.year
    ||| (a.year == b.year && a.month < b.month)
    ||| (a.year == b.year && a.month == b.month && a.day < b.day)
}

pub open spec fn date_le(a: Date, b: Date) -> bool {
    date_lt(a, b) || a == b
}

/// The calendar day after `d`.
pub open spec fn next_day_s(d: Date) -> Date {
    if d.day < days_in_month_s(d.year as int, d.month as int) {
        Date { year: d.year, month: d.month, day: (d.day + 1) as u32 }
    } else if d.month < 12 {
        Date { year: d.year, month: (d.month + 1) as u32, day: 1 }
    } else {
        Date { year: (d.year + 1) as u32, month: 1, day: 1 }
    }
}

/// `d` advanced by `n` successive days.
pub open spec fn plus_days_s(d: Date, n: int) -> Date
    decreases n,
{
    if n <= 0 {
        d
    } else {
        next_day_s(plus_days_s(d, n - 1))
    }
}

pub fn leap_year(y: u32) -> (r: bool)
    ensures
        r == is_leap_year(y as int),
{
    (y % 4 == 0 && y % 100 != 0) || y % 400 == 0
}

pub fn days_in_month(y: u32, m: u32) -> (r: u32)
    ensures
        r == days_in_month_s(y as int, m as int),
{
    if m == 2 {
        if leap_year(y) {
            29
        } else {
            28
        }
    } else if m == 4 || m == 6 || m == 9 || m == 11 {
        30
    } else {
        31
    }
}

/// Whether `d` is a real calendar date; callers outside verified code test
/// this before asking for date arithmetic.
pub fn date_is_valid(d: Date) -> (r: bool)
    ensures
        r == d.valid(),
{
    1 <= d.month && d.month <= 12 && 1 <= d.day && d.day <= days_in_month(d.year, d.month)
        && d.year <= 9999
}

pub fn date_on_or_before(a: Date, b: Date) -> (r: bool)
    ensures
        r == date_le(a, b),
{
    if a.year != b.year {
        a.year < b.year
    } else if a.month != b.month {
        a.month < b.month
    } else {
        a.day <= b.day
    }
}

/// The day after `d`: the least valid date strictly greater than `d`.
pub fn next_day(d: Date) -> (r: Date)
    requires
        d.valid(),
        d.year < 9999,
    ensures
        r == next_day_s(d),
        r.valid(),
        date_lt(d, r),
        forall|e: Date| e.valid() && date_lt(d, e) ==> date_le(r, e),
{
    let dim = days_in_month(d.year, d.month);
    if d.day < dim {
        Date { year: d.year, month: d.month, day: d.day + 1 }
    } else if d.month < 12 {
        Date { year: d.year, month: d.month + 1, day: 1 }
    } else {
        Date { year: d.year + 1, month: 1, day: 1 }
    }
}

/// The 34 dates the run looks ahead at: `today + 1` through `today + 34`.
pub fn lookahead(today: Date) -> (r: Vec<Date>)
    requires
        today.valid(),
        today.year < 9998,
    ensures
        r@.len() == 34,
        forall|i: int| 0 <= i < 34 ==> r@[i] == plus_days_s(today, i + 1),
        forall|i: int| 0 <= i < 34 ==> (#[trigger] r@[i]).valid(),
{
    let mut out: Vec<Date> = Vec::new();
    let mut cur: Date = today;
    let mut i: usize = 0;
    while i < 34
        invariant
            today.valid(),
            today.year < 9998,
            i <= 34,
            out@.len() == i,
            cur == plus_days_s(today, i as int),
            cur.valid(),
            cur.year == today.year || (cur.year == today.year + 1 && ((cur.month == 1
                && cur.day <= i) || (cur.month == 2 && 31 + cur.day <= i))),
            forall|j: int| 0 <= j < i ==> out@[j] == plus_days_s(today, j + 1),
            forall|j: int| 0 <= j < i ==> (#[trigger] out@[j]).valid(),
        decreases 34 - i,
    {
        let next = next_day(cur);
        out.push(next);
        cur = next;
        i = i + 1;
    }
    out
}

} // verus!
