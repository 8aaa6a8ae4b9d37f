//! Civil (proleptic Gregorian) calendar arithmetic.
//!
//! A wall-clock value is a pair of a `CalendarDate` and a `TimeOfDay`; it is
//! meaningful only together with a timezone identifier at the point of
//! conversion. The engine supports the years 1970 through 9999; every
//! wall-clock value in that span is measured by `epoch_seconds`, the number of
//! seconds from 1970-01-01T00:00:00 to the value on a clock that never jumps.

use vstd::prelude::*;

verus! {

/// A calendar date in the years 1970 through 9999.
#[derive(Clone, Copy, PartialEq, Eq, Structural, Debug)]
pub struct CalendarDate {
    pub year: i32,
    pub month: u8,
    pub day: u8,
}

/// A time of day with second resolution.
#[derive(Clone, Copy, PartialEq, Eq, Structural, Debug)]
pub struct TimeOfDay {
    pub hour: u8,
    pub minute: u8,
    pub second: u8,
}

/// A wall-clock date and time with no attached zone.
#[derive(Clone, Copy, PartialEq, Eq, Structural, Debug)]
pub struct LocalDateTime {
    pub date: CalendarDate,
    pub time: TimeOfDay,
}

pub open spec fn is_leap_year(y: int) -> bool {
    y % 4 == 0 && (y % 100 != 0 || y % 400 == 0)
}

pub open spec fn days_in_year(y: int) -> int {
    if is_leap_year(y) {
        366
    } else {
        365
    }
}

pub open spec fn days_in_month(y: int, m: int) -> int {
    if m == 2 {
        if is_leap_year(y) {
            29
        } else {
            28
        }
    } else if m == 4 || m == 6 || m == 9 || m == 11 {
        30
    } else {
        31
    }
}

/// Days from 1970-01-01 to the first day of year `y`.
pub open spec fn days_before_year(y: int) -> int
    decreases y - 1970,
{
    if y <= 1970 {
        0
    } else {
        days_before_year(y - 1) + days_in_year(y - 1)
    }
}

/// Days from the first day of year `y` to the first day of its month `m`.
pub open spec fn days_before_month(y: int, m: int) -> int
    decreases m,
{
    if m <= 1 {
        0
    } else {
        days_before_month(y, m - 1) + days_in_month(y, m - 1)
    }
}

impl CalendarDate {
    pub open spec fn wf(self) -> bool {
        &&& 1970 <= self.year <= 9999
        &&& 1 <= self.month <= 12
        &&& 1 <= self.day <= days_in_month(self.year as int, self.month as int)
    }

    /// Days from 1970-01-01 to this date.
    pub open spec fn epoch_days(self) -> int {
        days_before_year(self.year as int) + days_before_month(self.year as int, self.month as int)
            + self.day - 1
    }
}

impl TimeOfDay {
    pub open spec fn wf(self) -> bool {
        self.hour < 24 && self.minute < 60 && self.second < 60
    }

    /// Seconds from midnight to this time of day.
    pub open spec fn day_seconds(self) -> int {
        3600 * self.hour + 60 * self.minute + self.second
    }
}

impl LocalDateTime {
    pub open spec fn wf(self) -> bool {
        self.date.wf() && self.time.wf()
    }

    /// Seconds from 1970-01-01T00:00:00 to this wall-clock value, on a clock
    /// that never jumps.
    pub open spec fn epoch_seconds(self) -> int {
        86400 * self.date.epoch_days() + self.time.day_seconds()
    }
}

pub proof fn lemma_days_before_year_mono(y1: int, y2: int)
    requires
        y1 <= y2,
    ensures
        days_before_year(y1) <= days_before_year(y2),
    decreases y2 - y1,
{
    if y1 < y2 {
        lemma_days_before_year_mono(y1, y2 - 1);
    }
}

pub proof fn lemma_days_before_month_mono(y: int, m1: int, m2: int)
    requires
        m1 <= m2,
    ensures
        days_before_month(y, m1) <= days_before_month(y, m2),
    decreases m2 - m1,
{
    if m1 < m2 {
        lemma_days_before_month_mono(y, m1, m2 - 1);
    }
}

/// The months of a year cover exactly its days.
pub proof fn lemma_days_before_month_full(y: int)
    ensures
        days_before_month(y, 13) == days_in_year(y),
{
    assert(days_before_month(y, 13) == days_in_year(y)) by {
        reveal_with_fuel(days_before_month, 13);
    }
}

/// Crossing from `n - 1` to `n` raises `n / d` exactly when `d` divides `n`.
proof fn lemma_div_step(n: int, d: int)
    requires
        d > 0,
    ensures
        n / d == if n % d == 0 {
            (n - 1) / d + 1
        } else {
            (n - 1) / d
        },
{
    let q = (n - 1) / d;
    let r = (n - 1) % d;
    vstd::arithmetic::div_mod::lemma_fundamental_div_mod(n - 1, d);
    if r == d - 1 {
        assert((q + 1) * d == q * d + d) by (nonlinear_arith);
        vstd::arithmetic::div_mod::lemma_fundamental_div_mod_converse(n, d, q + 1, 0);
    } else {
        vstd::arithmetic::div_mod::lemma_fundamental_div_mod_converse(n, d, q, r + 1);
    }
}

/// Counting year by year agrees with the closed leap-year formula.
proof fn lemma_days_before_year_closed(y: int)
    requires
        1970 <= y,
    ensures
        days_before_year(y) == 365 * (y - 1970) + (y - 1) / 4 - (y - 1) / 100 + (y - 1) / 400
            - 477,
    decreases y - 1970,
{
    if y > 1970 {
        lemma_days_before_year_closed(y - 1);
        lemma_div_step(y - 1, 4);
        lemma_div_step(y - 1, 100);
        lemma_div_step(y - 1, 400);
        vstd::arithmetic::div_mod::lemma_mod_mod(y - 1, 100, 4);
        vstd::arithmetic::div_mod::lemma_mod_mod(y - 1, 4, 25);
    }
}

/// Days from 1970-01-01 to 10000-01-01.
pub proof fn lemma_total_days()
    ensures
        days_before_year(10000) == 2932897,
{
    lemma_days_before_year_closed(10000);
}

/// A well-formed date falls inside its own year and month.
pub proof fn lemma_epoch_days_range(d: CalendarDate)
    requires
        d.wf(),
    ensures
        days_before_year(d.year as int) + days_before_month(d.year as int, d.month as int)
            <= d.epoch_days(),
        d.epoch_days() < days_before_year(d.year as int) + days_before_month(
            d.year as int,
            d.month as int + 1,
        ),
        days_before_year(d.year as int) <= d.epoch_days() < days_before_year(d.year as int + 1),
        0 <= d.epoch_days() < 2932897,
{
    let y = d.year as int;
    let m = d.month as int;
    assert(days_before_month(y, m + 1) == days_before_month(y, m) + days_in_month(y, m));
    lemma_days_before_month_mono(y, m + 1, 13);
    lemma_days_before_month_full(y);
    assert(days_before_year(y + 1) == days_before_year(y) + days_in_year(y));
    lemma_days_before_year_mono(1970, y);
    lemma_days_before_month_mono(y, 1, m);
    lemma_days_before_year_mono(y + 1, 10000);
    lemma_total_days();
}

/// `epoch_days` tells well-formed dates apart.
pub proof fn lemma_epoch_days_injective(a: CalendarDate, b: CalendarDate)
    requires
        a.wf(),
        b.wf(),
        a.epoch_days() == b.epoch_days(),
    ensures
        a == b,
{
    lemma_epoch_days_range(a);
    lemma_epoch_days_range(b);
    if a.year < b.year {
        lemma_days_before_year_mono(a.year as int + 1, b.year as int);
    }
    if b.year < a.year {
        lemma_days_before_year_mono(b.year as int + 1, a.year as int);
    }
    if a.month < b.month {
        lemma_days_before_month_mono(a.year as int, a.month as int + 1, b.month as int);
    }
    if b.month < a.month {
        lemma_days_before_month_mono(a.year as int, b.month as int + 1, a.month as int);
    }
}

pub fn is_leap_year_exec(y: i32) -> (r: bool)
    requires
        0 <= y,
    ensures
        r == is_leap_year(y as int),
{
    y % 4 == 0 && (y % 100 != 0 || y % 400 == 0)
}

pub fn days_in_year_exec(y: i32) -> (r: i64)
    requires
        0 <= y,
    ensures
        r == days_in_year(y as int),
{
    if is_leap_year_exec(y) {
        366
    } else {
        365
    }
}

pub fn days_in_month_exec(y: i32, m: u8) -> (r: i64)
    requires
        0 <= y,
        1 <= m <= 12,
    ensures
        r == days_in_month(y as int, m as int),
{
    if m == 2 {
        if is_leap_year_exec(y) {
            29
        } else {
            28
        }
    } else if m == 4 || m == 6 || m == 9 || m == 11 {
        30
    } else {
        31
    }
}

/// Days from 1970-01-01 to `d`.
pub fn date_to_days(d: &CalendarDate) -> (r: i64)
    requires
        d.wf(),
    ensures
        r == d.epoch_days(),
        0 <= r < 2932897,
{
    let mut acc: i64 = 0;
    let mut yy: i32 = 1970;
    while yy < d.year
        invariant
            1970 <= yy <= d.year <= 9999,
            acc == days_before_year(yy as int),
            0 <= acc <= 2932897,
        decreases d.year - yy,
    {
        proof {
            lemma_days_before_year_mono(yy as int + 1, 10000);
            lemma_total_days();
        }
        acc = acc + days_in_year_exec(yy);
        yy = yy + 1;
    }
    let mut mm: u8 = 1;
    while mm < d.month
        invariant
            1 <= mm <= d.month <= 12,
            d.wf(),
            acc == days_before_year(d.year as int) + days_before_month(d.year as int, mm as int),
            0 <= acc <= 2932897 + 366,
        decreases d.month - mm,
    {
        proof {
            lemma_epoch_days_range(*d);
            lemma_days_before_month_mono(d.year as int, mm as int + 1, d.month as int);
        }
        acc = acc + days_in_month_exec(d.year, mm);
        mm = mm + 1;
    }
    proof {
        lemma_epoch_days_range(*d);
    }
    acc + (d.day as i64) - 1
}

/// Seconds from 1970-01-01T00:00:00 to `l`, on a clock that never jumps.
pub fn datetime_to_secs(l: &LocalDateTime) -> (r: i64)
    requires
        l.wf(),
    ensures
        r == l.epoch_seconds(),
        0 <= r < 253402300800,
{
    let days = date_to_days(&l.date);
    days * 86400 + (l.time.hour as i64) * 3600 + (l.time.minute as i64) * 60 + (
    l.time.second as i64)
}

/// The date `days0` days after 1970-01-01.
pub fn days_to_date(days0: i64) -> (d: CalendarDate)
    requires
        0 <= days0 < 2932897,
    ensures
        d.wf(),
        d.epoch_days() == days0,
{
    let mut y: i32 = 1970;
    let mut days: i64 = days0;
    loop
        invariant
            1970 <= y <= 9999,
            0 <= days,
            days_before_year(y as int) + days == days0 < 2932897,
        ensures
            0 <= days < days_in_year(y as int),
        decreases days,
    {
        let dy = days_in_year_exec(y);
        if days < dy {
            break ;
        }
        days = days - dy;
        proof {
            if y == 9999 {
                lemma_total_days();
            }
        }
        y = y + 1;
    }
    let doy = days;
    assert(0 <= doy < days_in_year(y as int));
    let mut m: u8 = 1;
    loop
        invariant
            1970 <= y <= 9999,
            1 <= m <= 12,
            0 <= days,
            days_before_month(y as int, m as int) + days == doy < days_in_year(y as int),
        ensures
            0 <= days < days_in_month(y as int, m as int),
        decreases days,
    {
        let dm = days_in_month_exec(y, m);
        if days < dm {
            break ;
        }
        days = days - dm;
        proof {
            if m == 12 {
                lemma_days_before_month_full(y as int);
            }
        }
        m = m + 1;
    }
    let d = CalendarDate { year: y, month: m, day: (days + 1) as u8 };
    d
}

/// The wall-clock value `total` seconds after 1970-01-01T00:00:00, on a clock
/// that never jumps.
pub fn secs_to_datetime(total: i64) -> (l: LocalDateTime)
    requires
        0 <= total < 253402300800,
    ensures
        l.wf(),
        l.epoch_seconds() == total,
{
    let days = total / 86400;
    let rem = total % 86400;
    let hour = rem / 3600;
    let rem2 = rem % 3600;
    let minute = rem2 / 60;
    let second = rem2 % 60;
    assert(days * 86400 + rem == total && 0 <= rem < 86400 && 0 <= days < 2932897)
        by (nonlinear_arith)
        requires
            0 <= total < 253402300800,
            days == total / 86400,
            rem == total % 86400,
    ;
    assert(hour * 3600 + rem2 == rem && 0 <= rem2 < 3600 && 0 <= hour < 24) by (nonlinear_arith)
        requires
            0 <= rem < 86400,
            hour == rem / 3600,
            rem2 == rem % 3600,
    ;
    assert(minute * 60 + second == rem2 && 0 <= second < 60 && 0 <= minute < 60)
        by (nonlinear_arith)
        requires
            0 <= rem2 < 3600,
            minute == rem2 / 60,
            second == rem2 % 60,
    ;
    let date = days_to_date(days);
    let time = TimeOfDay { hour: hour as u8, minute: minute as u8, second: second as u8 };
    LocalDateTime { date, time }
}

impl LocalDateTime {
    /// The wall-clock value exactly `minutes` minutes later, carrying across
    /// hour, day, month and year boundaries; rejects results past the year
    /// 9999.
    pub fn plus_minutes(&self, minutes: u32) -> (r: Option<LocalDateTime>)
        requires
            self.wf(),
        ensures
            r matches Some(l) ==> l.wf() && l.epoch_seconds() == self.epoch_seconds() + 60
                * minutes,
            r is Some <==> self.epoch_seconds() + 60 * minutes < 253402300800,
    {
        let total = datetime_to_secs(self) + 60 * (minutes as i64);
        if total < 253402300800 {
            Some(secs_to_datetime(total))
        } else {
            None
        }
    }
}

/// Day of the week of `d`, with 0 standing for Sunday.
pub open spec fn weekday_of(d: CalendarDate) -> int {
    (d.epoch_days() + 4) % 7
}

/// Day of the week, 0 through 6, with 0 standing for Sunday.
pub fn weekday(d: &CalendarDate) -> (w: u8)
    requires
        d.wf(),
    ensures
        w == weekday_of(*d),
        w < 7,
{
    let days = date_to_days(d);
    ((days + 4) % 7) as u8
}

/// `epoch_seconds` tells well-formed wall-clock values apart.
pub proof fn lemma_epoch_seconds_injective(a: LocalDateTime, b: LocalDateTime)
    requires
        a.wf(),
        b.wf(),
        a.epoch_seconds() == b.epoch_seconds(),
    ensures
        a == b,
{
    let ad = a.date.epoch_days();
    let bd = b.date.epoch_days();
    let at = a.time.day_seconds();
    let bt = b.time.day_seconds();
    assert(ad == bd && at == bt) by (nonlinear_arith)
        requires
            86400 * ad + at == 86400 * bd + bt,
            0 <= at < 86400,
            0 <= bt < 86400,
    ;
    lemma_epoch_days_injective(a.date, b.date);
    assert(a.time == b.time) by (nonlinear_arith)
        requires
            3600 * a.time.hour + 60 * a.time.minute + a.time.second == 3600 * b.time.hour + 60
                * b.time.minute + b.time.second,
            a.time.wf(),
            b.time.wf(),
    ;
}

} // verus!
