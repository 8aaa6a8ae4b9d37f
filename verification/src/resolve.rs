//! Availability resolution: from weekly recurring rules and a requested date
//! to the absolute open/close window of that date.
//!
//! The first rule whose day of week matches the date is selected; its open
//! and close times are combined with the date into wall-clock values and
//! converted to instants in the rule's own zone. A date no rule covers is a
//! business-level `NoAvailability`, kept apart from an empty slot list; a
//! window whose close instant is not strictly after its open instant — a
//! misconfigured rule, or a window collapsed by a daylight-saving transition
//! — is an explicit `InvalidWindow`.

use vstd::prelude::*;
use crate::civil::CalendarDate;
use crate::civil::LocalDateTime;
use crate::civil::TimeOfDay;
use crate::civil::weekday;
use crate::civil::weekday_of;
use crate::convert::ConversionError;
use crate::convert::to_instant;
use crate::instant::InstantRange;
use crate::instant::in_supported_span;
use crate::zone::local_instant;
use crate::zone::unique_local_instant;
use crate::zone::zone_valid;

verus! {

/// A weekly recurring availability rule, expressed in the business's local
/// timezone; `day_of_week` runs 0 through 6 with 0 standing for Sunday.
#[derive(Clone, Debug)]
pub struct AvailabilityRule {
    pub day_of_week: i32,
    pub open_time: TimeOfDay,
    pub close_time: TimeOfDay,
    pub time_zone: String,
}

impl AvailabilityRule {
    pub open spec fn wf(self) -> bool {
        0 <= self.day_of_week <= 6 && self.open_time.wf() && self.close_time.wf()
    }
}

#[derive(Clone, Copy, PartialEq, Eq, Structural, Debug)]
pub enum ResolveError {
    /// No rule matches the requested date's weekday.
    NoAvailability,
    /// The resolved close instant is not strictly after the open instant.
    InvalidWindow,
    /// Converting the open or close wall-clock value failed; the open value
    /// is converted first.
    Conversion(ConversionError),
}

/// Some rule covers the weekday of `date`.
pub open spec fn rule_matches(rules: Seq<AvailabilityRule>, date: CalendarDate) -> bool {
    exists|j: int| 0 <= j < rules.len() && rules[j].day_of_week == weekday_of(date)
}

/// `rules[i]` is the first rule covering the weekday of `date`.
pub open spec fn is_first_match(rules: Seq<AvailabilityRule>, date: CalendarDate, i: int) -> bool {
    &&& 0 <= i < rules.len()
    &&& rules[i].day_of_week == weekday_of(date)
    &&& forall|j: int| 0 <= j < i ==> rules[j].day_of_week != weekday_of(date)
}

/// The wall-clock opening of the rule's window on `date`.
pub open spec fn rule_open_local(rule: AvailabilityRule, date: CalendarDate) -> LocalDateTime {
    LocalDateTime { date, time: rule.open_time }
}

/// The wall-clock closing of the rule's window on `date`.
pub open spec fn rule_close_local(rule: AvailabilityRule, date: CalendarDate) -> LocalDateTime {
    LocalDateTime { date, time: rule.close_time }
}

/// What resolving `date` under the matching `rule` must return: the window
/// between the unique instants of the rule's open and close wall-clock values
/// in its zone, or the error naming exactly what went wrong. The open value
/// is converted first, so its failures take precedence.
pub open spec fn window_outcome(
    rule: AvailabilityRule,
    date: CalendarDate,
    r: Result<InstantRange, ResolveError>,
) -> bool {
    let tz = rule.time_zone@;
    let open_s = rule_open_local(rule, date).epoch_seconds();
    let close_s = rule_close_local(rule, date).epoch_seconds();
    if !zone_valid(tz) {
        r == Result::<InstantRange, ResolveError>::Err(
            ResolveError::Conversion(ConversionError::InvalidTimezone),
        )
    } else if !unique_local_instant(tz, open_s) {
        r == Result::<InstantRange, ResolveError>::Err(
            ResolveError::Conversion(ConversionError::AmbiguousOrInvalidLocalTime),
        )
    } else if !in_supported_span(local_instant(tz, open_s)) {
        r == Result::<InstantRange, ResolveError>::Err(
            ResolveError::Conversion(ConversionError::UnsupportedInstant),
        )
    } else if !unique_local_instant(tz, close_s) {
        r == Result::<InstantRange, ResolveError>::Err(
            ResolveError::Conversion(ConversionError::AmbiguousOrInvalidLocalTime),
        )
    } else if !in_supported_span(local_instant(tz, close_s)) {
        r == Result::<InstantRange, ResolveError>::Err(
            ResolveError::Conversion(ConversionError::UnsupportedInstant),
        )
    } else if local_instant(tz, close_s) <= local_instant(tz, open_s) {
        r == Result::<InstantRange, ResolveError>::Err(ResolveError::InvalidWindow)
    } else {
        r matches Ok(w) && w.wf() && w.start@ == local_instant(tz, open_s) && w.end@
            == local_instant(tz, close_s)
    }
}

/// Selects the first rule covering the weekday of `date` and resolves the
/// rule's open and close times on that date to an absolute window in the
/// rule's zone. A date with no matching rule is `NoAvailability`, and never
/// an empty-but-successful window.
pub fn resolve_window(rules: &Vec<AvailabilityRule>, date: &CalendarDate) -> (r: Result<
    InstantRange,
    ResolveError,
>)
    requires
        date.wf(),
        forall|j: int| 0 <= j < rules@.len() ==> (#[trigger] rules@[j]).wf(),
    ensures
        r == Result::<InstantRange, ResolveError>::Err(ResolveError::NoAvailability)
            <==> !rule_matches(rules@, *date),
        forall|i: int| is_first_match(rules@, *date, i) ==> window_outcome(rules@[i], *date, r),
{
    let wd = weekday(date) as i32;
    let n = rules.len();
    let mut i: usize = 0;
    while i < n
        invariant
            i <= n == rules@.len(),
            wd == weekday_of(*date),
            date.wf(),
            forall|j: int| 0 <= j < rules@.len() ==> (#[trigger] rules@[j]).wf(),
            forall|j: int| 0 <= j < i ==> (#[trigger] rules@[j]).day_of_week != wd,
        decreases n - i,
    {
        if rules[i].day_of_week == wd {
            assert(is_first_match(rules@, *date, i as int));
            assert(forall|k: int| is_first_match(rules@, *date, k) ==> k == i as int);
            let open_local = LocalDateTime { date: *date, time: rules[i].open_time };
            let close_local = LocalDateTime { date: *date, time: rules[i].close_time };
            let open_i = match to_instant(&open_local, rules[i].time_zone.as_str()) {
                Ok(v) => v,
                Err(e) => {
                    return Err(ResolveError::Conversion(e));
                },
            };
            let close_i = match to_instant(&close_local, rules[i].time_zone.as_str()) {
                Ok(v) => v,
                Err(e) => {
                    return Err(ResolveError::Conversion(e));
                },
            };
            if close_i.unix_seconds() <= open_i.unix_seconds() {
                return Err(ResolveError::InvalidWindow);
            }
            return Ok(InstantRange { start: open_i, end: close_i });
        }
        i = i + 1;
    }
    Err(ResolveError::NoAvailability)
}

} // verus!
