//! The value types exchanged with the service's collaborators — request and
//! response bodies, calendar payloads — and the validated construction of
//! availability rules from the wire-level `DayTimeSlot` form.
//!
//! These are plain data; the HTTP, persistence and identity plumbing that
//! fills them lives outside the engine and hands in plain values.

use vstd::prelude::*;
use vstd::string::StrSliceExecFns;
use std::collections::HashMap;
use crate::civil::CalendarDate;
use crate::civil::TimeOfDay;
use crate::civil::days_in_month;
use crate::civil::days_in_month_exec;
use crate::resolve::AvailabilityRule;

verus! {

/// The query a caller sends to ask for a date's open slots: the date in the
/// shape `YYYY-MM-DD`, and the id of the requested service as its canonical
/// text.
pub struct SlotQuery {
    pub date: String,
    pub service_id: String,
}

pub struct UploadQuery {
    pub upload_type: String,
}

pub struct UploadResponse {
    pub signed_upload_url: String,
    pub public_url: String,
}

/// A bookable slot as serialized for the caller: both endpoints in the
/// canonical UTC form `YYYY-MM-DDTHH:MM:SSZ`.
pub struct TimeSlot {
    pub start_time: String,
    pub end_time: String,
}

pub struct FreeBusyRequestItem {
    pub id: String,
}

pub struct FreeBusyRequest {
    pub time_min: String,
    pub time_max: String,
    pub items: Vec<FreeBusyRequestItem>,
}

pub struct FreeBusyTime {
    pub start: String,
    pub end: String,
}

pub struct FreeBusyCalendar {
    pub busy: Vec<FreeBusyTime>,
}

pub struct FreeBusyResponse {
    pub calendars: HashMap<String, FreeBusyCalendar>,
}

pub struct ApiResponse<T> {
    pub success: bool,
    pub data: Option<T>,
    pub message: Option<String>,
}

pub struct EmptyStruct {}

pub struct GoogleCode {
    pub code: String,
}

pub struct GoogleUserInfo {
    pub sub: String,
    pub email: Option<String>,
    pub name: Option<String>,
}

pub struct UpdateUser {
    pub username: Option<String>,
    pub business_name: Option<String>,
    pub email: Option<String>,
    pub location: Option<String>,
    pub phone_number: Option<String>,
    pub description: Option<String>,
    pub phone_number_is_whatsapp: Option<bool>,
}

pub struct UserStatus {
    pub status: Option<bool>,
}

pub struct GoogleEventDateTime {
    pub date_time: String,
    pub time_zone: String,
}

pub struct GoogleEventAttendee {
    pub email: String,
}

pub struct GoogleCalendarEvent {
    pub summary: String,
    pub description: String,
    pub start: GoogleEventDateTime,
    pub end: GoogleEventDateTime,
    pub attendees: Vec<GoogleEventAttendee>,
}

/// One weekly opening as it arrives on the wire: times as `HH:MM:SS` strings.
pub struct DayTimeSlot {
    pub day_of_week: i32,
    pub open_time: String,
    pub close_time: String,
    pub time_zone: String,
}

/// The full weekly schedule as it arrives on the wire.
pub struct SetAvailability {
    pub rules: Vec<DayTimeSlot>,
}

pub open spec fn is_digit(c: char) -> bool {
    48 <= c as int <= 57
}

pub open spec fn digit_val(c: char) -> int {
    c as int - 48
}

/// The string has the exact shape `HH:MM:SS` with an hour under 24 and
/// minutes and seconds under 60.
pub open spec fn time_string_wf(s: Seq<char>) -> bool {
    &&& s.len() == 8
    &&& is_digit(s[0]) && is_digit(s[1]) && is_digit(s[3]) && is_digit(s[4]) && is_digit(s[6])
        && is_digit(s[7])
    &&& s[2] == ':' && s[5] == ':'
    &&& 10 * digit_val(s[0]) + digit_val(s[1]) < 24
    &&& 10 * digit_val(s[3]) + digit_val(s[4]) < 60
    &&& 10 * digit_val(s[6]) + digit_val(s[7]) < 60
}

/// The time of day a well-formed `HH:MM:SS` string denotes.
pub open spec fn time_of_string(s: Seq<char>) -> TimeOfDay {
    TimeOfDay {
        hour: (10 * digit_val(s[0]) + digit_val(s[1])) as u8,
        minute: (10 * digit_val(s[3]) + digit_val(s[4])) as u8,
        second: (10 * digit_val(s[6]) + digit_val(s[7])) as u8,
    }
}

fn digit_at(s: &str, i: usize) -> (r: Option<u8>)
    requires
        i < s@.len(),
    ensures
        r is Some <==> is_digit(s@[i as int]),
        r matches Some(d) ==> d == digit_val(s@[i as int]) && d < 10,
{
    let c = s.get_char(i);
    let v = c as u32;
    if 48 <= v && v <= 57 {
        Some((v - 48) as u8)
    } else {
        None
    }
}

/// Parses a wall-clock time in the exact shape `HH:MM:SS`; rejects every
/// other string.
pub fn parse_time_of_day(s: &str) -> (r: Option<TimeOfDay>)
    ensures
        r is Some <==> time_string_wf(s@),
        r matches Some(t) ==> t == time_of_string(s@) && t.wf(),
{
    if s.unicode_len() != 8 {
        return None;
    }
    if s.get_char(2) != ':' || s.get_char(5) != ':' {
        return None;
    }
    let h1 = match digit_at(s, 0) {
        Some(d) => d,
        None => return None,
    };
    let h2 = match digit_at(s, 1) {
        Some(d) => d,
        None => return None,
    };
    let m1 = match digit_at(s, 3) {
        Some(d) => d,
        None => return None,
    };
    let m2 = match digit_at(s, 4) {
        Some(d) => d,
        None => return None,
    };
    let s1 = match digit_at(s, 6) {
        Some(d) => d,
        None => return None,
    };
    let s2 = match digit_at(s, 7) {
        Some(d) => d,
        None => return None,
    };
    let hour = 10 * h1 + h2;
    let minute = 10 * m1 + m2;
    let second = 10 * s1 + s2;
    if hour >= 24 || minute >= 60 || second >= 60 {
        return None;
    }
    Some(TimeOfDay { hour, minute, second })
}

/// One wire-level opening is acceptable: its day is 0 through 6 and both its
/// times have the exact shape `HH:MM:SS`.
pub open spec fn day_slot_wf(d: DayTimeSlot) -> bool {
    0 <= d.day_of_week <= 6 && time_string_wf(d.open_time@) && time_string_wf(d.close_time@)
}

/// The rule an acceptable wire-level opening denotes. The zone name is kept
/// as given; it is checked at the point of conversion.
pub open spec fn rule_of_slot(d: DayTimeSlot) -> AvailabilityRule {
    AvailabilityRule {
        day_of_week: d.day_of_week,
        open_time: time_of_string(d.open_time@),
        close_time: time_of_string(d.close_time@),
        time_zone: d.time_zone,
    }
}

/// Validates one wire-level opening into an availability rule: the day must
/// be 0 through 6 and both times must have the exact shape `HH:MM:SS`. The
/// zone name is kept as given; it is checked at the point of conversion.
pub fn rule_from_day_slot(d: &DayTimeSlot) -> (r: Option<AvailabilityRule>)
    ensures
        r is Some <==> day_slot_wf(*d),
        r matches Some(rule) ==> rule.wf() && rule == rule_of_slot(*d),
{
    if d.day_of_week < 0 || d.day_of_week > 6 {
        return None;
    }
    let open_time = match parse_time_of_day(d.open_time.as_str()) {
        Some(t) => t,
        None => return None,
    };
    let close_time = match parse_time_of_day(d.close_time.as_str()) {
        Some(t) => t,
        None => return None,
    };
    Some(
        AvailabilityRule {
            day_of_week: d.day_of_week,
            open_time,
            close_time,
            time_zone: d.time_zone.clone(),
        },
    )
}

/// The string has the exact shape `YYYY-MM-DD` and denotes a real calendar
/// date in the supported years.
pub open spec fn date_string_wf(s: Seq<char>) -> bool {
    &&& s.len() == 10
    &&& is_digit(s[0]) && is_digit(s[1]) && is_digit(s[2]) && is_digit(s[3])
    &&& s[4] == '-' && s[7] == '-'
    &&& is_digit(s[5]) && is_digit(s[6]) && is_digit(s[8]) && is_digit(s[9])
    &&& 1970 <= 1000 * digit_val(s[0]) + 100 * digit_val(s[1]) + 10 * digit_val(s[2]) + digit_val(
        s[3],
    ) <= 9999
    &&& 1 <= 10 * digit_val(s[5]) + digit_val(s[6]) <= 12
    &&& 1 <= 10 * digit_val(s[8]) + digit_val(s[9]) <= days_in_month(
        1000 * digit_val(s[0]) + 100 * digit_val(s[1]) + 10 * digit_val(s[2]) + digit_val(s[3]),
        10 * digit_val(s[5]) + digit_val(s[6]),
    )
}

/// The calendar date a well-formed `YYYY-MM-DD` string denotes.
pub open spec fn date_of_string(s: Seq<char>) -> CalendarDate {
    CalendarDate {
        year: (1000 * digit_val(s[0]) + 100 * digit_val(s[1]) + 10 * digit_val(s[2]) + digit_val(
            s[3],
        )) as i32,
        month: (10 * digit_val(s[5]) + digit_val(s[6])) as u8,
        day: (10 * digit_val(s[8]) + digit_val(s[9])) as u8,
    }
}

/// Parses a requested date in the exact shape `YYYY-MM-DD`; rejects every
/// other string, and every string that names no real date in the supported
/// years — a thirtieth of February, or a twenty-ninth of February outside a
/// leap year.
pub fn parse_calendar_date(s: &str) -> (r: Option<CalendarDate>)
    ensures
        r is Some <==> date_string_wf(s@),
        r matches Some(d) ==> d == date_of_string(s@) && d.wf(),
{
    if s.unicode_len() != 10 {
        return None;
    }
    if s.get_char(4) != '-' || s.get_char(7) != '-' {
        return None;
    }
    let y1 = match digit_at(s, 0) {
        Some(d) => d,
        None => return None,
    };
    let y2 = match digit_at(s, 1) {
        Some(d) => d,
        None => return None,
    };
    let y3 = match digit_at(s, 2) {
        Some(d) => d,
        None => return None,
    };
    let y4 = match digit_at(s, 3) {
        Some(d) => d,
        None => return None,
    };
    let m1 = match digit_at(s, 5) {
        Some(d) => d,
        None => return None,
    };
    let m2 = match digit_at(s, 6) {
        Some(d) => d,
        None => return None,
    };
    let d1 = match digit_at(s, 8) {
        Some(d) => d,
        None => return None,
    };
    let d2 = match digit_at(s, 9) {
        Some(d) => d,
        None => return None,
    };
    let year = 1000 * (y1 as i32) + 100 * (y2 as i32) + 10 * (y3 as i32) + (y4 as i32);
    let month = 10 * m1 + m2;
    let day = 10 * d1 + d2;
    if year < 1970 || year > 9999 || month < 1 || month > 12 {
        return None;
    }
    if day < 1 || (day as i64) > days_in_month_exec(year, month) {
        return None;
    }
    Some(CalendarDate { year, month, day })
}

/// Validates a whole wire-level weekly schedule into availability rules,
/// keeping their order; rejects the schedule whole if any entry is bad.
pub fn rules_from_set(s: &SetAvailability) -> (r: Option<Vec<AvailabilityRule>>)
    ensures
        r is Some <==> (forall|j: int| 0 <= j < s.rules@.len() ==> day_slot_wf(#[trigger] s.rules@[j])),
        r matches Some(v) ==> v@.len() == s.rules@.len() && (forall|j: int|
            0 <= j < v@.len() ==> (#[trigger] v@[j]).wf() && v@[j] == rule_of_slot(s.rules@[j])),
{
    let n = s.rules.len();
    let mut out: Vec<AvailabilityRule> = Vec::new();
    let mut k: usize = 0;
    while k < n
        invariant
            k <= n == s.rules@.len(),
            out@.len() == k,
            forall|j: int| 0 <= j < k ==> day_slot_wf(#[trigger] s.rules@[j]),
            forall|j: int|
                0 <= j < k ==> (#[trigger] out@[j]).wf() && out@[j] == rule_of_slot(s.rules@[j]),
        decreases n - k,
    {
        match rule_from_day_slot(&s.rules[k]) {
            Some(rule) => out.push(rule),
            None => {
                return None;
            },
        }
        k = k + 1;
    }
    Some(out)
}

} // verus!
