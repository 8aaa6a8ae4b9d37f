//! The IANA timezone database, reached through chrono-tz.
//!
//! The database itself is outside code; the engine speaks of it through two
//! uninterpreted names. `zone_valid` says whether a string names a zone that
//! the database knows; `zone_offset` is that zone's UTC offset, in seconds, in
//! effect at a given instant. Both are functions of their arguments alone: the
//! zone tables are compiled into chrono-tz, and no clock, locale or
//! environment enters the lookups made here.

use vstd::prelude::*;
use core::str::FromStr;
use crate::civil::LocalDateTime;

verus! {

/// Whether `name` is a recognized IANA timezone identifier.
pub uninterp spec fn zone_valid(name: Seq<char>) -> bool;

/// The zone's UTC offset in seconds (local minus UTC) in effect at the
/// instant `t` seconds after the epoch.
pub uninterp spec fn zone_offset(name: Seq<char>, t: int) -> int;

/// The instant `t` shows the wall clock `wall_secs` (as `epoch_seconds` of a
/// wall-clock value) in the zone `tz`.
pub open spec fn maps_to_local(tz: Seq<char>, t: int, wall_secs: int) -> bool {
    t + zone_offset(tz, t) == wall_secs
}

/// Exactly one instant shows the wall clock `wall_secs` in the zone `tz`:
/// the wall clock falls in no daylight-saving gap and no overlap.
pub open spec fn unique_local_instant(tz: Seq<char>, wall_secs: int) -> bool {
    &&& exists|t: int| maps_to_local(tz, t, wall_secs)
    &&& forall|t1: int, t2: int|
        maps_to_local(tz, t1, wall_secs) && maps_to_local(tz, t2, wall_secs) ==> t1 == t2
}

/// An instant that shows the wall clock `wall_secs` in the zone `tz`; under
/// `unique_local_instant` it is the only one.
pub open spec fn local_instant(tz: Seq<char>, wall_secs: int) -> int {
    choose|t: int| maps_to_local(tz, t, wall_secs)
}

/// The zone is known and exactly one instant shows this wall clock in it.
pub open spec fn zone_maps_uniquely(tz: Seq<char>, wall_secs: int) -> bool {
    zone_valid(tz) && unique_local_instant(tz, wall_secs)
}

/// Relies on chrono_tz::Tz::from_str, which recognizes exactly the IANA zone
/// names, and on chrono's DateTime::with_timezone with Offset::fix, which give
/// the zone's UTC offset in effect at the given instant as a FixedOffset,
/// whose seconds chrono keeps strictly between -86400 and 86400.
#[verifier::external_body]
pub(crate) fn zone_offset_at(name: &str, t: i64) -> (r: Option<i32>)
    requires
        0 <= t < 253402300800,
    ensures
        r is Some <==> zone_valid(name@),
        r matches Some(o) ==> o == zone_offset(name@, t as int) && -86400 < o < 86400,
{
    let tz = match chrono_tz::Tz::from_str(name) {
        Ok(tz) => tz,
        Err(_) => return None,
    };
    let dt = match chrono::DateTime::from_timestamp(t, 0) {
        Some(dt) => dt,
        None => return None,
    };
    Some(chrono::Offset::fix(dt.with_timezone(&tz).offset()).local_minus_utc())
}

/// Relies on chrono_tz::Tz::from_str as above, and on chrono's
/// TimeZone::from_local_datetime with MappedLocalTime::single, which return
/// the instant whose wall clock in the zone equals the given local value
/// exactly when one and only one such instant exists (gaps give None,
/// overlaps give Ambiguous), and on DateTime::timestamp for its UNIX seconds.
#[verifier::external_body]
pub(crate) fn zone_lookup_local(name: &str, l: &LocalDateTime) -> (r: Option<i64>)
    requires
        l.wf(),
    ensures
        r is Some <==> zone_maps_uniquely(name@, l.epoch_seconds()),
        r matches Some(t) ==> maps_to_local(name@, t as int, l.epoch_seconds()),
        r matches Some(t) ==> -86400 < zone_offset(name@, t as int) < 86400,
{
    let tz = match chrono_tz::Tz::from_str(name) { Ok(tz) => tz, Err(_) => return None };
    let date = chrono::NaiveDate::from_ymd_opt(l.date.year, l.date.month as u32, l.date.day as u32);
    let date = match date { Some(d) => d, None => return None };
    let naive = date.and_hms_opt(l.time.hour as u32, l.time.minute as u32, l.time.second as u32);
    let naive = match naive { Some(n) => n, None => return None };
    match chrono::TimeZone::from_local_datetime(&tz, &naive).single() {
        Some(dt) => Some(dt.timestamp()),
        None => None,
    }
}

} // verus!
