//! Conversion between absolute instants and zone-local wall-clock values.
//!
//! Both directions are fallible and explicit: an unrecognized zone is
//! rejected, and a wall-clock value that a daylight-saving transition makes
//! ambiguous (it exists twice) or nonexistent (it falls in a gap) is surfaced
//! to the caller, never resolved by guessing.

use vstd::prelude::*;
use crate::civil::LocalDateTime;
use crate::civil::lemma_epoch_seconds_injective;
use crate::civil::secs_to_datetime;
use crate::civil::datetime_to_secs;
use crate::instant::Instant;
use crate::instant::MAX_UNIX_SECONDS;
use crate::instant::MIN_UNIX_SECONDS;
use crate::zone::maps_to_local;
use crate::zone::local_instant;
use crate::zone::unique_local_instant;
use crate::zone::zone_lookup_local;
use crate::zone::zone_maps_uniquely;
use crate::zone::zone_offset_at;
use crate::zone::zone_valid;

verus! {

#[derive(Clone, Copy, PartialEq, Eq, Structural, Debug)]
pub enum ConversionError {
    /// The zone name is not a recognized IANA identifier.
    InvalidTimezone,
    /// The wall-clock value falls in a daylight-saving gap (it never exists)
    /// or overlap (it exists twice) of the zone.
    AmbiguousOrInvalidLocalTime,
    /// The wall-clock value exists exactly once, but at an instant outside
    /// the span the engine supports.
    UnsupportedInstant,
}

/// The wall-clock value observed in the zone `tz` at the instant `i`: the
/// unique well-formed value whose `epoch_seconds` is `i` shifted by the
/// zone's UTC offset in effect at `i`.
pub open spec fn local_at(tz: Seq<char>, i: int, l: LocalDateTime) -> bool {
    l.wf() && maps_to_local(tz, i, l.epoch_seconds())
}

/// Converting the wall-clock value `l` in the zone `tz` succeeds: the zone is
/// known, exactly one instant observes `l`, and that instant lies in the
/// supported span.
pub open spec fn conversion_ok(tz: Seq<char>, l: LocalDateTime) -> bool {
    zone_maps_uniquely(tz, l.epoch_seconds()) && crate::instant::in_supported_span(
        local_instant(tz, l.epoch_seconds()),
    )
}

/// The error converting the wall-clock value `l` in the zone `tz` reports
/// when it fails.
pub open spec fn conversion_error_of(tz: Seq<char>, l: LocalDateTime) -> ConversionError {
    if !zone_valid(tz) {
        ConversionError::InvalidTimezone
    } else if !unique_local_instant(tz, l.epoch_seconds()) {
        ConversionError::AmbiguousOrInvalidLocalTime
    } else {
        ConversionError::UnsupportedInstant
    }
}

/// Converts an absolute instant to the wall-clock value observed in `tz`,
/// applying the zone's UTC offset in effect at that instant.
pub fn to_local(i: &Instant, tz: &str) -> (r: Result<LocalDateTime, ConversionError>)
    requires
        i.wf(),
    ensures
        r matches Ok(l) ==> local_at(tz@, i@, l),
        r is Ok <==> zone_valid(tz@),
        r is Err ==> r == Result::<LocalDateTime, ConversionError>::Err(
            ConversionError::InvalidTimezone,
        ),
{
    let secs = i.unix_seconds();
    match zone_offset_at(tz, secs) {
        None => Err(ConversionError::InvalidTimezone),
        Some(off) => {
            let wall = secs + (off as i64);
            Ok(secs_to_datetime(wall))
        },
    }
}

/// Converts a wall-clock value, interpreted in `tz`, to the absolute instant
/// that observes it; rejects the value unless exactly one such instant
/// exists, and that instant lies in the supported span.
pub fn to_instant(l: &LocalDateTime, tz: &str) -> (r: Result<Instant, ConversionError>)
    requires
        l.wf(),
    ensures
        r matches Ok(i) ==> i.wf() && maps_to_local(tz@, i@, l.epoch_seconds())
            && unique_local_instant(tz@, l.epoch_seconds()),
        r == Result::<Instant, ConversionError>::Err(ConversionError::InvalidTimezone)
            <==> !zone_valid(tz@),
        r == Result::<Instant, ConversionError>::Err(ConversionError::AmbiguousOrInvalidLocalTime)
            <==> zone_valid(tz@) && !unique_local_instant(tz@, l.epoch_seconds()),
        r == Result::<Instant, ConversionError>::Err(ConversionError::UnsupportedInstant)
            <==> zone_maps_uniquely(tz@, l.epoch_seconds()) && !(MIN_UNIX_SECONDS <= local_instant(
            tz@,
            l.epoch_seconds(),
        ) < MAX_UNIX_SECONDS),
        r matches Ok(i) ==> i@ == local_instant(tz@, l.epoch_seconds()),
        r is Ok <==> conversion_ok(tz@, *l),
        r matches Err(e) ==> e == conversion_error_of(tz@, *l),
{
    match zone_lookup_local(tz, l) {
        None => {
            if zone_offset_at(tz, MIN_UNIX_SECONDS).is_none() {
                Err(ConversionError::InvalidTimezone)
            } else {
                Err(ConversionError::AmbiguousOrInvalidLocalTime)
            }
        },
        Some(t) => {
            proof {
                assert(maps_to_local(tz@, t as int, l.epoch_seconds()));
                assert(maps_to_local(tz@, local_instant(tz@, l.epoch_seconds()), l.epoch_seconds()));
            }
            if MIN_UNIX_SECONDS <= t && t < MAX_UNIX_SECONDS {
                Ok(Instant::from_secs_in_range(t))
            } else {
                Err(ConversionError::UnsupportedInstant)
            }
        },
    }
}

/// The conversions round-trip: if the instant `i` observes the wall clock `l`
/// in the zone `tz`, and `l` is not made ambiguous or nonexistent by a
/// daylight-saving transition, then the one instant observing `l` — the one
/// `to_instant` returns — is `i` itself.
pub proof fn lemma_round_trip(tz: Seq<char>, i: int, l: LocalDateTime, t: int)
    requires
        maps_to_local(tz, i, l.epoch_seconds()),
        unique_local_instant(tz, l.epoch_seconds()),
        maps_to_local(tz, t, l.epoch_seconds()),
    ensures
        t == i,
{
}

/// The wall clock of an instant in a zone is unique: `to_local`'s contract
/// pins its result down to one value.
pub proof fn lemma_local_at_unique(tz: Seq<char>, i: int, l1: LocalDateTime, l2: LocalDateTime)
    requires
        local_at(tz, i, l1),
        local_at(tz, i, l2),
    ensures
        l1 == l2,
{
    lemma_epoch_seconds_injective(l1, l2);
}

/// Builds the instant whose UTC wall clock is `l`: a pure counterpart of
/// `to_instant` for the zero-offset zone, needing no zone lookup. Rejects
/// values whose instant falls outside the supported span.
pub fn instant_from_utc(l: &LocalDateTime) -> (r: Option<Instant>)
    requires
        l.wf(),
    ensures
        r matches Some(i) ==> i.wf() && i@ == l.epoch_seconds(),
        r is Some <==> crate::instant::in_supported_span(l.epoch_seconds()),
{
    let secs = datetime_to_secs(l);
    Instant::from_unix_seconds(secs)
}

/// Converts an absolute instant to the wall-clock value observed in the zone
/// named `tz_name`; a service-level entry point equivalent to `to_local`.
pub fn convert_to_local_primitive(dt_utc: &Instant, tz_name: &str) -> (r: Result<
    LocalDateTime,
    ConversionError,
>)
    requires
        dt_utc.wf(),
    ensures
        r matches Ok(l) ==> local_at(tz_name@, dt_utc@, l),
        r is Ok <==> zone_valid(tz_name@),
{
    to_local(dt_utc, tz_name)
}

/// Converts a wall-clock value, interpreted in the zone named `tz_name`, to
/// an absolute instant; a service-level entry point over `to_instant` that
/// reports every failure as `None`.
pub fn local_to_utc(local_date: &LocalDateTime, tz_name: &str) -> (r: Option<Instant>)
    requires
        local_date.wf(),
    ensures
        r matches Some(i) ==> i.wf() && maps_to_local(tz_name@, i@, local_date.epoch_seconds())
            && unique_local_instant(tz_name@, local_date.epoch_seconds()),
        r is Some <==> zone_maps_uniquely(tz_name@, local_date.epoch_seconds())
            && MIN_UNIX_SECONDS <= local_instant(tz_name@, local_date.epoch_seconds())
            < MAX_UNIX_SECONDS,
{
    match zone_lookup_local(tz_name, local_date) {
        None => None,
        Some(t) => {
            proof {
                assert(maps_to_local(tz_name@, t as int, local_date.epoch_seconds()));
                assert(maps_to_local(
                    tz_name@,
                    local_instant(tz_name@, local_date.epoch_seconds()),
                    local_date.epoch_seconds(),
                ));
            }
            if MIN_UNIX_SECONDS <= t && t < MAX_UNIX_SECONDS {
                Some(Instant::from_secs_in_range(t))
            } else {
                None
            }
        },
    }
}

} // verus!
