//! Absolute instants.
//!
//! An `Instant` is a timezone-independent point in time, counted in whole
//! seconds from 1970-01-01T00:00:00Z. The engine supports instants from
//! 1970-01-02T00:00:00Z up to but excluding 9999-12-30T00:00:00Z; the margin
//! of about a day on each side keeps the wall clock of every zone, whose UTC
//! offset is always under a day, inside the years 1970 through 9999.

use vstd::prelude::*;

verus! {

/// First supported second: 1970-01-02T00:00:00Z.
pub const MIN_UNIX_SECONDS: i64 = 86400;

/// First second past the supported span: 9999-12-30T00:00:00Z.
pub const MAX_UNIX_SECONDS: i64 = 253402214400;

/// Whether `t` seconds after the epoch lies in the supported span.
pub open spec fn in_supported_span(t: int) -> bool {
    MIN_UNIX_SECONDS <= t < MAX_UNIX_SECONDS
}

/// An absolute point in time, immutable once constructed.
#[derive(Clone, Copy, PartialEq, Eq, Structural, Debug)]
pub struct Instant {
    pub(crate) secs: i64,
}

impl View for Instant {
    type V = int;

    /// Whole seconds since 1970-01-01T00:00:00Z.
    closed spec fn view(&self) -> int {
        self.secs as int
    }
}

impl Instant {
    pub open spec fn wf(self) -> bool {
        MIN_UNIX_SECONDS <= self@ < MAX_UNIX_SECONDS
    }

    /// Builds an instant from a UNIX timestamp in seconds; rejects timestamps
    /// outside the supported span.
    pub fn from_unix_seconds(secs: i64) -> (r: Option<Instant>)
        ensures
            r matches Some(i) ==> i.wf() && i@ == secs,
            r is Some <==> MIN_UNIX_SECONDS <= secs < MAX_UNIX_SECONDS,
    {
        if MIN_UNIX_SECONDS <= secs && secs < MAX_UNIX_SECONDS {
            Some(Instant { secs })
        } else {
            None
        }
    }

    pub(crate) fn from_secs_in_range(secs: i64) -> (r: Instant)
        requires
            MIN_UNIX_SECONDS <= secs < MAX_UNIX_SECONDS,
        ensures
            r.wf(),
            r@ == secs,
    {
        Instant { secs }
    }

    pub fn unix_seconds(&self) -> (r: i64)
        ensures
            r == self@,
    {
        self.secs
    }

    /// The instant `delta` seconds later (or earlier, for a negative `delta`);
    /// rejects results outside the supported span.
    pub fn plus_seconds(&self, delta: i64) -> (r: Option<Instant>)
        requires
            self.wf(),
            -253402300800 <= delta <= 253402300800,
        ensures
            r matches Some(i) ==> i.wf() && i@ == self@ + delta,
            r is Some <==> MIN_UNIX_SECONDS <= self@ + delta < MAX_UNIX_SECONDS,
    {
        let secs = self.secs + delta;
        if MIN_UNIX_SECONDS <= secs && secs < MAX_UNIX_SECONDS {
            Some(Instant { secs })
        } else {
            None
        }
    }
}

/// An absolute half-open time range `[start, end)`.
#[derive(Clone, Copy, PartialEq, Eq, Structural, Debug)]
pub struct InstantRange {
    pub start: Instant,
    pub end: Instant,
}

impl InstantRange {
    pub open spec fn wf(self) -> bool {
        self.start.wf() && self.end.wf() && self.start@ < self.end@
    }
}

} // verus!
