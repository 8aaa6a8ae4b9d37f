//! Slot generation: partitioning an absolute window into fixed-duration
//! candidate slots and filtering out those that overlap a busy interval.
//!
//! Candidates step from the window's start in increments of the duration; a
//! final partial slot that would pass the window's end is dropped, never
//! truncated. Two half-open intervals overlap exactly when each starts before
//! the other ends; a candidate merely adjacent to a busy interval is kept. A
//! candidate overlapping any busy interval, even partially, is discarded
//! whole. The output keeps the ascending order of generation.

use vstd::prelude::*;
use crate::instant::Instant;
use crate::instant::InstantRange;
use crate::instant::MAX_UNIX_SECONDS;
use crate::instant::MIN_UNIX_SECONDS;

verus! {

/// An absolute half-open interval during which no slot may be offered.
#[derive(Clone, Copy, PartialEq, Eq, Structural, Debug)]
pub struct BusyInterval {
    pub start: Instant,
    pub end: Instant,
}

impl BusyInterval {
    pub open spec fn wf(self) -> bool {
        self.start.wf() && self.end.wf() && self.start@ < self.end@
    }

    pub fn new(start: Instant, end: Instant) -> (r: Option<BusyInterval>)
        requires
            start.wf(),
            end.wf(),
        ensures
            r matches Some(b) ==> b.wf() && b.start == start && b.end == end,
            r is Some <==> start@ < end@,
    {
        if start.unix_seconds() < end.unix_seconds() {
            Some(BusyInterval { start, end })
        } else {
            None
        }
    }
}

/// A bookable half-open interval, produced by `generate_slots` and never
/// persisted.
#[derive(Clone, Copy, PartialEq, Eq, Structural, Debug)]
pub struct Slot {
    pub start: Instant,
    pub end: Instant,
}

impl Slot {
    pub open spec fn wf(self) -> bool {
        self.start.wf() && self.end.wf() && self.start@ < self.end@
    }
}

/// Two half-open intervals `[a_start, a_end)` and `[b_start, b_end)` overlap
/// exactly when each starts strictly before the other ends.
pub open spec fn intervals_overlap(a_start: int, a_end: int, b_start: int, b_end: int) -> bool {
    a_start < b_end && b_start < a_end
}

/// The busy intervals as pairs of UNIX seconds.
pub open spec fn busy_seconds(busy: Seq<BusyInterval>) -> Seq<(int, int)> {
    busy.map_values(|b: BusyInterval| (b.start@, b.end@))
}

/// The candidate slot `[s_start, s_end)` overlaps none of the busy intervals.
pub open spec fn slot_is_free(s_start: int, s_end: int, busy: Seq<(int, int)>) -> bool {
    forall|j: int|
        0 <= j < busy.len() ==> !intervals_overlap(s_start, s_end, busy[j].0, busy[j].1)
}

/// Start times of the surviving slots: candidates `[t, t + dur)` stepping by
/// `dur` from `t` while they fit before `window_end`, each kept exactly when
/// it overlaps no busy interval.
pub open spec fn free_slot_starts(t: int, window_end: int, dur: int, busy: Seq<(int, int)>) -> Seq<
    int,
> decreases window_end - t when dur > 0 {
    if t + dur > window_end {
        Seq::empty()
    } else if slot_is_free(t, t + dur, busy) {
        seq![t] + free_slot_starts(t + dur, window_end, dur, busy)
    } else {
        free_slot_starts(t + dur, window_end, dur, busy)
    }
}

/// The start times of a sequence of slots, in UNIX seconds.
pub open spec fn slot_starts(slots: Seq<Slot>) -> Seq<int> {
    slots.map_values(|s: Slot| s.start@)
}

fn slot_is_free_exec(s_start: i64, s_end: i64, busy: &Vec<BusyInterval>) -> (r: bool)
    ensures
        r == slot_is_free(s_start as int, s_end as int, busy_seconds(busy@)),
{
    let n = busy.len();
    let mut j: usize = 0;
    while j < n
        invariant
            j <= n == busy.len(),
            forall|k: int|
                0 <= k < j ==> !intervals_overlap(
                    s_start as int,
                    s_end as int,
                    busy_seconds(busy@)[k].0,
                    busy_seconds(busy@)[k].1,
                ),
        decreases n - j,
    {
        let b = &busy[j];
        if s_start < b.end.unix_seconds() && b.start.unix_seconds() < s_end {
            assert(intervals_overlap(
                s_start as int,
                s_end as int,
                busy_seconds(busy@)[j as int].0,
                busy_seconds(busy@)[j as int].1,
            ));
            return false;
        }
        j = j + 1;
    }
    true
}

/// Partitions `[window.start, window.end)` into slots of `duration_seconds`
/// seconds and keeps exactly those that overlap no busy interval, in
/// ascending order of start time. A trailing remainder shorter than the
/// duration yields no slot.
pub fn generate_slots(window: &InstantRange, duration_seconds: i64, busy: &Vec<BusyInterval>) -> (r:
    Vec<Slot>)
    requires
        window.start.wf(),
        window.end.wf(),
        0 < duration_seconds,
    ensures
        slot_starts(r@) == free_slot_starts(
            window.start@,
            window.end@,
            duration_seconds as int,
            busy_seconds(busy@),
        ),
        forall|k: int|
            0 <= k < r@.len() ==> (#[trigger] r@[k]).wf() && r@[k].end@ == r@[k].start@
                + duration_seconds,
{
    let start_secs = window.start.unix_seconds();
    let end_secs = window.end.unix_seconds();
    let ghost dur = duration_seconds as int;
    let ghost bv = busy_seconds(busy@);
    let ghost whole = free_slot_starts(start_secs as int, end_secs as int, dur, bv);
    let mut out: Vec<Slot> = Vec::new();
    let mut t: i64 = start_secs;
    while t <= end_secs - duration_seconds
        invariant
            start_secs <= t,
            MIN_UNIX_SECONDS <= start_secs < MAX_UNIX_SECONDS,
            MIN_UNIX_SECONDS <= end_secs < MAX_UNIX_SECONDS,
            0 < duration_seconds,
            dur == duration_seconds as int,
            bv == busy_seconds(busy@),
            whole == slot_starts(out@) + free_slot_starts(t as int, end_secs as int, dur, bv),
            forall|k: int|
                0 <= k < out@.len() ==> (#[trigger] out@[k]).wf() && out@[k].end@ == out@[k].start@
                    + duration_seconds,
        decreases end_secs - t,
    {
        let ghost prev_out = out@;
        let slot_end = t + duration_seconds;
        if slot_is_free_exec(t, slot_end, busy) {
            let s = Slot {
                start: Instant::from_secs_in_range(t),
                end: Instant::from_secs_in_range(slot_end),
            };
            out.push(s);
            proof {
                assert(slot_starts(out@) =~= slot_starts(prev_out) + seq![t as int]);
                assert(free_slot_starts(t as int, end_secs as int, dur, bv) == seq![t as int]
                    + free_slot_starts(t as int + dur, end_secs as int, dur, bv));
                assert(slot_starts(prev_out) + (seq![t as int] + free_slot_starts(
                    t as int + dur,
                    end_secs as int,
                    dur,
                    bv,
                )) =~= slot_starts(out@) + free_slot_starts(t as int + dur, end_secs as int, dur, bv));
            }
        } else {
            proof {
                assert(free_slot_starts(t as int, end_secs as int, dur, bv) == free_slot_starts(
                    t as int + dur,
                    end_secs as int,
                    dur,
                    bv,
                ));
            }
        }
        t = t + duration_seconds;
    }
    proof {
        assert(free_slot_starts(t as int, end_secs as int, dur, bv) =~= Seq::<int>::empty());
        assert(slot_starts(out@) + Seq::<int>::empty() =~= slot_starts(out@));
    }
    out
}

/// Adjacency is not overlap: a candidate ending exactly at a busy interval's
/// start, or starting exactly at its end, does not overlap it.
pub proof fn lemma_adjacent_not_overlap(s_start: int, s_end: int, b_start: int, b_end: int)
    requires
        s_end == b_start || s_start == b_end,
    ensures
        !intervals_overlap(s_start, s_end, b_start, b_end),
{
}

/// Every surviving start is a candidate at or after `t` whose whole slot fits
/// before the window's end and is free of every busy interval — in
/// particular, no partial trailing slot survives — and the starts come in
/// strictly ascending order.
pub proof fn lemma_free_slot_starts_sound(t: int, window_end: int, dur: int, busy: Seq<(int, int)>)
    requires
        dur > 0,
    ensures
        forall|k: int|
            0 <= k < free_slot_starts(t, window_end, dur, busy).len() ==> {
                let s = #[trigger] free_slot_starts(t, window_end, dur, busy)[k];
                &&& t <= s
                &&& s + dur <= window_end
                &&& slot_is_free(s, s + dur, busy)
            },
        forall|k1: int, k2: int|
            0 <= k1 < k2 < free_slot_starts(t, window_end, dur, busy).len()
                ==> #[trigger] free_slot_starts(t, window_end, dur, busy)[k1]
                < #[trigger] free_slot_starts(t, window_end, dur, busy)[k2],
    decreases window_end - t,
{
    let cur = free_slot_starts(t, window_end, dur, busy);
    if t + dur > window_end {
        assert(cur.len() == 0);
    } else {
        lemma_free_slot_starts_sound(t + dur, window_end, dur, busy);
        let rest = free_slot_starts(t + dur, window_end, dur, busy);
        if slot_is_free(t, t + dur, busy) {
            assert(cur == seq![t] + rest);
            assert forall|k: int| 0 <= k < cur.len() implies {
                let s = #[trigger] cur[k];
                &&& t <= s
                &&& s + dur <= window_end
                &&& slot_is_free(s, s + dur, busy)
            } by {
                if k == 0 {
                    assert(cur[0] == t);
                } else {
                    assert(cur[k] == rest[k - 1]);
                }
            }
            assert forall|k1: int, k2: int|
                0 <= k1 < k2 < cur.len() implies #[trigger] cur[k1] < #[trigger] cur[k2] by {
                assert(cur[k2] == rest[k2 - 1]);
                if k1 == 0 {
                    assert(cur[0] == t);
                } else {
                    assert(cur[k1] == rest[k1 - 1]);
                }
            }
        } else {
            assert(cur == rest);
            assert forall|k: int| 0 <= k < cur.len() implies {
                let s = #[trigger] cur[k];
                &&& t <= s
                &&& s + dur <= window_end
                &&& slot_is_free(s, s + dur, busy)
            } by {
                assert(cur[k] == rest[k]);
            }
        }
    }
}

/// Every surviving start lies on the candidate grid: a whole number of
/// durations after the window's start.
pub proof fn lemma_free_slot_starts_aligned(
    t: int,
    window_end: int,
    dur: int,
    busy: Seq<(int, int)>,
)
    requires
        dur > 0,
    ensures
        forall|k: int|
            0 <= k < free_slot_starts(t, window_end, dur, busy).len() ==> exists|n: nat|
                #[trigger] free_slot_starts(t, window_end, dur, busy)[k] == t + (#[trigger] (n
                    * dur)),
    decreases window_end - t,
{
    let cur = free_slot_starts(t, window_end, dur, busy);
    if t + dur > window_end {
    } else {
        lemma_free_slot_starts_aligned(t + dur, window_end, dur, busy);
        let rest = free_slot_starts(t + dur, window_end, dur, busy);
        let free_here = slot_is_free(t, t + dur, busy);
        assert forall|k: int| 0 <= k < cur.len() implies exists|n: nat|
            #[trigger] cur[k] == t + (#[trigger] (n * dur)) by {
            if free_here && k == 0 {
                assert(cur[0] == t);
                assert(t + (0 as nat) * dur == t) by (nonlinear_arith);
                assert(cur[k] == t + (0 as nat) * dur);
            } else {
                let kk = if free_here {
                    k - 1
                } else {
                    k
                };
                assert(cur[k] == rest[kk]);
                let n = choose|n: nat| rest[kk] == t + dur + (#[trigger] (n * dur));
                assert(t + dur + n * dur == t + ((n + 1) as nat) * dur) by (nonlinear_arith);
                assert(cur[k] == t + ((n + 1) as nat) * dur);
            }
        }
    }
}

/// Every aligned free candidate survives: if the candidate starting `n`
/// durations after `t` still fits before the window's end and overlaps no
/// busy interval, its start is in the output.
pub proof fn lemma_free_candidate_kept(
    t: int,
    window_end: int,
    dur: int,
    busy: Seq<(int, int)>,
    n: nat,
)
    requires
        dur > 0,
        t + n * dur + dur <= window_end,
        slot_is_free(t + n * dur, t + n * dur + dur, busy),
    ensures
        free_slot_starts(t, window_end, dur, busy).contains(t + n * dur),
    decreases n,
{
    let cur = free_slot_starts(t, window_end, dur, busy);
    let rest = free_slot_starts(t + dur, window_end, dur, busy);
    if n == 0 {
        assert(t + n * dur == t) by (nonlinear_arith)
            requires
                n == 0,
        ;
        assert(cur == seq![t] + rest);
        assert(cur[0] == t);
    } else {
        assert(t + dur + (n - 1) * dur == t + n * dur) by (nonlinear_arith)
            requires
                n >= 1,
        ;
        assert(t + n * dur + dur <= window_end);
        assert(0 <= (n - 1) * dur) by (nonlinear_arith)
            requires
                n >= 1 && dur > 0,
        ;
        lemma_free_candidate_kept(t + dur, window_end, dur, busy, (n - 1) as nat);
        assert(rest.contains(t + n * dur));
        let k = choose|k: int| 0 <= k < rest.len() && rest[k] == t + n * dur;
        if slot_is_free(t, t + dur, busy) {
            assert(cur == seq![t] + rest);
            assert(cur[k + 1] == t + n * dur);
        } else {
            assert(cur == rest);
            assert(cur[k] == t + n * dur);
        }
    }
}

} // verus!
