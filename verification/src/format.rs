//! Canonical serialization of instants: the exact form `YYYY-MM-DDTHH:MM:SSZ`,
//! with no fractional seconds and no numeric offset. This format is part of
//! the caller-facing contract of the slot generator.

use vstd::prelude::*;
use vstd::string::StringExecFns;
use crate::api::TimeSlot;
use crate::civil::LocalDateTime;
use crate::civil::lemma_epoch_seconds_injective;
use crate::civil::secs_to_datetime;
use crate::convert::ConversionError;
use crate::convert::conversion_error_of;
use crate::convert::conversion_ok;
use crate::convert::to_instant;
use crate::instant::Instant;
use crate::instant::InstantRange;
use crate::slots::BusyInterval;
use crate::slots::busy_seconds;
use crate::slots::free_slot_starts;
use crate::slots::generate_slots;
use crate::slots::slot_starts;
use crate::zone::local_instant;

verus! {

/// The decimal digit character for `d`.
pub open spec fn digit_char(d: int) -> char {
    if d == 0 {
        '0'
    } else if d == 1 {
        '1'
    } else if d == 2 {
        '2'
    } else if d == 3 {
        '3'
    } else if d == 4 {
        '4'
    } else if d == 5 {
        '5'
    } else if d == 6 {
        '6'
    } else if d == 7 {
        '7'
    } else if d == 8 {
        '8'
    } else {
        '9'
    }
}

/// `n` as two decimal digits, zero-padded.
pub open spec fn two_digits(n: int) -> Seq<char> {
    seq![digit_char(n / 10), digit_char(n % 10)]
}

/// `n` as four decimal digits, zero-padded.
pub open spec fn four_digits(n: int) -> Seq<char> {
    seq![
        digit_char(n / 1000),
        digit_char(n / 100 % 10),
        digit_char(n / 10 % 10),
        digit_char(n % 10),
    ]
}

/// The canonical UTC rendering of a wall-clock value:
/// `YYYY-MM-DDTHH:MM:SSZ`.
pub open spec fn rfc3339_utc(l: LocalDateTime) -> Seq<char> {
    four_digits(l.date.year as int) + seq!['-'] + two_digits(l.date.month as int) + seq!['-']
        + two_digits(l.date.day as int) + seq!['T'] + two_digits(l.time.hour as int) + seq![':']
        + two_digits(l.time.minute as int) + seq![':'] + two_digits(l.time.second as int)
        + seq!['Z']
}

/// The UTC wall clock of the instant `t` seconds after the epoch: the unique
/// well-formed wall-clock value whose `epoch_seconds` is `t`.
pub open spec fn utc_datetime_of(t: int) -> LocalDateTime {
    choose|l: LocalDateTime| l.wf() && l.epoch_seconds() == t
}

fn digit_str(d: u8) -> (r: &'static str)
    requires
        d < 10,
    ensures
        r@ == seq![digit_char(d as int)],
{
    let s: &'static str = match d {
        0 => "0",
        1 => "1",
        2 => "2",
        3 => "3",
        4 => "4",
        5 => "5",
        6 => "6",
        7 => "7",
        8 => "8",
        _ => "9",
    };
    proof {
        reveal_strlit("0");
        reveal_strlit("1");
        reveal_strlit("2");
        reveal_strlit("3");
        reveal_strlit("4");
        reveal_strlit("5");
        reveal_strlit("6");
        reveal_strlit("7");
        reveal_strlit("8");
        reveal_strlit("9");
        assert(s@ =~= seq![digit_char(d as int)]);
    }
    s
}

fn push_two_digits(out: &mut String, n: u8)
    requires
        n < 100,
    ensures
        final(out)@ == old(out)@ + two_digits(n as int),
{
    out.append(digit_str(n / 10));
    out.append(digit_str(n % 10));
    proof {
        assert(final(out)@ =~= old(out)@ + two_digits(n as int));
    }
}

fn push_four_digits(out: &mut String, n: i32)
    requires
        0 <= n <= 9999,
    ensures
        final(out)@ == old(out)@ + four_digits(n as int),
{
    out.append(digit_str((n / 1000) as u8));
    out.append(digit_str((n / 100 % 10) as u8));
    out.append(digit_str((n / 10 % 10) as u8));
    out.append(digit_str((n % 10) as u8));
    proof {
        assert(final(out)@ =~= old(out)@ + four_digits(n as int));
    }
}

/// Renders the instant in the canonical UTC form `YYYY-MM-DDTHH:MM:SSZ`.
pub fn format_instant_utc(i: &Instant) -> (r: String)
    requires
        i.wf(),
    ensures
        r@ == rfc3339_utc(utc_datetime_of(i@)),
{
    let l = secs_to_datetime(i.unix_seconds());
    proof {
        assert(l.wf() && l.epoch_seconds() == i@);
        let l2 = utc_datetime_of(i@);
        assert(l2.wf() && l2.epoch_seconds() == i@) by {
            assert(exists|x: LocalDateTime| x.wf() && x.epoch_seconds() == i@) by {
                assert(l.wf() && l.epoch_seconds() == i@);
            }
        }
        lemma_epoch_seconds_injective(l, l2);
    }
    let mut out = String::new();
    push_four_digits(&mut out, l.date.year);
    out.append("-");
    push_two_digits(&mut out, l.date.month);
    out.append("-");
    push_two_digits(&mut out, l.date.day);
    out.append("T");
    push_two_digits(&mut out, l.time.hour);
    out.append(":");
    push_two_digits(&mut out, l.time.minute);
    out.append(":");
    push_two_digits(&mut out, l.time.second);
    out.append("Z");
    proof {
        reveal_strlit("-");
        reveal_strlit("T");
        reveal_strlit(":");
        reveal_strlit("Z");
        assert(out@ =~= rfc3339_utc(l));
    }
    out
}

/// Resolves the wall-clock window `[start_local, end_local)` to instants in
/// the zone named `tz`, keeps the fixed-duration candidate slots that overlap
/// no busy interval, and renders each surviving slot in the canonical UTC
/// form; the whole request a booking client makes, in one call. The start of
/// the window is converted first, so its failures take precedence.
pub fn generate_time_slots(
    start_local: &LocalDateTime,
    end_local: &LocalDateTime,
    duration_minutes: u32,
    tz: &str,
    busy: &Vec<BusyInterval>,
) -> (r: Result<Vec<TimeSlot>, ConversionError>)
    requires
        start_local.wf(),
        end_local.wf(),
        0 < duration_minutes,
    ensures
        r is Ok <==> conversion_ok(tz@, *start_local) && conversion_ok(tz@, *end_local),
        r matches Err(e) ==> e == if !conversion_ok(tz@, *start_local) {
            conversion_error_of(tz@, *start_local)
        } else {
            conversion_error_of(tz@, *end_local)
        },
        r matches Ok(v) ==> ({
            let dur = 60 * duration_minutes as int;
            let starts = free_slot_starts(
                local_instant(tz@, start_local.epoch_seconds()),
                local_instant(tz@, end_local.epoch_seconds()),
                dur,
                busy_seconds(busy@),
            );
            &&& v@.len() == starts.len()
            &&& forall|k: int|
                0 <= k < v@.len() ==> (#[trigger] v@[k]).start_time@ == rfc3339_utc(
                    utc_datetime_of(starts[k]),
                ) && v@[k].end_time@ == rfc3339_utc(utc_datetime_of(starts[k] + dur))
        }),
{
    let open_i = match to_instant(start_local, tz) {
        Ok(v) => v,
        Err(e) => {
            return Err(e);
        },
    };
    let close_i = match to_instant(end_local, tz) {
        Ok(v) => v,
        Err(e) => {
            return Err(e);
        },
    };
    let duration_seconds = 60 * (duration_minutes as i64);
    let window = InstantRange { start: open_i, end: close_i };
    let slots = generate_slots(&window, duration_seconds, busy);
    let ghost starts = free_slot_starts(
        open_i@,
        close_i@,
        duration_seconds as int,
        busy_seconds(busy@),
    );
    proof {
        assert(slot_starts(slots@) == starts);
    }
    let n = slots.len();
    let mut out: Vec<TimeSlot> = Vec::new();
    let mut k: usize = 0;
    while k < n
        invariant
            k <= n == slots@.len(),
            out@.len() == k,
            starts == slot_starts(slots@),
            forall|j: int|
                0 <= j < slots@.len() ==> (#[trigger] slots@[j]).wf() && slots@[j].end@
                    == slots@[j].start@ + duration_seconds,
            forall|j: int|
                0 <= j < k ==> (#[trigger] out@[j]).start_time@ == rfc3339_utc(
                    utc_datetime_of(slots@[j].start@),
                ) && out@[j].end_time@ == rfc3339_utc(utc_datetime_of(slots@[j].end@)),
        decreases n - k,
    {
        let s = slots[k];
        let start_time = format_instant_utc(&s.start);
        let end_time = format_instant_utc(&s.end);
        out.push(TimeSlot { start_time, end_time });
        k = k + 1;
    }
    proof {
        assert forall|j: int| 0 <= j < out@.len() implies (#[trigger] out@[j]).start_time@
            == rfc3339_utc(utc_datetime_of(starts[j])) && out@[j].end_time@ == rfc3339_utc(
            utc_datetime_of(starts[j] + 60 * duration_minutes as int),
        ) by {
            assert(slot_starts(slots@)[j] == slots@[j].start@);
        }
    }
    Ok(out)
}

} // verus!
