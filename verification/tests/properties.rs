use booking_engine::api::{
    parse_calendar_date, parse_time_of_day, rule_from_day_slot, rules_from_set, DayTimeSlot,
    SetAvailability,
};
use booking_engine::civil::{weekday, CalendarDate, LocalDateTime, TimeOfDay};
use booking_engine::convert::{
    instant_from_utc, local_to_utc, to_instant, to_local, ConversionError,
};
use booking_engine::format::{format_instant_utc, generate_time_slots};
use booking_engine::instant::{Instant, InstantRange};
use booking_engine::resolve::{resolve_window, AvailabilityRule, ResolveError};
use booking_engine::slots::{generate_slots, BusyInterval};

fn ldt(year: i32, month: u8, day: u8, hour: u8, minute: u8, second: u8) -> LocalDateTime {
    LocalDateTime {
        date: CalendarDate { year, month, day },
        time: TimeOfDay { hour, minute, second },
    }
}

fn utc_instant(year: i32, month: u8, day: u8, hour: u8, minute: u8, second: u8) -> Instant {
    instant_from_utc(&ldt(year, month, day, hour, minute, second)).unwrap()
}

fn busy(start: Instant, end: Instant) -> BusyInterval {
    BusyInterval::new(start, end).unwrap()
}

#[test]
fn round_trip_through_named_zones() {
    let zones = [
        "UTC",
        "Europe/London",
        "America/New_York",
        "Asia/Tokyo",
        "Africa/Lagos",
        "Australia/Sydney",
    ];
    let instants = [
        utc_instant(2025, 6, 15, 12, 0, 0),
        utc_instant(2025, 12, 25, 10, 0, 0),
        utc_instant(2024, 2, 29, 23, 59, 59),
        utc_instant(1971, 1, 1, 0, 0, 0),
    ];
    for tz in zones {
        for i in instants {
            let l = to_local(&i, tz).unwrap();
            let back = to_instant(&l, tz).unwrap();
            assert_eq!(back, i);
        }
    }
}

#[test]
fn offset_correctness_lagos() {
    let i = utc_instant(2025, 12, 25, 10, 0, 0);
    let l = to_local(&i, "Africa/Lagos").unwrap();
    assert_eq!(l, ldt(2025, 12, 25, 11, 0, 0));
}

#[test]
fn date_roll_over_tokyo() {
    let i = utc_instant(2025, 12, 25, 23, 0, 0);
    let l = to_local(&i, "Asia/Tokyo").unwrap();
    assert_eq!(l, ldt(2025, 12, 26, 8, 0, 0));
}

#[test]
fn invalid_zone_rejected() {
    let i = utc_instant(2025, 12, 25, 10, 0, 0);
    assert_eq!(
        to_local(&i, "Asia/Lagos").unwrap_err(),
        ConversionError::InvalidTimezone
    );
    assert_eq!(
        to_instant(&ldt(2025, 12, 25, 10, 0, 0), "Asia/Lagos").unwrap_err(),
        ConversionError::InvalidTimezone
    );
    assert_eq!(local_to_utc(&ldt(2025, 12, 25, 10, 0, 0), "Asia/Lagos"), None);
}

#[test]
fn spring_forward_gap_rejected() {
    // America/New_York jumps from 02:00 to 03:00 on 2025-03-09: 02:30 never
    // exists on that date.
    let l = ldt(2025, 3, 9, 2, 30, 0);
    assert_eq!(
        to_instant(&l, "America/New_York").unwrap_err(),
        ConversionError::AmbiguousOrInvalidLocalTime
    );
}

#[test]
fn fall_back_overlap_rejected() {
    // America/New_York falls back from 02:00 to 01:00 on 2025-11-02: 01:30
    // exists twice on that date and is never resolved by guessing.
    let l = ldt(2025, 11, 2, 1, 30, 0);
    assert_eq!(
        to_instant(&l, "America/New_York").unwrap_err(),
        ConversionError::AmbiguousOrInvalidLocalTime
    );
}

#[test]
fn overlapped_instant_does_not_round_trip_by_guessing() {
    // At 05:30 UTC on 2025-11-02, New York shows 01:30 EDT; an hour later it
    // shows 01:30 again, as EST. The wall clock of either instant is
    // ambiguous, so converting it back is refused rather than guessed.
    for utc_hour_minute in [(5u8, 30u8), (6, 30)] {
        let i = utc_instant(2025, 11, 2, utc_hour_minute.0, utc_hour_minute.1, 0);
        let l = to_local(&i, "America/New_York").unwrap();
        assert_eq!(l, ldt(2025, 11, 2, 1, 30, 0));
        assert_eq!(
            to_instant(&l, "America/New_York").unwrap_err(),
            ConversionError::AmbiguousOrInvalidLocalTime
        );
    }
}

#[test]
fn instant_outside_supported_span_rejected() {
    // Midnight of the epoch day in Tokyo corresponds to an instant nine hours
    // before the epoch, outside the supported span.
    let l = ldt(1970, 1, 1, 0, 0, 0);
    assert_eq!(
        to_instant(&l, "Asia/Tokyo").unwrap_err(),
        ConversionError::UnsupportedInstant
    );
}

#[test]
fn duration_spans_days_and_leap_years() {
    // 90 minutes across an hour boundary.
    let l = ldt(2025, 1, 1, 10, 0, 0).plus_minutes(90).unwrap();
    assert_eq!(l, ldt(2025, 1, 1, 11, 30, 0));
    // Across midnight into a leap day.
    let l = ldt(2024, 2, 28, 23, 30, 0).plus_minutes(60).unwrap();
    assert_eq!(l, ldt(2024, 2, 29, 0, 30, 0));
    // Past the supported span.
    assert_eq!(ldt(9999, 12, 31, 23, 30, 0).plus_minutes(60), None);
}

#[test]
fn known_epoch_seconds() {
    assert_eq!(utc_instant(2025, 1, 1, 9, 0, 0).unix_seconds(), 1735722000);
    assert_eq!(utc_instant(1970, 1, 2, 0, 0, 0).unix_seconds(), 86400);
}

#[test]
fn instant_constructor_bounds() {
    assert!(Instant::from_unix_seconds(0).is_none());
    assert!(Instant::from_unix_seconds(86399).is_none());
    assert!(Instant::from_unix_seconds(86400).is_some());
    assert!(Instant::from_unix_seconds(253402214400).is_none());
    assert!(Instant::from_unix_seconds(253402214399).is_some());
}

#[test]
fn overlap_filtering_scenario() {
    // Window 09:00-12:00 UTC, busy [10:00, 11:00), 60-minute slots: exactly
    // the 09:00 and 11:00 candidates survive, serialized canonically.
    let start = ldt(2025, 1, 1, 9, 0, 0);
    let end = ldt(2025, 1, 1, 12, 0, 0);
    let blocked = vec![busy(
        utc_instant(2025, 1, 1, 10, 0, 0),
        utc_instant(2025, 1, 1, 11, 0, 0),
    )];
    let slots = generate_time_slots(&start, &end, 60, "UTC", &blocked).unwrap();
    assert_eq!(slots.len(), 2);
    assert_eq!(slots[0].start_time, "2025-01-01T09:00:00Z");
    assert_eq!(slots[0].end_time, "2025-01-01T10:00:00Z");
    assert_eq!(slots[1].start_time, "2025-01-01T11:00:00Z");
    assert_eq!(slots[1].end_time, "2025-01-01T12:00:00Z");
}

#[test]
fn adjacency_is_not_overlap() {
    // Busy intervals touching the window's candidates end-to-end exclude
    // nothing but what they cover: 09:00-10:00 and 11:00-12:00 busy leave
    // exactly the 10:00-11:00 candidate, adjacent on both sides.
    let window = InstantRange {
        start: utc_instant(2025, 1, 1, 9, 0, 0),
        end: utc_instant(2025, 1, 1, 12, 0, 0),
    };
    let blocked = vec![
        busy(
            utc_instant(2025, 1, 1, 9, 0, 0),
            utc_instant(2025, 1, 1, 10, 0, 0),
        ),
        busy(
            utc_instant(2025, 1, 1, 11, 0, 0),
            utc_instant(2025, 1, 1, 12, 0, 0),
        ),
    ];
    let slots = generate_slots(&window, 3600, &blocked);
    assert_eq!(slots.len(), 1);
    assert_eq!(slots[0].start, utc_instant(2025, 1, 1, 10, 0, 0));
    assert_eq!(slots[0].end, utc_instant(2025, 1, 1, 11, 0, 0));
}

#[test]
fn no_partial_last_slot() {
    // A 09:00-10:30 window holds one 60-minute slot; the 30-minute remainder
    // yields nothing.
    let window = InstantRange {
        start: utc_instant(2025, 1, 1, 9, 0, 0),
        end: utc_instant(2025, 1, 1, 10, 30, 0),
    };
    let slots = generate_slots(&window, 3600, &vec![]);
    assert_eq!(slots.len(), 1);
    assert_eq!(slots[0].start, utc_instant(2025, 1, 1, 9, 0, 0));
    assert_eq!(slots[0].end, utc_instant(2025, 1, 1, 10, 0, 0));
}

#[test]
fn partial_overlap_discards_whole_slot() {
    // Busy [09:30, 09:45) knocks out the whole 09:00-10:00 candidate.
    let window = InstantRange {
        start: utc_instant(2025, 1, 1, 9, 0, 0),
        end: utc_instant(2025, 1, 1, 11, 0, 0),
    };
    let blocked = vec![busy(
        utc_instant(2025, 1, 1, 9, 30, 0),
        utc_instant(2025, 1, 1, 9, 45, 0),
    )];
    let slots = generate_slots(&window, 3600, &blocked);
    assert_eq!(slots.len(), 1);
    assert_eq!(slots[0].start, utc_instant(2025, 1, 1, 10, 0, 0));
}

#[test]
fn busy_interval_requires_order() {
    let a = utc_instant(2025, 1, 1, 9, 0, 0);
    let b = utc_instant(2025, 1, 1, 10, 0, 0);
    assert!(BusyInterval::new(a, b).is_some());
    assert!(BusyInterval::new(b, a).is_none());
    assert!(BusyInterval::new(a, a).is_none());
}

#[test]
fn weekday_of_known_dates() {
    // 1970-01-01 was a Thursday; 0 stands for Sunday.
    assert_eq!(weekday(&CalendarDate { year: 1970, month: 1, day: 1 }), 4);
    // 2025-12-25 is also a Thursday.
    assert_eq!(weekday(&CalendarDate { year: 2025, month: 12, day: 25 }), 4);
    // 2025-01-01 is a Wednesday.
    assert_eq!(weekday(&CalendarDate { year: 2025, month: 1, day: 1 }), 3);
}

fn thursday_rule(open: TimeOfDay, close: TimeOfDay, tz: &str) -> AvailabilityRule {
    AvailabilityRule {
        day_of_week: 4,
        open_time: open,
        close_time: close,
        time_zone: tz.to_string(),
    }
}

fn tod(hour: u8, minute: u8, second: u8) -> TimeOfDay {
    TimeOfDay { hour, minute, second }
}

#[test]
fn resolve_window_selects_matching_rule() {
    let rules = vec![
        AvailabilityRule {
            day_of_week: 1,
            open_time: tod(8, 0, 0),
            close_time: tod(12, 0, 0),
            time_zone: "UTC".to_string(),
        },
        thursday_rule(tod(9, 0, 0), tod(17, 0, 0), "UTC"),
    ];
    // 2025-12-25 is a Thursday.
    let date = CalendarDate { year: 2025, month: 12, day: 25 };
    let w = resolve_window(&rules, &date).unwrap();
    assert_eq!(w.start, utc_instant(2025, 12, 25, 9, 0, 0));
    assert_eq!(w.end, utc_instant(2025, 12, 25, 17, 0, 0));
}

#[test]
fn resolve_window_applies_rule_zone() {
    // Opening 09:00-17:00 Lagos time (UTC+1) on a Thursday.
    let rules = vec![thursday_rule(tod(9, 0, 0), tod(17, 0, 0), "Africa/Lagos")];
    let date = CalendarDate { year: 2025, month: 12, day: 25 };
    let w = resolve_window(&rules, &date).unwrap();
    assert_eq!(w.start, utc_instant(2025, 12, 25, 8, 0, 0));
    assert_eq!(w.end, utc_instant(2025, 12, 25, 16, 0, 0));
}

#[test]
fn empty_availability_is_not_empty_slots() {
    // A date with no matching rule is NoAvailability, never an
    // empty-but-successful window.
    let date = CalendarDate { year: 2025, month: 12, day: 25 };
    assert_eq!(
        resolve_window(&vec![], &date).unwrap_err(),
        ResolveError::NoAvailability
    );
    let monday_only = vec![AvailabilityRule {
        day_of_week: 1,
        open_time: tod(9, 0, 0),
        close_time: tod(17, 0, 0),
        time_zone: "UTC".to_string(),
    }];
    assert_eq!(
        resolve_window(&monday_only, &date).unwrap_err(),
        ResolveError::NoAvailability
    );
}

#[test]
fn misconfigured_rule_is_invalid_window() {
    let date = CalendarDate { year: 2025, month: 12, day: 25 };
    let closes_before_opening = vec![thursday_rule(tod(17, 0, 0), tod(9, 0, 0), "UTC")];
    assert_eq!(
        resolve_window(&closes_before_opening, &date).unwrap_err(),
        ResolveError::InvalidWindow
    );
    let closes_as_it_opens = vec![thursday_rule(tod(9, 0, 0), tod(9, 0, 0), "UTC")];
    assert_eq!(
        resolve_window(&closes_as_it_opens, &date).unwrap_err(),
        ResolveError::InvalidWindow
    );
}

#[test]
fn rule_with_unknown_zone_is_conversion_error() {
    let date = CalendarDate { year: 2025, month: 12, day: 25 };
    let rules = vec![thursday_rule(tod(9, 0, 0), tod(17, 0, 0), "Asia/Lagos")];
    assert_eq!(
        resolve_window(&rules, &date).unwrap_err(),
        ResolveError::Conversion(ConversionError::InvalidTimezone)
    );
}

#[test]
fn rule_in_dst_gap_or_overlap_is_conversion_error() {
    // 2025-11-02 is a Sunday; 01:30 occurs twice in America/New_York that
    // night, so the rule's opening cannot be resolved without guessing.
    let date = CalendarDate { year: 2025, month: 11, day: 2 };
    let rules = vec![AvailabilityRule {
        day_of_week: 0,
        open_time: tod(1, 30, 0),
        close_time: tod(9, 0, 0),
        time_zone: "America/New_York".to_string(),
    }];
    assert_eq!(
        resolve_window(&rules, &date).unwrap_err(),
        ResolveError::Conversion(ConversionError::AmbiguousOrInvalidLocalTime)
    );
}

#[test]
fn rule_before_supported_span_is_conversion_error() {
    // 1970-01-01 is a Thursday; midnight in Tokyo that day is nine hours
    // before the epoch, outside the supported span.
    let date = CalendarDate { year: 1970, month: 1, day: 1 };
    let rules = vec![thursday_rule(tod(0, 0, 0), tod(9, 0, 0), "Asia/Tokyo")];
    assert_eq!(
        resolve_window(&rules, &date).unwrap_err(),
        ResolveError::Conversion(ConversionError::UnsupportedInstant)
    );
}

#[test]
fn formats_canonical_utc() {
    let i = utc_instant(2025, 1, 1, 9, 0, 0);
    assert_eq!(format_instant_utc(&i), "2025-01-01T09:00:00Z");
    let i = utc_instant(2024, 2, 29, 23, 59, 59);
    assert_eq!(format_instant_utc(&i), "2024-02-29T23:59:59Z");
}

#[test]
fn parses_exact_time_strings() {
    assert_eq!(parse_time_of_day("09:30:00"), Some(tod(9, 30, 0)));
    assert_eq!(parse_time_of_day("23:59:59"), Some(tod(23, 59, 59)));
    assert_eq!(parse_time_of_day("00:00:00"), Some(tod(0, 0, 0)));
    assert_eq!(parse_time_of_day("24:00:00"), None);
    assert_eq!(parse_time_of_day("09:60:00"), None);
    assert_eq!(parse_time_of_day("09:00:60"), None);
    assert_eq!(parse_time_of_day("9:30:00"), None);
    assert_eq!(parse_time_of_day("09-30-00"), None);
    assert_eq!(parse_time_of_day("ab:cd:ef"), None);
    assert_eq!(parse_time_of_day(""), None);
}

#[test]
fn parses_exact_date_strings() {
    assert_eq!(
        parse_calendar_date("2025-12-25"),
        Some(CalendarDate { year: 2025, month: 12, day: 25 })
    );
    assert_eq!(
        parse_calendar_date("2024-02-29"),
        Some(CalendarDate { year: 2024, month: 2, day: 29 })
    );
    // 2025 is no leap year.
    assert_eq!(parse_calendar_date("2025-02-29"), None);
    assert_eq!(parse_calendar_date("2025-04-31"), None);
    assert_eq!(parse_calendar_date("2025-13-01"), None);
    assert_eq!(parse_calendar_date("2025-00-10"), None);
    assert_eq!(parse_calendar_date("2025-12-00"), None);
    assert_eq!(parse_calendar_date("1969-12-31"), None);
    assert_eq!(parse_calendar_date("2025/12/25"), None);
    assert_eq!(parse_calendar_date("2025-1-05"), None);
    assert_eq!(parse_calendar_date(""), None);
}

#[test]
fn builds_rule_from_wire_form() {
    let slot = DayTimeSlot {
        day_of_week: 4,
        open_time: "09:00:00".to_string(),
        close_time: "17:30:00".to_string(),
        time_zone: "Africa/Lagos".to_string(),
    };
    let rule = rule_from_day_slot(&slot).unwrap();
    assert_eq!(rule.day_of_week, 4);
    assert_eq!(rule.open_time, tod(9, 0, 0));
    assert_eq!(rule.close_time, tod(17, 30, 0));
    assert_eq!(rule.time_zone, "Africa/Lagos");

    let bad_day = DayTimeSlot { day_of_week: 7, ..rebuild(&slot) };
    assert!(rule_from_day_slot(&bad_day).is_none());
    let bad_time = DayTimeSlot {
        open_time: "25:00:00".to_string(),
        ..rebuild(&slot)
    };
    assert!(rule_from_day_slot(&bad_time).is_none());
}

#[test]
fn schedule_is_validated_whole() {
    let good = DayTimeSlot {
        day_of_week: 1,
        open_time: "09:00:00".to_string(),
        close_time: "17:00:00".to_string(),
        time_zone: "UTC".to_string(),
    };
    let rules = rules_from_set(&SetAvailability { rules: vec![rebuild(&good)] }).unwrap();
    assert_eq!(rules.len(), 1);
    assert_eq!(rules[0].day_of_week, 1);
    assert_eq!(rules[0].open_time, tod(9, 0, 0));

    // One bad entry rejects the whole schedule.
    let bad = DayTimeSlot { day_of_week: 9, ..rebuild(&good) };
    assert!(rules_from_set(&SetAvailability { rules: vec![rebuild(&good), bad] }).is_none());
    // An empty schedule is acceptable and yields no rules.
    assert_eq!(rules_from_set(&SetAvailability { rules: vec![] }).unwrap().len(), 0);
}

fn rebuild(s: &DayTimeSlot) -> DayTimeSlot {
    DayTimeSlot {
        day_of_week: s.day_of_week,
        open_time: s.open_time.clone(),
        close_time: s.close_time.clone(),
        time_zone: s.time_zone.clone(),
    }
}

#[test]
fn resolved_window_feeds_slot_generation() {
    // The full pipeline: rules on a Thursday, one existing appointment,
    // 90-minute slots.
    let rules = vec![thursday_rule(tod(9, 0, 0), tod(13, 30, 0), "UTC")];
    let date = CalendarDate { year: 2025, month: 12, day: 25 };
    let window = resolve_window(&rules, &date).unwrap();
    let blocked = vec![busy(
        utc_instant(2025, 12, 25, 10, 30, 0),
        utc_instant(2025, 12, 25, 12, 0, 0),
    )];
    let slots = generate_slots(&window, 90 * 60, &blocked);
    // Candidates: 09:00-10:30 (free), 10:30-12:00 (busy), 12:00-13:30 (free).
    assert_eq!(slots.len(), 2);
    assert_eq!(slots[0].start, utc_instant(2025, 12, 25, 9, 0, 0));
    assert_eq!(slots[1].start, utc_instant(2025, 12, 25, 12, 0, 0));
}
