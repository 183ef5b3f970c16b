//! The timestamp rendering.

use std::time::{Duration, SystemTime, UNIX_EPOCH};

use ecapplog::timestamp::{civil_from_days, format_nanos, format_utc};

fn at(secs: u64, nanos: u32) -> String {
    format_utc(UNIX_EPOCH + Duration::new(secs, nanos))
}

#[test]
fn matches_the_cpp_client_fixture() {
    assert_eq!(at(1_581_761_840, 120_000_000), "2020-02-15T10:17:20.120");
}

#[test]
fn epoch() {
    assert_eq!(at(0, 0), "1970-01-01T00:00:00.000");
}

/// The server rejects anything but exactly three fractional digits, and rejects a zone suffix
/// outright.
#[test]
fn has_no_zone_suffix_and_exactly_three_fractional_digits() {
    let s = at(1_581_761_840, 120_000_000);
    assert!(!s.ends_with('Z'), "{s} must not carry a zone designator");
    assert!(!s.contains('+'), "{s} must not carry a numeric offset");
    let frac = s.split('.').nth(1).expect("a fractional part");
    assert_eq!(frac.len(), 3, "{s} must have exactly 3 fractional digits");
    assert_eq!(s.len(), 23, "{s} must be exactly 23 characters");
}

#[test]
fn sub_millisecond_precision_truncates_rather_than_rounds() {
    // 999999ns is 0.999999ms: rounding would carry into the next millisecond.
    assert_eq!(at(0, 999_999), "1970-01-01T00:00:00.000");
    assert_eq!(at(0, 1_999_999), "1970-01-01T00:00:00.001");
}

#[test]
fn leap_day() {
    // 2020-02-29T00:00:00Z
    assert_eq!(at(1_582_934_400, 0), "2020-02-29T00:00:00.000");
    // 2000-02-29 -- divisible by 400, so a leap year despite being a century.
    assert_eq!(at(951_782_400, 0), "2000-02-29T00:00:00.000");
    assert_eq!(at(1_583_020_799, 0), "2020-02-29T23:59:59.000");
    // 1900 was divisible by 4 but not by 400, so it was not a leap year: the day after
    // 1900-02-28 must be 1900-03-01. This is pre-epoch, which exercises the negative path too.
    assert_eq!(
        format_utc(UNIX_EPOCH - Duration::from_secs(2_203_977_600)),
        "1900-02-28T00:00:00.000"
    );
    assert_eq!(
        format_utc(UNIX_EPOCH - Duration::from_secs(2_203_977_600 - 86_400)),
        "1900-03-01T00:00:00.000"
    );
}

#[test]
fn end_of_year_rolls_over() {
    assert_eq!(at(1_609_459_199, 999_000_000), "2020-12-31T23:59:59.999");
    assert_eq!(at(1_609_459_200, 0), "2021-01-01T00:00:00.000");
}

/// A `SystemTime` from before 1970 must render rather than panic.
#[test]
fn pre_epoch_does_not_panic() {
    let t = UNIX_EPOCH - Duration::from_millis(500);
    assert_eq!(format_utc(t), "1969-12-31T23:59:59.500");
    let t = UNIX_EPOCH - Duration::from_secs(86_400);
    assert_eq!(format_utc(t), "1969-12-31T00:00:00.000");
}

#[test]
fn a_reading_and_its_nanoseconds_render_alike() {
    let t: SystemTime = UNIX_EPOCH + Duration::new(1_581_761_840, 120_999_999);
    assert_eq!(format_utc(t), format_nanos(1_581_761_840_120_999_999));
}

#[test]
fn one_nanosecond_before_the_epoch_is_the_last_millisecond_of_1969() {
    assert_eq!(format_nanos(-1), "1969-12-31T23:59:59.999");
}

#[test]
fn dates_before_the_year_zero_are_proleptic_gregorian() {
    // 0000-03-01 is 719468 days before the epoch, and the year 0 is a leap year.
    assert_eq!(civil_from_days(-719_468), (0, 3, 1));
    assert_eq!(civil_from_days(-719_469), (0, 2, 29));
    assert_eq!(civil_from_days(-719_470), (0, 2, 28));
    assert_eq!(civil_from_days(-719_528), (0, 1, 1));
    assert_eq!(civil_from_days(-719_529), (-1, 12, 31));
    // One era of 400 years further back.
    assert_eq!(civil_from_days(-719_468 - 146_097), (-400, 3, 1));
}

#[test]
fn days_count_up_through_the_calendar() {
    let (mut year, mut month, mut day) = civil_from_days(-800_000);
    for days in -799_999i128..800_000 {
        let next = civil_from_days(days);
        assert!((year, month, day) < next);
        (year, month, day) = next;
    }
    assert_eq!((year, month, day), (4160, 4, 28));
}

#[test]
fn years_are_widened_to_four_characters() {
    // 0099-12-31 and 10000-01-01.
    let day: i128 = 86_400_000_000_000;
    assert_eq!(format_nanos(-683_004 * day), "0099-12-31T00:00:00.000");
    assert_eq!(format_nanos(2_932_897 * day), "10000-01-01T00:00:00.000");
    assert_eq!(format_nanos(-719_529 * day), "-001-12-31T00:00:00.000");
}

#[test]
fn later_instants_render_later() {
    let instants: [i128; 6] = [
        -62_167_219_200_000_000_000,
        -1,
        0,
        999_999_999,
        1_581_761_840_120_000_000,
        253_402_300_799_999_000_000,
    ];
    for pair in instants.windows(2) {
        assert!(format_nanos(pair[0]) < format_nanos(pair[1]));
    }
    assert_eq!(format_nanos(instants[0]), "0000-01-01T00:00:00.000");
    assert_eq!(format_nanos(instants[5]), "9999-12-31T23:59:59.999");
}
