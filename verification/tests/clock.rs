//! The clock and the calendar.

use dot_price::clock::{fmt_duration, iso8601, unix_secs, unix_secs_at};
use std::time::{Duration, SystemTime};

#[test]
fn seconds_since_the_epoch() {
    assert_eq!(unix_secs_at(SystemTime::UNIX_EPOCH), 0);
    assert_eq!(
        unix_secs_at(SystemTime::UNIX_EPOCH + Duration::from_millis(1_700_000_000_999)),
        1_700_000_000
    );
}

#[test]
fn times_before_the_epoch_count_as_its_start() {
    assert_eq!(unix_secs_at(SystemTime::UNIX_EPOCH - Duration::from_secs(5)), 0);
}

#[test]
fn the_clock_runs() {
    let before = SystemTime::now().duration_since(SystemTime::UNIX_EPOCH).unwrap().as_secs();
    let now = unix_secs();
    let after = SystemTime::now().duration_since(SystemTime::UNIX_EPOCH).unwrap().as_secs();
    assert!(before <= now && now <= after);
}

#[test]
fn known_dates() {
    assert_eq!(iso8601(0), "1970-01-01T00:00:00Z");
    assert_eq!(iso8601(951_782_399), "2000-02-28T23:59:59Z");
    assert_eq!(iso8601(951_782_400), "2000-02-29T00:00:00Z");
    assert_eq!(iso8601(951_868_800), "2000-03-01T00:00:00Z");
    assert_eq!(iso8601(1_709_164_800), "2024-02-29T00:00:00Z");
    assert_eq!(iso8601(1_704_067_199), "2023-12-31T23:59:59Z");
    assert_eq!(iso8601(1_704_067_200), "2024-01-01T00:00:00Z");
    assert_eq!(iso8601(4_107_542_400), "2100-03-01T00:00:00Z");
    assert_eq!(iso8601(253_402_300_799), "9999-12-31T23:59:59Z");
    assert_eq!(iso8601(253_402_300_800), "10000-01-01T00:00:00Z");
}

#[test]
fn every_day_follows_the_one_before() {
    let mut last = iso8601(0);
    for day in 1..40_000u64 {
        let text = iso8601(day * 86_400);
        assert!(last < text, "{last} {text}");
        assert_eq!(text.len(), 20);
        last = text;
    }
    assert_eq!(last, "2079-07-07T00:00:00Z");
}

#[test]
fn texts_read_back() {
    for ts in [0, 59, 86_399, 951_782_400, 1_709_251_199, 4_107_542_399, 253_402_300_799] {
        let text = iso8601(ts);
        let part = |from: usize, to: usize| text[from..to].parse::<u64>().unwrap();
        let years = (1970..part(0, 4))
            .map(|y| if y % 4 == 0 && (y % 100 != 0 || y % 400 == 0) { 366 } else { 365 });
        let leap = part(0, 4) % 4 == 0 && (part(0, 4) % 100 != 0 || part(0, 4) % 400 == 0);
        let lengths = [31, if leap { 29 } else { 28 }, 31, 30, 31, 30, 31, 31, 30, 31, 30, 31];
        let months: u64 = lengths.iter().take(part(5, 7) as usize - 1).sum();
        let days = years.sum::<u64>() + months + part(8, 10) - 1;
        let seconds = part(11, 13) * 3_600 + part(14, 16) * 60 + part(17, 19);
        assert_eq!(days * 86_400 + seconds, ts, "{text}");
    }
}

#[test]
fn texts_are_in_the_order_of_the_times() {
    let times =
        [0, 9, 10, 59, 60, 35_999, 36_000, 86_400, 2_678_400, 946_684_799, 946_684_800, 253_402_300_799];
    for a in times {
        for b in times {
            assert_eq!(a < b, iso8601(a) < iso8601(b));
        }
    }
    assert!(iso8601(253_402_300_800) < iso8601(253_402_300_799));
}

#[test]
fn durations() {
    assert_eq!(fmt_duration(0), "0m");
    assert_eq!(fmt_duration(59), "59m");
    assert_eq!(fmt_duration(60), "1h 0m");
    assert_eq!(fmt_duration(1_439), "23h 59m");
    assert_eq!(fmt_duration(1_440), "1d 0h 0m");
    assert_eq!(fmt_duration(10_080 + 61), "7d 1h 1m");
}
