use picolog::timestamp::{is_leap_year, Timestamp};
use time::OffsetDateTime;

fn check_against_reference(u: u64) {
    let a = Timestamp::from_unix(u);
    let b = OffsetDateTime::from_unix_timestamp(u as i64).unwrap();

    assert_eq!(a.year, b.year() as u64);
    assert_eq!(a.month, b.month() as u16);
    assert_eq!(a.day, b.day() as u16);
    assert_eq!(a.hours, b.hour());
    assert_eq!(a.minutes, b.minute());
    assert_eq!(a.seconds, b.second());
}

#[test]
fn test() {
    let upper_bound: u64 = 2000000000; // May 18 2033 03:33:20 UTC+0

    // Every instant of the first days of the range, exhaustively.
    for u in 0..400_000u64 {
        check_against_reference(u);
    }

    // Every day up to the bound, at its first second, at noon, and at its
    // last second: every date the exhaustive range would visit is visited.
    let mut day_start: u64 = 0;
    while day_start < upper_bound {
        check_against_reference(day_start);
        check_against_reference(day_start + 43_200);
        check_against_reference(day_start + 86_399);
        day_start += 86_400;
    }
}

#[test]
fn leap_years() {
    assert!(is_leap_year(2000));
    assert!(!is_leap_year(1900));
    assert!(is_leap_year(2004));
    assert!(!is_leap_year(2001));
}

#[test]
fn boundary_instants() {
    let epoch = Timestamp::from_unix(0);
    assert_eq!(epoch.year, 1970);
    assert_eq!(epoch.month, 1);
    assert_eq!(epoch.day, 1);
    assert_eq!(epoch.hours, 0);
    assert_eq!(epoch.minutes, 0);
    assert_eq!(epoch.seconds, 0);

    let day_end = Timestamp::from_unix(86_399);
    assert_eq!(day_end.year, 1970);
    assert_eq!(day_end.month, 1);
    assert_eq!(day_end.day, 1);
    assert_eq!(day_end.hours, 23);
    assert_eq!(day_end.minutes, 59);
    assert_eq!(day_end.seconds, 59);

    let next_day = Timestamp::from_unix(86_400);
    assert_eq!(next_day.year, 1970);
    assert_eq!(next_day.month, 1);
    assert_eq!(next_day.day, 2);
    assert_eq!(next_day.hours, 0);
    assert_eq!(next_day.minutes, 0);
    assert_eq!(next_day.seconds, 0);
}

#[test]
fn render_epoch() {
    let ts = Timestamp::from_unix(0);
    assert_eq!(ts.render(), "1970-01-01 00:00:00");
}

#[test]
fn render_far_future() {
    // 2100-01-01T00:00:00Z: past the first skipped leap year after 2000.
    let ts = Timestamp::from_unix(4_102_444_800);
    assert_eq!(ts.render(), "2100-01-01 00:00:00");
    check_against_reference(4_102_444_800);
    check_against_reference(4_102_444_800 - 1);
}

#[test]
fn rendered_order_follows_instants() {
    let samples: [u64; 8] = [0, 1, 59, 86_399, 86_400, 951_866_999, 951_867_000, 1_999_999_999];
    for i in 0..samples.len() {
        for j in 0..samples.len() {
            let a = Timestamp::from_unix(samples[i]).render();
            let b = Timestamp::from_unix(samples[j]).render();
            if samples[i] <= samples[j] {
                assert!(a <= b);
            }
        }
    }
}

#[test]
fn now_is_well_formed() {
    let ts = Timestamp::new();
    assert!(ts.year >= 1970);
    assert!(ts.month >= 1 && ts.month <= 12);
    assert!(ts.day >= 1 && ts.day <= 31);
    assert!(ts.hours < 24 && ts.minutes < 60 && ts.seconds < 60);
}
