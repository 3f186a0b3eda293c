use esp_hal_mbedtls::wall_clock::tm_of_reading;
use esp_hal_mbedtls::{epoch_to_tm, Tm, WallClock};

fn is_leap(year: i32) -> bool {
    year % 4 == 0 && (year % 100 != 0 || year % 400 == 0)
}

fn month_len(year: i32, month: i32) -> i32 {
    match month {
        1 if is_leap(year) => 29,
        1 => 28,
        3 | 5 | 8 | 10 => 30,
        _ => 31,
    }
}

#[test]
fn epoch_conversion_known_dates() {
    let t = epoch_to_tm(0).unwrap();
    assert_eq!(t.tm_year, 70);
    assert_eq!(t.tm_mon, 0);
    assert_eq!(t.tm_mday, 1);
    assert_eq!(t.tm_wday, 4);

    let t = epoch_to_tm(1_709_164_800).unwrap(); // 2024-02-29 00:00:00 UTC
    assert_eq!(t.tm_year, 124);
    assert_eq!(t.tm_mon, 1);
    assert_eq!(t.tm_mday, 29);
    assert_eq!(t.tm_yday, 59);
}

#[test]
fn all_fields_of_a_date() {
    // 2000-12-31 23:59:58 UTC, a Sunday at the end of a leap year.
    assert_eq!(
        epoch_to_tm(978_307_198),
        Some(Tm {
            tm_sec: 58,
            tm_min: 59,
            tm_hour: 23,
            tm_mday: 31,
            tm_mon: 11,
            tm_year: 100,
            tm_wday: 0,
            tm_yday: 365,
            tm_isdst: 0,
        })
    );
}

#[test]
fn century_that_is_no_leap_year() {
    // 2100-02-28 and 2100-03-01 are consecutive days.
    let feb = epoch_to_tm(4_107_456_000).unwrap();
    assert_eq!((feb.tm_year, feb.tm_mon, feb.tm_mday, feb.tm_yday), (200, 1, 28, 58));
    let mar = epoch_to_tm(4_107_542_400).unwrap();
    assert_eq!((mar.tm_year, mar.tm_mon, mar.tm_mday, mar.tm_yday), (200, 2, 1, 59));
}

#[test]
fn year_limit() {
    let last = epoch_to_tm(253_402_300_799).unwrap();
    assert_eq!((last.tm_year, last.tm_mon, last.tm_mday), (8099, 11, 31));
    assert_eq!((last.tm_hour, last.tm_min, last.tm_sec), (23, 59, 59));
    assert_eq!(epoch_to_tm(253_402_300_800), None);
    assert_eq!(epoch_to_tm(u64::MAX), None);
}

#[test]
fn every_day_through_9999() {
    let mut days: u64 = 0;
    for year in 1970..10_000 {
        let mut yday = 0;
        for month in 0..12 {
            for mday in 1..=month_len(year, month) {
                let t = epoch_to_tm(days * 86_400 + 3_723).unwrap();
                assert_eq!((t.tm_year, t.tm_mon, t.tm_mday), (year - 1900, month, mday));
                assert_eq!(t.tm_yday, yday);
                assert_eq!(t.tm_wday as u64, (days + 4) % 7);
                assert_eq!((t.tm_hour, t.tm_min, t.tm_sec), (1, 2, 3));
                days += 1;
                yday += 1;
            }
        }
    }
    assert_eq!(epoch_to_tm(days * 86_400), None);
}

#[test]
fn later_seconds_have_later_times() {
    let key = |t: Tm| (t.tm_year, t.tm_mon, t.tm_mday, t.tm_hour, t.tm_min, t.tm_sec);
    let mut previous = key(epoch_to_tm(0).unwrap());
    for step in 1..10_000u64 {
        let t = key(epoch_to_tm(step * 25_340_230).unwrap());
        assert!(previous < t);
        previous = t;
    }
}

#[test]
fn next_day_keeps_the_time_of_day() {
    let a = epoch_to_tm(1_709_164_800 + 12_345).unwrap();
    let b = epoch_to_tm(1_709_164_800 + 12_345 + 86_400).unwrap();
    assert_eq!((a.tm_hour, a.tm_min, a.tm_sec), (b.tm_hour, b.tm_min, b.tm_sec));
    assert_eq!(b.tm_wday, (a.tm_wday + 1) % 7);
    assert_eq!((b.tm_mon, b.tm_mday), (2, 1));
}

#[test]
fn unsynchronised_clock_shows_nothing() {
    assert_eq!(tm_of_reading(None), None);
    assert_eq!(tm_of_reading(Some(0)), epoch_to_tm(0));
    assert_eq!(tm_of_reading(Some(253_402_300_800)), None);
}

#[test]
fn wall_clock_reads_its_source() {
    fn unsynchronised() -> Option<u64> {
        None
    }
    fn synchronised() -> Option<u64> {
        Some(1_709_164_800)
    }
    let sources: [fn() -> Option<u64>; 2] = [unsynchronised, synchronised];
    assert_eq!(WallClock { now: sources[0] }.instant(), None);
    assert_eq!(WallClock { now: sources[1] }.instant(), epoch_to_tm(1_709_164_800));
}
