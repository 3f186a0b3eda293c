//! Unix time as broken-down UTC time, in the form in which MbedTLS takes it.

use crate::calendar;
use vstd::prelude::*;

verus! {

/// Broken-down UTC time with the fields of C's `struct tm`.
#[derive(Debug, Clone, Copy, PartialEq, Eq, Structural)]
pub struct Tm {
    /// Seconds after the minute, 0 to 59.
    pub tm_sec: i32,
    /// Minutes after the hour, 0 to 59.
    pub tm_min: i32,
    /// Hours since midnight, 0 to 23.
    pub tm_hour: i32,
    /// Day of the month, from 1.
    pub tm_mday: i32,
    /// Months since January, 0 to 11.
    pub tm_mon: i32,
    /// Years since 1900.
    pub tm_year: i32,
    /// Days since Sunday, 0 to 6.
    pub tm_wday: i32,
    /// Days since the first of January, 0 to 365.
    pub tm_yday: i32,
    /// Daylight saving time flag, 0 in UTC.
    pub tm_isdst: i32,
}

impl Tm {
    pub open spec fn year(self) -> int {
        self.tm_year + 1900
    }

    /// The number of days from 1970-01-01 to the date.
    pub open spec fn day_number(self) -> int {
        calendar::day_number(self.year(), self.tm_mon as int, self.tm_mday as int)
    }

    /// The number of seconds from 1970-01-01 00:00:00 UTC.
    pub open spec fn epoch(self) -> int {
        self.day_number() * 86_400 + self.tm_hour * 3_600 + self.tm_min * 60 + self.tm_sec
    }

    /// The date exists, in a year of four digits from 1970 on, the time of day is
    /// in range, and the day of the week and of the year are those of the date.
    /// (1970-01-01 was a Thursday, day 4 of its week.)
    pub open spec fn wf(self) -> bool {
        &&& 1970 <= self.year() <= 9999
        &&& calendar::is_date(self.year(), self.tm_mon as int, self.tm_mday as int)
        &&& 0 <= self.tm_hour < 24
        &&& 0 <= self.tm_min < 60
        &&& 0 <= self.tm_sec < 60
        &&& self.tm_wday == (self.day_number() + 4) % 7
        &&& self.tm_yday == calendar::days_before_month(self.year(), self.tm_mon as int)
            + self.tm_mday - 1
        &&& self.tm_isdst == 0
    }
}

/// The days of a common year before each month.
const CUMULATIVE: [i32; 12] = [0, 31, 59, 90, 120, 151, 181, 212, 243, 273, 304, 334];

/// The first second that has no broken-down time here: the start of the year 10000.
pub open spec fn epoch_limit() -> int {
    calendar::days_before_year(10_000) * 86_400
}

/// `tm` is `epoch`, broken down; from the year 10000 on there is none.
pub open spec fn is_tm_of(epoch: int, tm: Option<Tm>) -> bool {
    match tm {
        Some(t) => t.wf() && t.epoch() == epoch,
        None => epoch >= epoch_limit(),
    }
}

/// `tm` is what a wall clock shows whose time source read `reading`: without a
/// reading it shows nothing, so that every check of a date against it fails.
pub open spec fn is_tm_of_reading(reading: Option<u64>, tm: Option<Tm>) -> bool {
    match reading {
        Some(epoch) => is_tm_of(epoch as int, tm),
        None => tm is None,
    }
}

/// `a` is an earlier date and time of day than `b`: their fields are compared from
/// the year down to the second.
pub open spec fn is_earlier(a: Tm, b: Tm) -> bool {
    ||| a.tm_year < b.tm_year
    ||| a.tm_year == b.tm_year && a.tm_mon < b.tm_mon
    ||| a.tm_year == b.tm_year && a.tm_mon == b.tm_mon && a.tm_mday < b.tm_mday
    ||| a.tm_year == b.tm_year && a.tm_mon == b.tm_mon && a.tm_mday == b.tm_mday && (a.tm_hour
        < b.tm_hour || a.tm_hour == b.tm_hour && (a.tm_min < b.tm_min || a.tm_min == b.tm_min
        && a.tm_sec < b.tm_sec))
}

/// The days before the year `y` of a 400-year cycle whose years begin in March.
spec fn march_year_start(y: int) -> int {
    365 * y + y / 4 - y / 100
}

/// The days before the month `m` (0 is March) of a year that begins in March.
spec fn march_month_start(m: int) -> int {
    (153 * m + 2) / 5
}

/// Finds the year of a day in the 400-year cycle.
proof fn lemma_year_of_cycle(doe: int) -> (yoe: int)
    requires
        0 <= doe < 146_097,
    ensures
        yoe == (doe - doe / 1_460 + doe / 36_524 - doe / 146_096) / 365,
        0 <= yoe < 400,
        march_year_start(yoe) <= doe,
        doe < march_year_start(yoe) + 365 || (calendar::is_leap_year(yoe + 1) && doe
            == march_year_start(yoe) + 365),
{
    let century: int = if doe == 146_096 {
        3
    } else {
        doe / 36_524
    };
    let in_century: int = doe - 36_524 * century;
    let four: int = in_century / 1_461;
    let in_four: int = in_century % 1_461;
    let year: int = if in_four / 365 == 4 {
        3
    } else {
        in_four / 365
    };
    let yoe: int = 100 * century + 4 * four + year;
    assert(yoe / 4 == 25 * century + four);
    assert(yoe / 100 == century);
    assert(march_year_start(yoe) == 36_524 * century + 1_461 * four + 365 * year);
    if doe < 146_096 {
        assert(doe / 1_460 == 25 * century + four + (24 * century + four + in_four) / 1_460);
    }
    yoe
}

/// The first of March of year `400 * era + yoe`, counted from 1970-01-01.
proof fn lemma_first_of_march(era: int, yoe: int)
    requires
        0 <= yoe < 400,
    ensures
        era * 146_097 + march_year_start(yoe) - 719_468 == calendar::day_number(
            400 * era + yoe,
            2,
            1,
        ),
        calendar::is_leap_year(400 * era + yoe + 1) == calendar::is_leap_year(yoe + 1),
{
    let year: int = 400 * era + yoe;
    assert(year / 4 == 100 * era + yoe / 4);
    assert(year / 100 == 4 * era + yoe / 100);
    assert(year / 400 == era);
    assert((year + 1) % 4 == (yoe + 1) % 4);
    assert((year + 1) % 100 == (yoe + 1) % 100);
    assert((year + 1) % 400 == (yoe + 1) % 400);
    calendar::lemma_leap_years_step(year);
}

/// Finds the month and the day of the month of day `doy` of the year that begins
/// on the first of March of `march_year`.
proof fn lemma_month_of_year(march_year: int, doy: int, mp: int)
    requires
        0 <= doy < 365 || (doy == 365 && calendar::is_leap_year(march_year + 1)),
        mp == (5 * doy + 2) / 153,
    ensures
        0 <= mp < 12,
        ({
            let year: int = if mp < 10 {
                march_year
            } else {
                march_year + 1
            };
            let month: int = if mp < 10 {
                mp + 2
            } else {
                mp - 10
            };
            let mday: int = doy - march_month_start(mp) + 1;
            &&& calendar::is_date(year, month, mday)
            &&& calendar::day_number(year, month, mday) == calendar::day_number(march_year, 2, 1)
                + doy
        }),
{
    calendar::law_years_are_contiguous(march_year);
    assert(mp == 0 || mp == 1 || mp == 2 || mp == 3 || mp == 4 || mp == 5 || mp == 6 || mp == 7
        || mp == 8 || mp == 9 || mp == 10 || mp == 11);
}

/// A date in the years 1970 to 9999 is one of the days before the year 10000.
proof fn lemma_year_range(year: int, month: int, mday: int)
    requires
        calendar::is_date(year, month, mday),
        calendar::day_number(year, month, mday) >= 0,
    ensures
        1970 <= year,
        year <= 9999 <==> calendar::day_number(year, month, mday) < calendar::days_before_year(
            10_000,
        ),
{
}

/// The date `days` days after 1970-01-01: the year, the month from 1 and the day
/// of the month.
fn civil_from_days(days: i64) -> (date: (i64, i32, i32))
    requires
        0 <= days <= u64::MAX / 86_400,
    ensures
        calendar::is_date(date.0 as int, date.1 - 1, date.2 as int),
        calendar::day_number(date.0 as int, date.1 - 1, date.2 as int) == days,
{
    // Counted from 0000-03-01, in eras of 400 years whose years begin in March, so
    // that a leap day is the last day of its year.
    let z: i64 = days + 719_468;
    let era: i64 = z / 146_097;
    let doe: i64 = z % 146_097;
    proof {
        lemma_year_of_cycle(doe as int);
    }
    let yoe: i64 = (doe - doe / 1_460 + doe / 36_524 - doe / 146_096) / 365;
    let doy: i64 = doe - (365 * yoe + yoe / 4 - yoe / 100);
    let mp: i64 = (5 * doy + 2) / 153;
    proof {
        lemma_first_of_march(era as int, yoe as int);
        lemma_month_of_year(400 * era + yoe, doy as int, mp as int);
    }
    let day: i32 = (doy - (153 * mp + 2) / 5 + 1) as i32;
    let month: i32 = (if mp < 10 {
        mp + 3
    } else {
        mp - 9
    }) as i32;
    let year: i64 = yoe + era * 400 + (if month <= 2 {
        1
    } else {
        0
    });
    (year, month, day)
}

/// The hour, minute and second of a number of seconds since midnight.
proof fn lemma_break_down_seconds(secs: int)
    requires
        0 <= secs < 86_400,
    ensures
        0 <= secs / 3_600 < 24,
        0 <= secs / 60 % 60 < 60,
        0 <= secs % 60 < 60,
        secs == secs / 3_600 * 3_600 + secs / 60 % 60 * 60 + secs % 60,
{
    assert(secs / 60 / 60 == secs / 3_600);
}

/// Unix epoch seconds to broken-down UTC time; `None` from the year 10000 on.
pub fn epoch_to_tm(epoch: u64) -> (tm: Option<Tm>)
    ensures
        tm is Some <==> epoch < epoch_limit(),
        tm is Some <==> epoch < 253_402_300_800,
        is_tm_of(epoch as int, tm),
        tm matches Some(t) ==> t.wf() && t.epoch() == epoch,
{
    let days: i64 = (epoch / 86_400) as i64;
    let secs: i32 = (epoch % 86_400) as i32;
    let (year, month, day): (i64, i32, i32) = civil_from_days(days);
    proof {
        lemma_year_range(year as int, month - 1, day as int);
        lemma_break_down_seconds(secs as int);
    }
    if year < 1970 || year > 9999 {
        return None;
    }
    let is_leap: bool = year % 4 == 0 && (year % 100 != 0 || year % 400 == 0);
    let yday: i32 = CUMULATIVE[(month - 1) as usize] + day - 1 + (if is_leap && month > 2 {
        1
    } else {
        0
    });
    Some(
        Tm {
            tm_sec: secs % 60,
            tm_min: secs / 60 % 60,
            tm_hour: secs / 3_600,
            tm_mday: day,
            tm_mon: month - 1,
            tm_year: (year - 1900) as i32,
            tm_wday: ((days + 4) % 7) as i32,
            tm_yday: yday,
            tm_isdst: 0,
        },
    )
}

/// What a wall clock shows whose time source read `reading`.
pub fn tm_of_reading(reading: Option<u64>) -> (tm: Option<Tm>)
    ensures
        is_tm_of_reading(reading, tm),
        tm is Some <==> reading is Some && reading->0 < epoch_limit(),
        tm is Some <==> reading is Some && reading->0 < 253_402_300_800,
        tm matches Some(t) ==> t.wf() && t.epoch() == reading->0,
{
    match reading {
        Some(epoch) => epoch_to_tm(epoch),
        None => None,
    }
}

/// A wall clock over a source of Unix epoch seconds. The source may return `None`
/// until the application has synchronised its time.
pub struct WallClock<F> {
    pub now: F,
}

impl<F: Fn() -> Option<u64>> WallClock<F> {
    /// Reads the source once and breaks its reading down.
    pub fn instant(&self) -> (tm: Option<Tm>)
        requires
            call_requires(self.now, ()),
        ensures
            exists|reading: Option<u64>| #[trigger]
                call_ensures(self.now, (), reading) && is_tm_of_reading(reading, tm) && (tm is Some
                    <==> reading is Some && reading->0 < 253_402_300_800) && (tm matches Some(t)
                    ==> t.wf() && t.epoch() == reading->0),
    {
        let reading: Option<u64> = (self.now)();
        tm_of_reading(reading)
    }
}

/// A time of day is less than a day.
proof fn lemma_time_of_day(hour: int, min: int, sec: int)
    requires
        0 <= hour < 24,
        0 <= min < 60,
        0 <= sec < 60,
    ensures
        0 <= hour * 3_600 + min * 60 + sec < 86_400,
{
}

/// Times of day are ordered by hour, minute and second.
proof fn lemma_time_of_day_order(h1: int, m1: int, s1: int, h2: int, m2: int, s2: int)
    requires
        0 <= m1 < 60,
        0 <= s1 < 60,
        0 <= m2 < 60,
        0 <= s2 < 60,
    ensures
        h1 * 3_600 + m1 * 60 + s1 < h2 * 3_600 + m2 * 60 + s2 <==> h1 < h2 || h1 == h2 && (m1 < m2
            || m1 == m2 && s1 < s2),
{
}

/// Dates are ordered by year, month and day of the month.
proof fn lemma_date_order(y1: int, m1: int, d1: int, y2: int, m2: int, d2: int)
    requires
        calendar::is_date(y1, m1, d1),
        calendar::is_date(y2, m2, d2),
        y1 < y2 || y1 == y2 && (m1 < m2 || m1 == m2 && d1 < d2),
    ensures
        calendar::day_number(y1, m1, d1) < calendar::day_number(y2, m2, d2),
{
    if y1 < y2 {
        calendar::law_years_are_contiguous(y1);
        calendar::law_months_are_contiguous(y1, m1);
        lemma_days_before_year_grow(y1 + 1, y2);
        assert(calendar::days_before_month(y1, m1 + 1) <= calendar::days_in_year(y1));
    } else if m1 < m2 {
        calendar::law_months_are_contiguous(y1, m1);
        assert(calendar::days_before_month(y1, m1 + 1) <= calendar::days_before_month(y1, m2));
    }
}

/// Later years begin later.
proof fn lemma_days_before_year_grow(y1: int, y2: int)
    requires
        y1 <= y2,
    ensures
        calendar::days_before_year(y1) <= calendar::days_before_year(y2),
    decreases y2 - y1,
{
    if y1 < y2 {
        calendar::law_years_are_contiguous(y2 - 1);
        lemma_days_before_year_grow(y1, y2 - 1);
    }
}

/// The last second with a broken-down time is 9999-12-31 23:59:59 UTC.
pub proof fn law_epoch_limit()
    ensures
        epoch_limit() == 253_402_300_800,
{
}

/// Later seconds have later broken-down times, and the other way round.
pub proof fn law_tm_order(a: Tm, b: Tm)
    requires
        a.wf(),
        b.wf(),
    ensures
        a.epoch() < b.epoch() <==> is_earlier(a, b),
{
    let (y1, m1, d1): (int, int, int) = (a.year(), a.tm_mon as int, a.tm_mday as int);
    let (y2, m2, d2): (int, int, int) = (b.year(), b.tm_mon as int, b.tm_mday as int);
    lemma_time_of_day(a.tm_hour as int, a.tm_min as int, a.tm_sec as int);
    lemma_time_of_day(b.tm_hour as int, b.tm_min as int, b.tm_sec as int);
    if (y1, m1, d1) == (y2, m2, d2) {
        lemma_time_of_day_order(
            a.tm_hour as int,
            a.tm_min as int,
            a.tm_sec as int,
            b.tm_hour as int,
            b.tm_min as int,
            b.tm_sec as int,
        );
    } else if y1 < y2 || y1 == y2 && (m1 < m2 || m1 == m2 && d1 < d2) {
        lemma_date_order(y1, m1, d1, y2, m2, d2);
    } else {
        lemma_date_order(y2, m2, d2, y1, m1, d1);
    }
}

/// No second has two broken-down times.
pub proof fn law_tm_is_unique(epoch: int, a: Option<Tm>, b: Option<Tm>)
    requires
        is_tm_of(epoch, a),
        is_tm_of(epoch, b),
    ensures
        a == b,
{
    if a is Some {
        lemma_tm_in_range(a->0);
    }
    if b is Some {
        lemma_tm_in_range(b->0);
    }
    if a is Some && b is Some {
        law_tm_order(a->0, b->0);
        law_tm_order(b->0, a->0);
    }
}

/// A broken-down time lies between 1970 and the year 10000.
proof fn lemma_tm_in_range(t: Tm)
    requires
        t.wf(),
    ensures
        0 <= t.epoch() < epoch_limit(),
{
    lemma_time_of_day(t.tm_hour as int, t.tm_min as int, t.tm_sec as int);
    lemma_days_before_year_grow(1970, t.year());
    calendar::law_years_are_contiguous(1970);
    lemma_year_range(t.year(), t.tm_mon as int, t.tm_mday as int);
}

/// Every broken-down time is that of a second which `epoch_to_tm` takes and does
/// not refuse, so converting that second gives the broken-down time back.
pub proof fn law_tm_round_trip(t: Tm)
    requires
        t.wf(),
    ensures
        0 <= t.epoch() < epoch_limit() <= u64::MAX,
        forall|tm: Option<Tm>| #[trigger] is_tm_of(t.epoch(), tm) ==> tm == Some(t),
{
    lemma_tm_in_range(t);
    law_epoch_limit();
    assert forall|tm: Option<Tm>| #[trigger] is_tm_of(t.epoch(), tm) implies tm == Some(t) by {
        law_tm_is_unique(t.epoch(), tm, Some(t));
    }
}

/// A day on, the time of day is the same and the day of the week the next one.
pub proof fn law_next_day(a: Tm, b: Tm)
    requires
        a.wf(),
        b.wf(),
        b.epoch() == a.epoch() + 86_400,
    ensures
        (b.tm_hour, b.tm_min, b.tm_sec) == (a.tm_hour, a.tm_min, a.tm_sec),
        b.tm_wday == (a.tm_wday + 1) % 7,
{
    lemma_next_day(
        a.day_number(),
        a.tm_hour as int,
        a.tm_min as int,
        a.tm_sec as int,
        b.day_number(),
        b.tm_hour as int,
        b.tm_min as int,
        b.tm_sec as int,
    );
}

/// The day and the time of day that make up a number of seconds are unique.
proof fn lemma_next_day(
    d1: int,
    h1: int,
    m1: int,
    s1: int,
    d2: int,
    h2: int,
    m2: int,
    s2: int,
)
    requires
        0 <= h1 < 24,
        0 <= m1 < 60,
        0 <= s1 < 60,
        0 <= h2 < 24,
        0 <= m2 < 60,
        0 <= s2 < 60,
        d2 * 86_400 + h2 * 3_600 + m2 * 60 + s2 == d1 * 86_400 + h1 * 3_600 + m1 * 60 + s1 + 86_400,
    ensures
        d2 == d1 + 1,
        (h2, m2, s2) == (h1, m1, s1),
        (d2 + 4) % 7 == ((d1 + 4) % 7 + 1) % 7,
{
    lemma_time_of_day(h1, m1, s1);
    lemma_time_of_day(h2, m2, s2);
    assert(d2 == d1 + 1);
    lemma_time_of_day_order(h1, m1, s1, h2, m2, s2);
    lemma_time_of_day_order(h2, m2, s2, h1, m1, s1);
}

/// A wall clock shows the second that its source read: the broken-down time is well
/// formed and is that of the reading itself, the same that converting the reading
/// gives. It shows nothing if and only if there is no reading or it is not before the
/// year 10000.
pub proof fn law_clock_shows_its_reading(
    reading: Option<u64>,
    shown: Option<Tm>,
    converted: Option<Tm>,
)
    requires
        is_tm_of_reading(reading, shown),
        reading is Some ==> is_tm_of(reading->0 as int, converted),
    ensures
        shown is None <==> reading is None || reading->0 >= 253_402_300_800,
        shown matches Some(t) ==> t.wf() && t.epoch() == reading->0,
        reading is Some ==> shown == converted,
{
    law_epoch_limit();
    if reading is Some {
        law_tm_is_unique(reading->0 as int, shown, converted);
        if shown is Some {
            lemma_tm_in_range(shown->0);
        }
    }
}

/// Exactly the seconds before the year 10000 have a broken-down time.
pub proof fn law_tm_exists(epoch: int, tm: Option<Tm>)
    requires
        is_tm_of(epoch, tm),
    ensures
        tm is None <==> epoch >= 253_402_300_800,
        tm matches Some(t) ==> t.wf() && t.epoch() == epoch,
{
    law_epoch_limit();
    if tm is Some {
        lemma_tm_in_range(tm->0);
    }
}

/// Time starts on Thursday 1970-01-01 at 00:00:00, and within a day it goes on second
/// by second, with 60 seconds to the minute, 60 minutes to the hour and 24 hours to the
/// day; only the field that is counted changes, and those below it begin again. With
/// [`law_next_midnight`] this says what every second is, counted from the first one.
pub proof fn law_next_second(epoch: int, a: Tm, b: Tm)
    requires
        is_tm_of(epoch, Some(a)),
        is_tm_of(epoch + 1, Some(b)),
    ensures
        epoch == 0 ==> a == (Tm {
            tm_sec: 0,
            tm_min: 0,
            tm_hour: 0,
            tm_mday: 1,
            tm_mon: 0,
            tm_year: 70,
            tm_wday: 4,
            tm_yday: 0,
            tm_isdst: 0,
        }),
        epoch >= 0,
        0 <= a.tm_sec <= 59,
        0 <= a.tm_min <= 59,
        0 <= a.tm_hour <= 23,
        a.tm_sec < 59 ==> b == (Tm { tm_sec: (a.tm_sec + 1) as i32, ..a }),
        a.tm_sec == 59 && a.tm_min < 59 ==> b == (Tm {
            tm_sec: 0,
            tm_min: (a.tm_min + 1) as i32,
            ..a
        }),
        a.tm_sec == 59 && a.tm_min == 59 && a.tm_hour < 23 ==> b == (Tm {
            tm_sec: 0,
            tm_min: 0,
            tm_hour: (a.tm_hour + 1) as i32,
            ..a
        }),
        a.tm_sec == 59 && a.tm_min == 59 && a.tm_hour == 23 ==> b.tm_sec == 0 && b.tm_min == 0
            && b.tm_hour == 0,
{
    lemma_tm_in_range(a);
    if epoch == 0 {
        let first: Tm = Tm {
            tm_sec: 0,
            tm_min: 0,
            tm_hour: 0,
            tm_mday: 1,
            tm_mon: 0,
            tm_year: 70,
            tm_wday: 4,
            tm_yday: 0,
            tm_isdst: 0,
        };
        assert(first.wf() && first.epoch() == 0);
        law_tm_is_unique(0, Some(a), Some(first));
    }
    if a.tm_sec < 59 {
        let next: Tm = Tm { tm_sec: (a.tm_sec + 1) as i32, ..a };
        assert(next.day_number() == a.day_number());
        law_tm_is_unique(epoch + 1, Some(b), Some(next));
    } else if a.tm_min < 59 {
        let next: Tm = Tm { tm_sec: 0, tm_min: (a.tm_min + 1) as i32, ..a };
        assert(next.day_number() == a.day_number());
        law_tm_is_unique(epoch + 1, Some(b), Some(next));
    } else if a.tm_hour < 23 {
        let next: Tm = Tm { tm_sec: 0, tm_min: 0, tm_hour: (a.tm_hour + 1) as i32, ..a };
        assert(next.day_number() == a.day_number());
        law_tm_is_unique(epoch + 1, Some(b), Some(next));
    } else {
        lemma_midnight(
            a.day_number(),
            b.day_number(),
            b.tm_hour as int,
            b.tm_min as int,
            b.tm_sec as int,
        );
    }
}

/// The second after the last one of a day is the first one of the next day.
proof fn lemma_midnight(d1: int, d2: int, h2: int, m2: int, s2: int)
    requires
        0 <= h2 < 24,
        0 <= m2 < 60,
        0 <= s2 < 60,
        d2 * 86_400 + h2 * 3_600 + m2 * 60 + s2 == d1 * 86_400 + 86_400,
    ensures
        d2 == d1 + 1,
        h2 == 0,
        m2 == 0,
        s2 == 0,
{
    lemma_time_of_day(h2, m2, s2);
    assert(d2 == d1 + 1);
}

/// After the last second of a day comes the next day: the next one of the month, or
/// the first of the next month after its last day, or the first of January after the
/// 31st of December. April, June, September and November have 30 days, February has
/// 29 in the years divisible by 4, except for centuries not divisible by 400, and 28
/// in the others, and the rest have 31. The days of the week follow each other around
/// the week, and the days of the year up to its end.
#[verifier::rlimit(40)]
pub proof fn law_next_midnight(epoch: int, a: Tm, b: Tm)
    requires
        is_tm_of(epoch, Some(a)),
        is_tm_of(epoch + 1, Some(b)),
        a.tm_sec == 59,
        a.tm_min == 59,
        a.tm_hour == 23,
    ensures
        b.tm_wday == (a.tm_wday + 1) % 7,
        b.tm_isdst == a.tm_isdst,
        ({
            let year: int = a.tm_year + 1900;
            let last: int = if a.tm_mon == 1 {
                if year % 4 == 0 && (year % 100 != 0 || year % 400 == 0) {
                    29
                } else {
                    28
                }
            } else if a.tm_mon == 3 || a.tm_mon == 5 || a.tm_mon == 8 || a.tm_mon == 10 {
                30
            } else {
                31
            };
            let next: (int, int, int, int) = if a.tm_mday < last {
                (a.tm_year as int, a.tm_mon as int, a.tm_mday + 1, a.tm_yday + 1)
            } else if a.tm_mon < 11 {
                (a.tm_year as int, a.tm_mon + 1, 1, a.tm_yday + 1)
            } else {
                (a.tm_year + 1, 0, 1, 0)
            };
            &&& b.tm_year == next.0
            &&& b.tm_mon == next.1
            &&& b.tm_mday == next.2
            &&& b.tm_yday == next.3
        }),
{
    lemma_midnight(
        a.day_number(),
        b.day_number(),
        b.tm_hour as int,
        b.tm_min as int,
        b.tm_sec as int,
    );
    lemma_tm_in_range(b);
    law_epoch_limit();
    let year: int = a.year();
    let mon: int = a.tm_mon as int;
    let mday: int = a.tm_mday as int;
    calendar::law_months_are_contiguous(year, mon);
    calendar::law_years_are_contiguous(year);
    if mday < calendar::days_in_month(year, mon) {
        lemma_same_date(year, mon, mday + 1, b.year(), b.tm_mon as int, b.tm_mday as int);
    } else if mon < 11 {
        lemma_same_date(year, mon + 1, 1, b.year(), b.tm_mon as int, b.tm_mday as int);
    } else {
        lemma_same_date(year + 1, 0, 1, b.year(), b.tm_mon as int, b.tm_mday as int);
    }
}

/// A day has one date.
proof fn lemma_same_date(y1: int, m1: int, d1: int, y2: int, m2: int, d2: int)
    requires
        calendar::is_date(y1, m1, d1),
        calendar::is_date(y2, m2, d2),
        calendar::day_number(y1, m1, d1) == calendar::day_number(y2, m2, d2),
    ensures
        (y1, m1, d1) == (y2, m2, d2),
{
    if y1 < y2 || y1 == y2 && (m1 < m2 || m1 == m2 && d1 < d2) {
        lemma_date_order(y1, m1, d1, y2, m2, d2);
    } else if (y1, m1, d1) != (y2, m2, d2) {
        lemma_date_order(y2, m2, d2, y1, m1, d1);
    }
}

} // verus!
