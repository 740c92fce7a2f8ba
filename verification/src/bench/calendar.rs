//! Time stamps of a run in UTC, by the Gregorian calendar.
use vstd::prelude::*;

use crate::text;
use crate::text::push_padded;

verus! {

/// Whether a year has 366 days.
pub open spec fn is_leap(y: int) -> bool {
    (y % 4 == 0 && y % 100 != 0) || y % 400 == 0
}

pub open spec fn days_in_year(y: int) -> int {
    if is_leap(y) {
        366
    } else {
        365
    }
}

pub open spec fn days_in_month(y: int, m: int) -> int {
    if m == 2 {
        if is_leap(y) {
            29
        } else {
            28
        }
    } else if m == 4 || m == 6 || m == 9 || m == 11 {
        30
    } else {
        31
    }
}

/// The days from the first of January 1970 to that of year `y`.
pub open spec fn days_before_year(y: int) -> int
    decreases y - 1970,
{
    if y <= 1970 {
        0
    } else {
        days_before_year(y - 1) + days_in_year(y - 1)
    }
}

/// The days of year `y` before month `m`.
pub open spec fn days_before_month(y: int, m: int) -> int
    decreases m,
{
    if m <= 1 {
        0
    } else {
        days_before_month(y, m - 1) + days_in_month(y, m - 1)
    }
}

/// A day and a time of day.
#[derive(Debug, Clone, Copy, PartialEq, Eq, Structural)]
pub struct CivilTime {
    pub year: i64,
    pub month: u32,
    pub day: u32,
    pub hour: u32,
    pub minute: u32,
    pub second: u32,
}

/// Whether the parts name a day that the calendar has, from 1970 on, and a time
/// of day.
pub open spec fn is_civil(t: CivilTime) -> bool {
    &&& t.year >= 1970
    &&& 1 <= t.month <= 12
    &&& 1 <= t.day <= days_in_month(t.year as int, t.month as int)
    &&& t.hour < 24
    &&& t.minute < 60
    &&& t.second < 60
}

/// The days from the first of January 1970 to the day.
pub open spec fn day_number(t: CivilTime) -> int {
    days_before_year(t.year as int) + days_before_month(t.year as int, t.month as int) + t.day - 1
}

/// The seconds from the start of 1970 to the time.
pub open spec fn epoch_seconds(t: CivilTime) -> int {
    day_number(t) * 86_400 + t.hour * 3600 + t.minute * 60 + t.second
}

fn leap(y: i64) -> (r: bool)
    requires
        y >= 1970,
    ensures
        r == is_leap(y as int),
{
    (y % 4 == 0 && y % 100 != 0) || y % 400 == 0
}

fn month_length(y: i64, m: u32) -> (r: i64)
    requires
        y >= 1970,
    ensures
        r == days_in_month(y as int, m as int),
{
    if m == 2 {
        if leap(y) {
            29
        } else {
            28
        }
    } else if m == 4 || m == 6 || m == 9 || m == 11 {
        30
    } else {
        31
    }
}

/// The months of a year take up its days.
proof fn lemma_year_has_its_days(y: int)
    ensures
        days_before_month(y, 13) == days_in_year(y),
{
    reveal_with_fuel(days_before_month, 13);
}

proof fn lemma_months_before_are_fewer(y: int, m: int, n: int)
    requires
        m <= n,
    ensures
        days_before_month(y, m) <= days_before_month(y, n),
    decreases n - m,
{
    if m < n {
        lemma_months_before_are_fewer(y, m, n - 1);
    }
}

proof fn lemma_years_before_are_fewer(y: int, z: int)
    requires
        y < z,
        y >= 1970,
    ensures
        days_before_year(y) + days_in_year(y) <= days_before_year(z),
    decreases z - y,
{
    if y + 1 < z {
        lemma_years_before_are_fewer(y, z - 1);
    }
}

/// The days and the seconds of the day, counted from the start of 1970.
fn split_day(secs: i64) -> (r: (i64, i64))
    ensures
        r.0 == secs / 86_400,
        r.1 == secs % 86_400,
{
    if secs >= 0 {
        (secs / 86_400, secs % 86_400)
    } else {
        let back: i64 = -(secs + 1);
        (-(back / 86_400) - 1, 86_399 - back % 86_400)
    }
}

/// The year that holds a day, and the days of the year before it.
fn year_of(days: i64) -> (r: (i64, i64))
    requires
        0 <= days <= 200_000_000_000_000,
    ensures
        r.0 >= 1970,
        0 <= r.1 < days_in_year(r.0 as int),
        days_before_year(r.0 as int) + r.1 == days,
{
    let mut rest: i64 = days;
    let mut year: i64 = 1970;
    loop
        invariant
            days <= 200_000_000_000_000,
            1970 <= year <= 1970 + days - rest,
            0 <= rest <= days,
            days_before_year(year as int) + rest == days,
        ensures
            rest < days_in_year(year as int),
        decreases rest,
    {
        let length: i64 = if leap(year) {
            366
        } else {
            365
        };
        if rest >= length {
            rest = rest - length;
            year = year + 1;
        } else {
            break;
        }
    }
    (year, rest)
}

/// The month that holds a day of a year, and the days of the month before it.
fn month_of(year: i64, days: i64) -> (r: (u32, i64))
    requires
        year >= 1970,
        0 <= days < days_in_year(year as int),
    ensures
        1 <= r.0 <= 12,
        0 <= r.1 < days_in_month(year as int, r.0 as int),
        days_before_month(year as int, r.0 as int) + r.1 == days,
{
    let mut month: u32 = 1;
    let mut rest: i64 = days;
    loop
        invariant
            year >= 1970,
            1 <= month <= 12,
            0 <= rest,
            days < days_in_year(year as int),
            days_before_month(year as int, month as int) + rest == days,
        ensures
            rest < days_in_month(year as int, month as int),
        decreases 13 - month,
    {
        let length: i64 = month_length(year, month);
        if rest >= length {
            proof {
                lemma_year_has_its_days(year as int);
            }
            rest = rest - length;
            month = month + 1;
        } else {
            break;
        }
    }
    (month, rest)
}

/// The day and the time of day at `secs` seconds after the start of 1970. The
/// calendar is not followed back before that: a negative `secs` stays in January
/// 1970, under a day that has wrapped round.
pub fn epoch_parts(secs: i64) -> (r: CivilTime)
    ensures
        secs >= 0 ==> is_civil(r) && epoch_seconds(r) == secs,
        secs < 0 ==> r.year == 1970 && r.month == 1 && r.day == (secs / 86_400 + 1) as u32,
        r.hour == (secs % 86_400) / 3600,
        r.minute == (secs % 3600) / 60,
        r.second == secs % 60,
{
    let (days, of_day) = split_day(secs);
    let hour: u32 = (of_day / 3600) as u32;
    let minute: u32 = ((of_day % 3600) / 60) as u32;
    let second: u32 = (of_day % 60) as u32;
    assert(of_day % 3600 == secs % 3600);
    assert(of_day % 60 == secs % 60);
    if days < 0 {
        let day: u32 = #[verifier::truncate]
        ((days + 1) as u32);
        return CivilTime { year: 1970, month: 1, day, hour, minute, second };
    }
    let (year, of_year) = year_of(days);
    let (month, of_month) = month_of(year, of_year);
    CivilTime { year, month, day: (of_month + 1) as u32, hour, minute, second }
}

/// The text of a time stamp, as `2026-05-13T15:30:00Z`.
pub open spec fn iso_text(t: CivilTime) -> Seq<char> {
    text::padded(t.year as nat, 4) + "-"@ + text::padded(t.month as nat, 2) + "-"@ + text::padded(
        t.day as nat,
        2,
    ) + "T"@ + text::padded(t.hour as nat, 2) + ":"@ + text::padded(t.minute as nat, 2) + ":"@
        + text::padded(t.second as nat, 2) + "Z"@
}

/// The name of a run, as `2026-05-13T1530-slug`.
pub open spec fn slug_text(t: CivilTime, slug: Seq<char>) -> Seq<char> {
    text::padded(t.year as nat, 4) + "-"@ + text::padded(t.month as nat, 2) + "-"@ + text::padded(
        t.day as nat,
        2,
    ) + "T"@ + text::padded(t.hour as nat, 2) + text::padded(t.minute as nat, 2) + "-"@ + slug
}

/// The civil time at `secs` seconds after the start of 1970.
pub open spec fn civil_at(secs: int) -> CivilTime {
    choose|t: CivilTime| is_civil(t) && #[trigger] epoch_seconds(t) == secs
}

/// A time of day and a day are told apart by their seconds: two civil times at
/// the same second are the same.
pub proof fn law_civil_time_is_unique(a: CivilTime, b: CivilTime)
    requires
        is_civil(a),
        is_civil(b),
        epoch_seconds(a) == epoch_seconds(b),
    ensures
        a == b,
{
    assert(day_number(a) == day_number(b));
    lemma_year_has_its_days(a.year as int);
    lemma_year_has_its_days(b.year as int);
    lemma_months_before_are_fewer(a.year as int, a.month + 1, 13);
    lemma_months_before_are_fewer(b.year as int, b.month + 1, 13);
    lemma_months_before_are_fewer(a.year as int, 1, a.month as int);
    lemma_months_before_are_fewer(b.year as int, 1, b.month as int);
    if a.year < b.year {
        lemma_years_before_are_fewer(a.year as int, b.year as int);
    } else if b.year < a.year {
        lemma_years_before_are_fewer(b.year as int, a.year as int);
    }
    assert(a.year == b.year);
    if a.month < b.month {
        lemma_months_before_are_fewer(a.year as int, a.month + 1, b.month as int);
    } else if b.month < a.month {
        lemma_months_before_are_fewer(a.year as int, b.month + 1, a.month as int);
    }
    assert(a.month == b.month && a.day == b.day);
    let sa = a.hour * 3600 + a.minute * 60 + a.second;
    let sb = b.hour * 3600 + b.minute * 60 + b.second;
    assert(sa == sb);
}

fn push_date(out: &mut String, t: &CivilTime)
    requires
        t.year >= 0,
    ensures
        final(out)@ == old(out)@ + text::padded(t.year as nat, 4) + "-"@ + text::padded(
            t.month as nat,
            2,
        ) + "-"@ + text::padded(t.day as nat, 2) + "T"@ + text::padded(t.hour as nat, 2),
{
    push_padded(out, t.year as u64, 4);
    out.append("-");
    push_padded(out, t.month as u64, 2);
    out.append("-");
    push_padded(out, t.day as u64, 2);
    out.append("T");
    push_padded(out, t.hour as u64, 2);
}

/// The time stamp of a time in milliseconds after the start of 1970.
pub fn utc_iso(unix_ms: u64) -> (r: String)
    ensures
        r@ == iso_text(civil_at((unix_ms / 1000) as int)),
{
    let t: CivilTime = epoch_parts((unix_ms / 1000) as i64);
    proof {
        law_civil_time_is_unique(t, civil_at((unix_ms / 1000) as int));
    }
    let mut out = String::new();
    push_date(&mut out, &t);
    out.append(":");
    push_padded(&mut out, t.minute as u64, 2);
    out.append(":");
    push_padded(&mut out, t.second as u64, 2);
    out.append("Z");
    assert(out@ =~= iso_text(t));
    out
}

/// The name of a run: when it started, to the minute, and what it is about.
pub fn run_id_slug(unix_ms: u64, slug: &str) -> (r: String)
    ensures
        r@ == slug_text(civil_at((unix_ms / 1000) as int), slug@),
{
    let t: CivilTime = epoch_parts((unix_ms / 1000) as i64);
    proof {
        law_civil_time_is_unique(t, civil_at((unix_ms / 1000) as int));
    }
    let mut out = String::new();
    push_date(&mut out, &t);
    push_padded(&mut out, t.minute as u64, 2);
    out.append("-");
    out.append(slug);
    assert(out@ =~= slug_text(t, slug@));
    out
}

/// Whether a day is the last of its month. February has a day more in every fourth
/// year, but for the hundredth ones that are not four-hundredth.
pub open spec fn is_last_day(year: int, month: int, day: int) -> bool {
    if month == 1 || month == 3 || month == 5 || month == 7 || month == 8 || month == 10 || month
        == 12 {
        day == 31
    } else if month != 2 {
        day == 30
    } else if year % 400 == 0 || (year % 4 == 0 && year % 100 != 0) {
        day == 29
    } else {
        day == 28
    }
}

/// The day after a day.
pub open spec fn day_after(t: CivilTime) -> (int, int, int) {
    if !is_last_day(t.year as int, t.month as int, t.day as int) {
        (t.year as int, t.month as int, t.day + 1)
    } else if t.month < 12 {
        (t.year as int, t.month + 1, 1)
    } else {
        (t.year + 1, 1, 1)
    }
}

/// The calendar starts with the year 1970 and goes on second by second: the clock shows
/// one second more, and after the last second of a day it starts again on the day
/// after.
pub proof fn law_clock_ticks(secs: i64, t: CivilTime, u: CivilTime, start: CivilTime)
    requires
        0 <= secs < i64::MAX,
        call_ensures(epoch_parts, (0i64,), start),
        call_ensures(epoch_parts, (secs,), t),
        call_ensures(epoch_parts, ((secs + 1) as i64,), u),
    ensures
        start == (CivilTime { year: 1970, month: 1, day: 1, hour: 0, minute: 0, second: 0 }),
        t.hour < 24 && t.minute < 60 && t.second < 60,
        t.second < 59 ==> u == (CivilTime { second: (t.second + 1) as u32, ..t }),
        t.second == 59 && t.minute < 59 ==> u == (CivilTime {
            minute: (t.minute + 1) as u32,
            second: 0,
            ..t
        }),
        t.second == 59 && t.minute == 59 && t.hour < 23 ==> u == (CivilTime {
            hour: (t.hour + 1) as u32,
            minute: 0,
            second: 0,
            ..t
        }),
        t.second == 59 && t.minute == 59 && t.hour == 23 ==> {
            &&& (u.year as int, u.month as int, u.day as int) == day_after(t)
            &&& u.hour == 0 && u.minute == 0 && u.second == 0
        },
{
    let first = CivilTime { year: 1970, month: 1, day: 1, hour: 0, minute: 0, second: 0 };
    assert(day_number(first) == 0);
    law_civil_time_is_unique(start, first);
    if t.second < 59 {
        law_civil_time_is_unique(u, CivilTime { second: (t.second + 1) as u32, ..t });
    } else if t.minute < 59 {
        law_civil_time_is_unique(
            u,
            CivilTime { minute: (t.minute + 1) as u32, second: 0, ..t },
        );
    } else if t.hour < 23 {
        law_civil_time_is_unique(
            u,
            CivilTime { hour: (t.hour + 1) as u32, minute: 0, second: 0, ..t },
        );
    } else {
        let next = day_after(t);
        lemma_year_in_range(t);
        let v = CivilTime {
            year: next.0 as i64,
            month: next.1 as u32,
            day: next.2 as u32,
            hour: 0,
            minute: 0,
            second: 0,
        };
        let y = t.year as int;
        let m = t.month as int;
        assert(is_last_day(y, m, t.day as int) <==> t.day == days_in_month(y, m));
        if is_last_day(y, m, t.day as int) {
            if m < 12 {
                assert(days_before_month(y, m + 1) == days_before_month(y, m) + t.day);
            } else {
                lemma_year_has_its_days(y);
                assert(days_before_month(y, 13) == days_before_month(y, 12) + t.day);
                assert(days_before_year(y + 1) == days_before_year(y) + days_in_year(y));
                assert(days_before_month(y + 1, 1) == 0);
            }
        }
        assert(day_number(v) == day_number(t) + 1);
        assert(is_civil(v));
        law_civil_time_is_unique(u, v);
    }
}

/// A year that is reached within 64 bits of seconds is followed by another.
proof fn lemma_year_in_range(t: CivilTime)
    requires
        is_civil(t),
        epoch_seconds(t) < i64::MAX,
    ensures
        t.year < i64::MAX,
{
    lemma_years_are_long(t.year as int);
    lemma_months_before_are_fewer(t.year as int, 1, t.month as int);
}

proof fn lemma_years_are_long(y: int)
    requires
        y >= 1970,
    ensures
        days_before_year(y) >= y - 1970,
    decreases y,
{
    if y > 1970 {
        lemma_years_are_long(y - 1);
    }
}

/// The number that two digits of a text stand for.
pub open spec fn two_digits(s: Seq<char>, i: int) -> int {
    10 * (s[i] as int - 48) + (s[i + 1] as int - 48)
}

proof fn lemma_padded_pair(n: nat)
    requires
        n < 100,
    ensures
        text::padded(n, 2).len() == 2,
        two_digits(text::padded(n, 2), 0) == n,
{
    reveal_with_fuel(text::decimal, 3);
    let s = text::padded(n, 2);
    if n < 10 {
        assert(text::decimal(n).len() == 1);
        assert(s =~= seq!['0', text::digit(n)]);
    } else {
        assert(text::decimal(n).len() == 2);
        assert(s =~= seq![text::digit(n / 10), text::digit(n % 10)]);
    }
    assert('0' as int == 48);
}

proof fn lemma_padded_year(n: nat)
    requires
        1000 <= n < 10_000,
    ensures
        text::padded(n, 4).len() == 4,
        100 * two_digits(text::padded(n, 4), 0) + two_digits(text::padded(n, 4), 2) == n,
{
    reveal_with_fuel(text::decimal, 5);
    let s = text::padded(n, 4);
    assert(n / 10 / 10 / 10 < 10);
    assert(text::decimal(n).len() == 4);
    assert(s =~= seq![
        text::digit(n / 10 / 10 / 10),
        text::digit(n / 10 / 10 % 10),
        text::digit(n / 10 % 10),
        text::digit(n % 10),
    ]);
}

/// A time stamp says, each at its place, the year, the month, the day, the hour, the
/// minute and the second of its time.
pub proof fn law_time_stamp_reads_back(unix_ms: u64, t: CivilTime, stamp: String)
    requires
        call_ensures(epoch_parts, ((unix_ms / 1000) as i64,), t),
        call_ensures(utc_iso, (unix_ms,), stamp),
        t.year <= 9999,
    ensures
        stamp@.len() == 20,
        100 * two_digits(stamp@, 0) + two_digits(stamp@, 2) == t.year,
        stamp@[4] == '-',
        two_digits(stamp@, 5) == t.month,
        stamp@[7] == '-',
        two_digits(stamp@, 8) == t.day,
        stamp@[10] == 'T',
        two_digits(stamp@, 11) == t.hour,
        stamp@[13] == ':',
        two_digits(stamp@, 14) == t.minute,
        stamp@[16] == ':',
        two_digits(stamp@, 17) == t.second,
        stamp@[19] == 'Z',
{
    reveal_strlit("-");
    reveal_strlit("T");
    reveal_strlit(":");
    reveal_strlit("Z");
    law_civil_time_is_unique(t, civil_at((unix_ms / 1000) as int));
    lemma_padded_year(t.year as nat);
    lemma_padded_pair(t.month as nat);
    lemma_padded_pair(t.day as nat);
    lemma_padded_pair(t.hour as nat);
    lemma_padded_pair(t.minute as nat);
    lemma_padded_pair(t.second as nat);
}

/// The name of a run says when it started, to the minute, and then what it is about.
pub proof fn law_run_name_reads_back(unix_ms: u64, slug: &str, t: CivilTime, name: String)
    requires
        call_ensures(epoch_parts, ((unix_ms / 1000) as i64,), t),
        call_ensures(run_id_slug, (unix_ms, slug), name),
        t.year <= 9999,
    ensures
        name@.len() == 16 + slug@.len(),
        100 * two_digits(name@, 0) + two_digits(name@, 2) == t.year,
        name@[4] == '-',
        two_digits(name@, 5) == t.month,
        name@[7] == '-',
        two_digits(name@, 8) == t.day,
        name@[10] == 'T',
        two_digits(name@, 11) == t.hour,
        two_digits(name@, 13) == t.minute,
        name@[15] == '-',
        name@.skip(16) == slug@,
{
    reveal_strlit("-");
    reveal_strlit("T");
    law_civil_time_is_unique(t, civil_at((unix_ms / 1000) as int));
    lemma_padded_year(t.year as nat);
    lemma_padded_pair(t.month as nat);
    lemma_padded_pair(t.day as nat);
    lemma_padded_pair(t.hour as nat);
    lemma_padded_pair(t.minute as nat);
    assert(name@.skip(16) =~= slug@);
}

} // verus!
