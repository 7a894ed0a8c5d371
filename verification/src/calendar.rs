//! Proleptic Gregorian calendar arithmetic on days since the Unix epoch,
//! and the `YYYY-MM-DD` / `YYYY-MM` keys the token budget is tracked by.

use vstd::prelude::*;
use crate::numfmt::{decimal, zero_pad, u64_decimal, pad_zeros};

verus! {

/// Gregorian leap year.
pub open spec fn is_leap_year(y: int) -> bool {
    y % 4 == 0 && (y % 100 != 0 || y % 400 == 0)
}

/// Number of days in month `m` (1-12) of year `y`.
pub open spec fn month_len(y: int, m: int) -> int {
    if m == 2 {
        if is_leap_year(y) { 29 } else { 28 }
    } else if m == 4 || m == 6 || m == 9 || m == 11 {
        30
    } else {
        31
    }
}

/// Number of days in year `y`.
pub open spec fn year_len(y: int) -> int {
    if is_leap_year(y) { 366 } else { 365 }
}

/// Days of year `y` before the first of month `m`.
pub open spec fn days_before_month(y: int, m: int) -> int
    decreases m,
{
    if m <= 1 {
        0
    } else {
        days_before_month(y, m - 1) + month_len(y, m - 1)
    }
}

/// Days from 1970-01-01 to January 1 of year `y` (for `y >= 1970`).
pub open spec fn days_before_year(y: int) -> int
    decreases y - 1970,
{
    if y <= 1970 {
        0
    } else {
        days_before_year(y - 1) + year_len(y - 1)
    }
}

/// A date of the calendar, from 1970 on.
pub open spec fn valid_date(y: int, m: int, d: int) -> bool {
    y >= 1970 && 1 <= m <= 12 && 1 <= d <= month_len(y, m)
}

/// Days since the Unix epoch (1970-01-01) of the date `y-m-d`.
pub open spec fn day_number(y: int, m: int, d: int) -> int {
    days_before_year(y) + days_before_month(y, m) + d - 1
}

/// The date that falls `days` days after the Unix epoch.
pub open spec fn date_of(days: int) -> (int, int, int) {
    choose|y: int, m: int, d: int| valid_date(y, m, d) && day_number(y, m, d) == days
}

/// `YYYY-MM-DD` key of a date (each field zero-padded, the year to at least four digits).
pub open spec fn day_key(y: int, m: int, d: int) -> Seq<char> {
    month_key(y, m) + seq!['-'] + zero_pad(decimal(d as nat), 2)
}

/// `YYYY-MM` key of a month.
pub open spec fn month_key(y: int, m: int) -> Seq<char> {
    zero_pad(decimal(y as nat), 4) + seq!['-'] + zero_pad(decimal(m as nat), 2)
}

/// Day count of the year `t` of a 400-year era whose years start on
/// March 1: `365 t + t/4 - t/100`.
pub open spec fn era_year_start(t: int) -> int {
    365 * t + t / 4 - t / 100
}

/// The March-based year `t` of an era ends in a leap February.
pub open spec fn long_era_year(t: int) -> bool {
    (t + 1) % 4 == 0 && ((t + 1) % 100 != 0 || (t + 1) % 400 == 0)
}

/// Leap days before year `y` (counted from year 0).
spec fn leaps_before(y: int) -> int {
    (y - 1) / 4 - (y - 1) / 100 + (y - 1) / 400
}

proof fn lemma_year_of_era(doe: int)
    requires
        0 <= doe < 146097,
    ensures
        ({
            let t = (doe - doe / 1460 + doe / 36524 - doe / 146096) / 365;
            &&& 0 <= t <= 399
            &&& era_year_start(t) <= doe
            &&& doe < era_year_start(t) + 365 + (if long_era_year(t) { 1int } else { 0int })
        }),
{
    let c = if doe / 36524 > 3 { 3int } else { doe / 36524 };
    let r = doe - 36524 * c;
    let q = r / 1461;
    let s = r - 1461 * q;
    assert(0 <= q <= 24);
    assert(0 <= s <= 1460);
    let k = if s / 365 > 3 { 3int } else { s / 365 };
    let t = (doe - doe / 1460 + doe / 36524 - doe / 146096) / 365;
    assert(t == 100 * c + 4 * q + k);
}

proof fn lemma_days_before_year(y: int)
    requires
        y >= 1970,
    ensures
        days_before_year(y) == 365 * (y - 1970) + leaps_before(y) - 477,
    decreases y - 1970,
{
    if y > 1970 {
        lemma_days_before_year(y - 1);
    }
}

proof fn lemma_days_before_month(y: int, m: int)
    requires
        1 <= m <= 12,
    ensures
        days_before_month(y, m) == if m == 1 {
            0
        } else if m == 2 {
            31
        } else {
            (153 * (m - 3) + 2) / 5 + 59 + (if is_leap_year(y) { 1int } else { 0int })
        },
{
    reveal_with_fuel(days_before_month, 12);
}

proof fn lemma_month_of_day(doy: int, long: bool)
    requires
        0 <= doy < 365 + (if long { 1int } else { 0int }),
    ensures
        ({
            let mp = (5 * doy + 2) / 153;
            let d = doy - (153 * mp + 2) / 5 + 1;
            &&& 0 <= mp <= 11
            &&& 1 <= d
            &&& mp != 11 ==> d <= month_len(0, if mp < 10 { mp + 3 } else { mp - 9 })
            &&& mp == 11 ==> d <= 28 + (if long { 1int } else { 0int })
        }),
{
}

proof fn lemma_era_leaps(e: int, t: int)
    requires
        e >= 0,
        0 <= t <= 399,
    ensures
        leaps_before(400 * e + t + 1) == 97 * e + t / 4 - t / 100,
        leaps_before(400 * e + t + 1) == leaps_before(400 * e + t) + (if is_leap_year(400 * e + t) {
            1int
        } else {
            0int
        }),
        long_era_year(t) == is_leap_year(400 * e + t + 1),
{
    assert((400 * e + t) / 4 == 100 * e + t / 4);
    assert((400 * e + t) / 100 == 4 * e + t / 100);
    assert((400 * e + t) / 400 == e);
}

/// The date the era arithmetic denotes: `doy` days after March 1 of year
/// `400 e + t` is the `days`-th day after the epoch.
#[verifier::spinoff_prover]
proof fn lemma_era_date(days: int, e: int, t: int, doy: int)
    requires
        days >= 0,
        e >= 0,
        0 <= t <= 399,
        0 <= doy < 365 + (if long_era_year(t) { 1int } else { 0int }),
        days + 719468 == 146097 * e + era_year_start(t) + doy,
    ensures
        ({
            let mp = (5 * doy + 2) / 153;
            let d = doy - (153 * mp + 2) / 5 + 1;
            let m = if mp < 10 { mp + 3 } else { mp - 9 };
            let y = if m <= 2 { 400 * e + t + 1 } else { 400 * e + t };
            valid_date(y, m, d) && day_number(y, m, d) == days
        }),
{
    lemma_month_of_day(doy, long_era_year(t));
    let mp = (5 * doy + 2) / 153;
    let d = doy - (153 * mp + 2) / 5 + 1;
    let m = if mp < 10 { mp + 3 } else { mp - 9 };
    let yy = 400 * e + t;
    lemma_era_leaps(e, t);
    if m <= 2 {
        assert(yy + 1 >= 1970);
        lemma_days_before_year(yy + 1);
        lemma_days_before_month(yy + 1, m);
    } else {
        assert(yy >= 1970);
        lemma_days_before_year(yy);
        lemma_days_before_month(yy, m);
    }
}

proof fn lemma_days_before_year_mono(a: int, b: int)
    requires
        1970 <= a <= b,
    ensures
        days_before_year(a) <= days_before_year(b),
    decreases b - a,
{
    if a < b {
        lemma_days_before_year_mono(a, b - 1);
    }
}

proof fn lemma_days_before_month_mono(y: int, a: int, b: int)
    requires
        1 <= a <= b,
    ensures
        days_before_month(y, a) <= days_before_month(y, b),
    decreases b - a,
{
    if a < b {
        lemma_days_before_month_mono(y, a, b - 1);
    }
}

/// Within its year, a valid date falls before the next year begins.
proof fn lemma_day_in_year(y: int, m: int, d: int)
    requires
        valid_date(y, m, d),
    ensures
        days_before_year(y) <= day_number(y, m, d) < days_before_year(y + 1),
        days_before_month(y, m) <= days_before_month(y, m) + d - 1 < days_before_month(y, m + 1),
{
    lemma_days_before_month(y, m);
    lemma_days_before_month(y, 12);
    assert(days_before_month(y, 13) == days_before_month(y, 12) + month_len(y, 12));
}

/// Distinct valid dates have distinct day numbers.
pub proof fn lemma_day_number_injective(y1: int, m1: int, d1: int, y2: int, m2: int, d2: int)
    requires
        valid_date(y1, m1, d1),
        valid_date(y2, m2, d2),
        day_number(y1, m1, d1) == day_number(y2, m2, d2),
    ensures
        y1 == y2 && m1 == m2 && d1 == d2,
{
    lemma_day_in_year(y1, m1, d1);
    lemma_day_in_year(y2, m2, d2);
    if y1 < y2 {
        lemma_days_before_year_mono(y1 + 1, y2);
    } else if y2 < y1 {
        lemma_days_before_year_mono(y2 + 1, y1);
    }
    assert(y1 == y2);
    if m1 < m2 {
        lemma_days_before_month_mono(y1, m1 + 1, m2);
    } else if m2 < m1 {
        lemma_days_before_month_mono(y1, m2 + 1, m1);
    }
}

/// The date of a day number is the valid date that has it.
pub proof fn lemma_date_of(y: int, m: int, d: int)
    requires
        valid_date(y, m, d),
    ensures
        date_of(day_number(y, m, d)) == (y, m, d),
{
    let days = day_number(y, m, d);
    assert(valid_date(y, m, d) && day_number(y, m, d) == days);
    let (a, b, c) = date_of(days);
    lemma_day_number_injective(a, b, c, y, m, d);
}

/// Converts days since the Unix epoch to the calendar date `(year, month, day)`.
pub fn days_to_ymd(days: u64) -> (r: (u64, u64, u64))
    requires
        days <= u64::MAX - 719468,
    ensures
        valid_date(r.0 as int, r.1 as int, r.2 as int),
        day_number(r.0 as int, r.1 as int, r.2 as int) == days,
{
    let z = days + 719468;
    let era = z / 146097;
    let doe = z - era * 146097;
    let yoe = (doe - doe / 1460 + doe / 36524 - doe / 146096) / 365;
    proof {
        lemma_year_of_era(doe as int);
    }
    let y = yoe + era * 400;
    let doy = doe - (365 * yoe + yoe / 4 - yoe / 100);
    let mp = (5 * doy + 2) / 153;
    let d = doy - (153 * mp + 2) / 5 + 1;
    let m = if mp < 10 { mp + 3 } else { mp - 9 };
    let y = if m <= 2 { y + 1 } else { y };
    proof {
        lemma_era_date(days as int, era as int, yoe as int, doy as int);
    }
    (y, m, d)
}

/// Length of the decimal rendering of small numbers.
proof fn lemma_decimal_len(n: nat)
    ensures
        n < 10 ==> decimal(n).len() == 1,
        10 <= n < 100 ==> decimal(n).len() == 2,
        100 <= n < 1000 ==> decimal(n).len() == 3,
        1000 <= n < 10000 ==> decimal(n).len() == 4,
{
    reveal_with_fuel(crate::numfmt::in_base, 5);
}

/// The date keys have a fixed shape for four-digit years: the day key is ten
/// characters long, the month key seven, and the day key begins with the
/// month key.
pub proof fn law_key_shape(y: int, m: int, d: int)
    requires
        valid_date(y, m, d),
        y <= 9999,
    ensures
        day_key(y, m, d).len() == 10,
        month_key(y, m).len() == 7,
        day_key(y, m, d).subrange(0, 7) == month_key(y, m),
{
    lemma_decimal_len(y as nat);
    lemma_decimal_len(m as nat);
    lemma_decimal_len(d as nat);
    assert(day_key(y, m, d).subrange(0, 7) =~= month_key(y, m));
}

/// Every day from the epoch on has a date.
pub proof fn lemma_date_exists(days: int)
    requires
        days >= 0,
    ensures
        valid_date(date_of(days).0, date_of(days).1, date_of(days).2),
        day_number(date_of(days).0, date_of(days).1, date_of(days).2) == days,
{
    let z = days + 719468;
    let e = z / 146097;
    let doe = z - e * 146097;
    lemma_year_of_era(doe);
    let t = (doe - doe / 1460 + doe / 36524 - doe / 146096) / 365;
    let doy = doe - era_year_start(t);
    lemma_era_date(days, e, t, doy);
    let mp = (5 * doy + 2) / 153;
    let d = doy - (153 * mp + 2) / 5 + 1;
    let m = if mp < 10 { mp + 3 } else { mp - 9 };
    let y = if m <= 2 { 400 * e + t + 1 } else { 400 * e + t };
    lemma_date_of(y, m, d);
}

/// `YYYY-MM-DD` and `YYYY-MM` keys of the day `days` after the epoch.
pub fn day_month_keys(days: u64) -> (r: (String, String))
    requires
        days <= u64::MAX - 719468,
    ensures
        r.0@ == day_key(date_of(days as int).0, date_of(days as int).1, date_of(days as int).2),
        r.1@ == month_key(date_of(days as int).0, date_of(days as int).1),
{
    let (y, m, d) = days_to_ymd(days);
    proof {
        lemma_date_of(y as int, m as int, d as int);
    }
    let mut month: Vec<char> = pad_zeros(u64_decimal(y), 4);
    month.push('-');
    let mm = pad_zeros(u64_decimal(m), 2);
    crate::text::push_all(&mut month, mm.as_slice());
    let mut day = crate::text::slice_chars(month.as_slice(), 0, month.len());
    day.push('-');
    let dd = pad_zeros(u64_decimal(d), 2);
    crate::text::push_all(&mut day, dd.as_slice());
    assert(month@ =~= month_key(y as int, m as int));
    assert(day@ =~= day_key(y as int, m as int, d as int));
    (crate::text::string_from_chars(day.as_slice()), crate::text::string_from_chars(month.as_slice()))
}

} // verus!
