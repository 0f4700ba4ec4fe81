use vstd::prelude::*;
use vstd::arithmetic::div_mod::lemma_fundamental_div_mod_converse;

verus! {

/// Leap years of the proleptic Gregorian calendar (year 0 is 1 BC, and a leap year).
pub open spec fn is_leap_year(y: int) -> bool {
    y % 4 == 0 && (y % 100 != 0 || y % 400 == 0)
}

/// The number of days of month `m` (1 to 12) of year `y`.
pub open spec fn days_in_month(y: int, m: int) -> int {
    if m == 2 {
        if is_leap_year(y) {
            29
        } else {
            28
        }
    } else if m == 4 || m == 6 || m == 9 || m == 11 {
        30
    } else {
        31
    }
}

/// The days of a common year before month `m` (1 to 12) begins.
pub open spec fn common_days_before_month(m: int) -> int {
    if m <= 1 {
        0
    } else if m == 2 {
        31
    } else if m == 3 {
        59
    } else if m == 4 {
        90
    } else if m == 5 {
        120
    } else if m == 6 {
        151
    } else if m == 7 {
        181
    } else if m == 8 {
        212
    } else if m == 9 {
        243
    } else if m == 10 {
        273
    } else if m == 11 {
        304
    } else {
        334
    }
}

/// The days of year `y` before month `m` begins.
pub open spec fn days_before_month(y: int, m: int) -> int {
    common_days_before_month(m) + if m > 2 && is_leap_year(y) {
        1int
    } else {
        0int
    }
}

/// The number of leap years among the years `0 .. y` (negated for the years `y .. 0` when `y`
/// is negative); see `lemma_leap_years_before_step`.
pub open spec fn leap_years_before(y: int) -> int {
    (y + 3) / 4 - (y + 99) / 100 + (y + 399) / 400
}

/// The day number of a date, counted from 1970-01-01 (day 0).
pub open spec fn days_from_civil(y: int, m: int, d: int) -> int {
    365 * y + leap_years_before(y) + days_before_month(y, m) + d - 1 - 719528
}

/// A month of the year and a day of that month.
pub open spec fn valid_date(y: int, m: int, d: int) -> bool {
    &&& 1 <= m <= 12
    &&& 1 <= d <= days_in_month(y, m)
}

/// Whether `y` is a leap year, for a year of the first 400-year cycle (bit-vector friendly).
spec fn leap_u64(y: u64) -> bool {
    y % 4 == 0 && (y % 100 != 0 || y % 400 == 0)
}

/// The count of leap years steps by one exactly over a leap year.
pub proof fn lemma_leap_years_before_step(y: int)
    ensures
        leap_years_before(y + 1) == leap_years_before(y) + if is_leap_year(y) {
            1int
        } else {
            0int
        },
{
    // Reduce to the first 400-year cycle.
    let e = y / 400;
    let r = y % 400;
    assert(0 <= r < 400);
    assert(y == 400 * e + r);
    lemma_cycle_shift(r, e);
    lemma_cycle_shift(r + 1, e);
    let ru = r as u64;
    assert(ru < 400 ==> ((ru + 4) / 4 - (ru + 100) / 100 + (ru + 400) / 400 == (ru + 3) / 4 - (ru
        + 99) / 100 + (ru + 399) / 400 + 1 <==> (ru % 4 == 0 && (ru % 100 != 0 || ru % 400 == 0))))
        by (bit_vector);
    assert(ru < 400 ==> ((ru + 4) / 4 - (ru + 100) / 100 + (ru + 400) / 400 == (ru + 3) / 4 - (ru
        + 99) / 100 + (ru + 399) / 400 || (ru + 4) / 4 - (ru + 100) / 100 + (ru + 400) / 400 == (ru
        + 3) / 4 - (ru + 99) / 100 + (ru + 399) / 400 + 1)) by (bit_vector);
    assert(r + 1 == (r + 1) as u64);
}

/// Moving by whole 400-year cycles moves the leap-year count by 97 a cycle, and keeps which
/// years are leap years.
pub proof fn lemma_cycle_shift(y: int, e: int)
    ensures
        leap_years_before(y + 400 * e) == leap_years_before(y) + 97 * e,
        is_leap_year(y + 400 * e) == is_leap_year(y),
        days_in_month(y + 400 * e, 2) == days_in_month(y, 2),
{
    let q4 = (y + 3) / 4;
    let r4 = (y + 3) % 4;
    lemma_fundamental_div_mod_converse(y + 400 * e + 3, 4, q4 + 100 * e, r4);
    let q100 = (y + 99) / 100;
    let r100 = (y + 99) % 100;
    lemma_fundamental_div_mod_converse(y + 400 * e + 99, 100, q100 + 4 * e, r100);
    let q400 = (y + 399) / 400;
    let r400 = (y + 399) % 400;
    lemma_fundamental_div_mod_converse(y + 400 * e + 399, 400, q400 + e, r400);
    lemma_fundamental_div_mod_converse(y + 400 * e, 4, y / 4 + 100 * e, y % 4);
    lemma_fundamental_div_mod_converse(y + 400 * e, 100, y / 100 + 4 * e, y % 100);
    lemma_fundamental_div_mod_converse(y + 400 * e, 400, y / 400 + e, y % 400);
}

/// The day number of the first day of year `y`.
pub open spec fn year_start(y: int) -> int {
    365 * y + leap_years_before(y) - 719528
}

/// Whether `t` is a (year, month, day) date whose day number is `days`.
pub open spec fn is_date_of(t: (int, int, int), days: int) -> bool {
    valid_date(t.0, t.1, t.2) && days_from_civil(t.0, t.1, t.2) == days
}

/// The date whose day number is `days`.
pub open spec fn civil_from_days(days: int) -> (int, int, int) {
    choose|t: (int, int, int)| is_date_of(t, days)
}

proof fn lemma_day_of_year_range(y: int, m: int, d: int)
    requires
        valid_date(y, m, d),
    ensures
        0 <= days_before_month(y, m) + d - 1 < 365 + if is_leap_year(y) {
            1int
        } else {
            0int
        },
{
}

proof fn lemma_months_disjoint(y: int, m1: int, d1: int, m2: int, d2: int)
    requires
        valid_date(y, m1, d1),
        valid_date(y, m2, d2),
        m1 < m2,
    ensures
        days_before_month(y, m1) + d1 < days_before_month(y, m2) + d2,
{
    assert(days_before_month(y, m1) + days_in_month(y, m1) <= days_before_month(y, m2));
}

proof fn lemma_year_start_grows(y1: int, y2: int)
    requires
        y1 < y2,
    ensures
        year_start(y2) >= year_start(y1) + 365 + if is_leap_year(y1) {
            1int
        } else {
            0int
        },
    decreases y2 - y1,
{
    lemma_leap_years_before_step(y1);
    if y2 > y1 + 1 {
        lemma_year_start_grows(y1 + 1, y2);
    }
}

/// Distinct dates have distinct day numbers: a day number names exactly one date.
pub proof fn law_civil_days_distinct(y1: int, m1: int, d1: int, y2: int, m2: int, d2: int)
    requires
        valid_date(y1, m1, d1),
        valid_date(y2, m2, d2),
        days_from_civil(y1, m1, d1) == days_from_civil(y2, m2, d2),
    ensures
        y1 == y2 && m1 == m2 && d1 == d2,
{
    lemma_day_of_year_range(y1, m1, d1);
    lemma_day_of_year_range(y2, m2, d2);
    if y1 < y2 {
        lemma_year_start_grows(y1, y2);
    } else if y2 < y1 {
        lemma_year_start_grows(y2, y1);
    } else if m1 < m2 {
        lemma_months_disjoint(y1, m1, d1, m2, d2);
    } else if m2 < m1 {
        lemma_months_disjoint(y1, m2, d2, m1, d1);
    }
}

/// The date that `days_to_date` finds is the date of that day number.
proof fn lemma_is_civil_from_days(y: int, m: int, d: int, days: int)
    requires
        valid_date(y, m, d),
        days_from_civil(y, m, d) == days,
    ensures
        civil_from_days(days) == (y, m, d),
{
    assert(is_date_of((y, m, d), days));
    let t = civil_from_days(days);
    assert(is_date_of(t, days));
    law_civil_days_distinct(t.0, t.1, t.2, y, m, d);
}

/// Facts of the year-of-era step, for a day of the era `doe` (bit-vector checked).
proof fn lemma_year_of_era(doe: u64)
    requires
        doe < 146097,
    ensures
        doe / 1460 <= doe,
        doe - doe / 1460 + doe / 36524 >= doe / 146096,
        ({
            let yoe = (doe - doe / 1460 + doe / 36524 - doe / 146096) / 365;
            &&& yoe < 400
            &&& 365 * yoe + yoe / 4 - yoe / 100 <= doe
            &&& leap_u64((yoe + 1) as u64) ==> doe - (365 * yoe + yoe / 4 - yoe / 100) < 366
            &&& !leap_u64((yoe + 1) as u64) ==> doe - (365 * yoe + yoe / 4 - yoe / 100) < 365
        }),
{
    assert(doe < 146097 ==> doe / 1460 <= doe && doe - doe / 1460 + doe / 36524 >= doe / 146096)
        by (bit_vector);
    assert(doe < 146097 ==> (doe - doe / 1460 + doe / 36524 - doe / 146096) / 365 < 400 && 365 * ((
    doe - doe / 1460 + doe / 36524 - doe / 146096) / 365) + ((doe - doe / 1460 + doe / 36524 - doe
        / 146096) / 365) / 4 - ((doe - doe / 1460 + doe / 36524 - doe / 146096) / 365) / 100 <= doe)
        by (bit_vector);
    let yoe = ((doe - doe / 1460 + doe / 36524 - doe / 146096) / 365) as u64;
    assert(doe < 146097 && yoe == (doe - doe / 1460 + doe / 36524 - doe / 146096) / 365 ==> (((yoe
        + 1) % 4 == 0 && ((yoe + 1) % 100 != 0 || (yoe + 1) % 400 == 0)) ==> doe - (365 * yoe + yoe
        / 4 - yoe / 100) < 366)) by (bit_vector);
    assert(doe < 146097 && yoe == (doe - doe / 1460 + doe / 36524 - doe / 146096) / 365 ==> (!((yoe
        + 1) % 4 == 0 && ((yoe + 1) % 100 != 0 || (yoe + 1) % 400 == 0)) ==> doe - (365 * yoe + yoe
        / 4 - yoe / 100) < 365)) by (bit_vector);
}

/// Facts of the month step, for a day of the March-based year `doy` (bit-vector checked).
proof fn lemma_month_of_year(doy: u64)
    requires
        doy < 366,
    ensures
        (5 * doy + 2) / 153 < 12,
        (153 * ((5 * doy + 2) / 153) + 2) / 5 <= doy,
        (5 * doy + 2) / 153 < 11 ==> doy < (153 * ((5 * doy + 2) / 153 + 1) + 2) / 5,
{
    assert(doy < 366 ==> (5 * doy + 2) / 153 < 12 && (153 * ((5 * doy + 2) / 153) + 2) / 5 <= doy
        && ((5 * doy + 2) / 153 < 11 ==> doy < (153 * ((5 * doy + 2) / 153 + 1) + 2) / 5))
        by (bit_vector);
}

/// Within the first cycle, the days before the March-based year `y` begins match the leap-year
/// count (bit-vector checked).
proof fn lemma_march_year_start(y: u64)
    requires
        y < 400,
    ensures
        365 * y + leap_years_before(y as int) + (if is_leap_year(y as int) {
            1int
        } else {
            0int
        }) == 365 * y + y / 4 - y / 100 + 1,
{
    assert(y < 400 ==> ((y % 4 == 0 && (y % 100 != 0 || y % 400 == 0)) ==> (y + 3) / 4 - (y + 99)
        / 100 + (y + 399) / 400 + 1 == y / 4 - y / 100 + 1)) by (bit_vector);
    assert(y < 400 ==> (!(y % 4 == 0 && (y % 100 != 0 || y % 400 == 0)) ==> (y + 3) / 4 - (y + 99)
        / 100 + (y + 399) / 400 == y / 4 - y / 100 + 1)) by (bit_vector);
}

/// The date that the era/year/month steps compute is the date of the day number.
#[verifier::rlimit(40)]
proof fn lemma_civil_result(
    days: int,
    era: int,
    doe: int,
    yoe: int,
    doy: int,
    mp: int,
    d: int,
    m: int,
    y: int,
)
    requires
        doe == days + 719468 - era * 146097,
        0 <= yoe < 400,
        365 * yoe + yoe / 4 - yoe / 100 <= doe,
        leap_u64((yoe + 1) as u64) ==> doe - (365 * yoe + yoe / 4 - yoe / 100) < 366,
        !leap_u64((yoe + 1) as u64) ==> doe - (365 * yoe + yoe / 4 - yoe / 100) < 365,
        doy == doe - (365 * yoe + yoe / 4 - yoe / 100),
        mp == (5 * doy + 2) / 153,
        mp < 12,
        (153 * mp + 2) / 5 <= doy,
        mp < 11 ==> doy < (153 * (mp + 1) + 2) / 5,
        d == doy - (153 * mp + 2) / 5 + 1,
        m == if mp < 10 { mp + 3 } else { mp - 9 },
        y == (if m <= 2 { yoe + 1 } else { yoe }) + era * 400,
    ensures
        valid_date(y, m, d),
        days_from_civil(y, m, d) == days,
        civil_from_days(days) == (y, m, d),
{
    let y0: int = if m <= 2 { yoe + 1 } else { yoe };
    assert(y == y0 + 400 * era);
    lemma_cycle_shift(y0, era);
    lemma_march_year_start(yoe as u64);
    lemma_leap_years_before_step(yoe);
    lemma_cycle_shift(yoe + 1, era);
    assert(is_leap_year(yoe + 1) == leap_u64((yoe + 1) as u64));
    assert(mp == 0 || mp == 1 || mp == 2 || mp == 3 || mp == 4 || mp == 5 || mp == 6 || mp == 7
        || mp == 8 || mp == 9 || mp == 10 || mp == 11);
    assert(valid_date(y, m, d) && days_from_civil(y, m, d) == days);
    lemma_is_civil_from_days(y, m, d, days);
}

/// Convert a day count from 1970-01-01 to a (year, month, day) date of the proleptic
/// Gregorian calendar.
pub fn days_to_date(days_since_epoch: i64) -> (r: (i64, u32, u32))
    requires
        days_since_epoch <= i64::MAX - 719468,
    ensures
        valid_date(r.0 as int, r.1 as int, r.2 as int),
        days_from_civil(r.0 as int, r.1 as int, r.2 as int) == days_since_epoch,
        (r.0 as int, r.1 as int, r.2 as int) == civil_from_days(days_since_epoch as int),
{
    let z = days_since_epoch + 719468;
    let era = (if z >= 0 {
        z
    } else {
        z - 146096
    }) / 146097;
    proof {
        assert(0 <= z - era * 146097 < 146097) by (nonlinear_arith)
            requires
                z >= 0 ==> era == z / 146097,
                z < 0 ==> era == -((-(z - 146096)) / 146097),
        ;
    }
    let doe = (z - era * 146097) as u32;
    proof {
        lemma_year_of_era(doe as u64);
    }
    let yoe = (doe - doe / 1460 + doe / 36524 - doe / 146096) / 365;
    let y = yoe as i64 + era * 400;
    let doy = doe - (365 * yoe + yoe / 4 - yoe / 100);
    proof {
        lemma_month_of_year(doy as u64);
    }
    let mp = (5 * doy + 2) / 153;
    let d = doy - (153 * mp + 2) / 5 + 1;
    let m = if mp < 10 {
        mp + 3
    } else {
        mp - 9
    };
    let y = if m <= 2 {
        y + 1
    } else {
        y
    };
    proof {
        lemma_civil_result(
            days_since_epoch as int,
            era as int,
            doe as int,
            yoe as int,
            doy as int,
            mp as int,
            d as int,
            m as int,
            y as int,
        );
    }
    (y, m, d)
}

} // verus!
