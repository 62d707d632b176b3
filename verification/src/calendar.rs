//! The proleptic Gregorian calendar as mathematics: leap years, month lengths,
//! the day number of a date counted from 1970-01-01, and the inverse.
//!
//! Every date routine of the pages is proved against these definitions.
use vstd::prelude::*;
use vstd::arithmetic::div_mod::{lemma_fundamental_div_mod, lemma_fundamental_div_mod_converse, lemma_mod_bound};

verus! {

/// Gregorian leap year: divisible by 4, and not by 100 unless by 400.
pub open spec fn is_leap(y: int) -> bool {
    y % 4 == 0 && (y % 100 != 0 || y % 400 == 0)
}

/// Days in year `y`.
pub open spec fn year_length(y: int) -> int {
    if is_leap(y) { 366 } else { 365 }
}

/// Days in month `m` of year `y`; 0 for a number that is no month.
pub open spec fn month_length(y: int, m: int) -> int {
    if m == 1 || m == 3 || m == 5 || m == 7 || m == 8 || m == 10 || m == 12 {
        31
    } else if m == 4 || m == 6 || m == 9 || m == 11 {
        30
    } else if m == 2 {
        if is_leap(y) { 29 } else { 28 }
    } else {
        0
    }
}

/// A real calendar date.
pub open spec fn is_valid_date(y: int, m: int, d: int) -> bool {
    1 <= m <= 12 && 1 <= d <= month_length(y, m)
}

/// Days of year `y` before the first day of month `m`.
pub open spec fn days_before_month(y: int, m: int) -> int
    decreases m,
{
    if m <= 1 { 0 } else { days_before_month(y, m - 1) + month_length(y, m - 1) }
}

/// Days from 1970-01-01 to the first of January of year `y` (negative before 1970).
pub open spec fn days_before_year(y: int) -> int
    decreases (if y >= 1970 { y - 1970 } else { 1970 - y }),
{
    if y == 1970 {
        0
    } else if y > 1970 {
        days_before_year(y - 1) + year_length(y - 1)
    } else {
        days_before_year(y + 1) - year_length(y)
    }
}

/// Day number of `y-m-d` counted from 1970-01-01 (day 0). The day of month is
/// counted on from the first of the month, so `d` past the month's end lands
/// in a later month.
pub open spec fn epoch_day(y: int, m: int, d: int) -> int {
    days_before_year(y) + days_before_month(y, m) + d - 1
}

/// The valid date whose day number is `z`.
pub open spec fn civil_of(z: int) -> (int, int, int) {
    choose|ymd: (int, int, int)| is_valid_date(ymd.0, ymd.1, ymd.2) && epoch_day(ymd.0, ymd.1, ymd.2) == z
}

// ---------------------------------------------------------------------------
// The era arithmetic of the day-number algorithm, and why it counts days.
// ---------------------------------------------------------------------------

/// Days from 0000-03-01 to `y`-03-01.
pub open spec fn era_days(y: int) -> int {
    365 * y + y / 4 - y / 100 + y / 400
}

/// The day-number formula used by the pages, over mathematical integers.
pub open spec fn formula_days(y: int, m: int, d: int) -> int {
    let yy = if m <= 2 { y - 1 } else { y };
    let mp = if m > 2 { m - 3 } else { m + 9 };
    era_days(yy) + (153 * mp + 2) / 5 + d - 1 - 719468
}

/// Start of the March-based year `t` inside a 400-year era.
pub open spec fn march_year_start(t: int) -> int {
    365 * t + t / 4 - t / 100
}

/// Year of era for a day of era.
pub open spec fn yoe_of(doe: int) -> int {
    (doe - doe / 1460 + doe / 36524 - doe / 146096) / 365
}

/// The inverse algorithm used by the pages, over mathematical integers.
pub open spec fn formula_civil(z: int) -> (int, int, int) {
    let zz = z + 719468;
    let era = zz / 146097;
    let doe = zz - era * 146097;
    let yoe = yoe_of(doe);
    let y = yoe + era * 400;
    let doy = doe - march_year_start(yoe);
    let mp = (5 * doy + 2) / 153;
    let d = doy - (153 * mp + 2) / 5 + 1;
    let m = if mp < 10 { mp + 3 } else { mp - 9 };
    (if m <= 2 { y + 1 } else { y }, m, d)
}

proof fn lemma_step_div(y: int, k: int)
    requires
        k > 0,
    ensures
        y / k - (y - 1) / k == (if y % k == 0 { 1int } else { 0 }),
{
    lemma_fundamental_div_mod(y - 1, k);
    lemma_mod_bound(y - 1, k);
    let q = (y - 1) / k;
    let r = (y - 1) % k;
    assert(k * q == q * k) by (nonlinear_arith);
    if r + 1 == k {
        assert((q + 1) * k == q * k + k) by (nonlinear_arith);
        lemma_fundamental_div_mod_converse(y, k, q + 1, 0);
    } else {
        lemma_fundamental_div_mod_converse(y, k, q, r + 1);
    }
}

/// Consecutive values of `era_days` differ by the length of the March-based year.
proof fn lemma_era_days_step(y: int)
    ensures
        era_days(y) - era_days(y - 1) == year_length(y),
{
    lemma_step_div(y, 4);
    lemma_step_div(y, 100);
    lemma_step_div(y, 400);
}

/// Splitting a year count into whole eras and a year of era.
pub proof fn lemma_era_split(y: int, era: int, yoe: int)
    requires
        y == era * 400 + yoe,
        0 <= yoe < 400,
    ensures
        era_days(y) == era * 146097 + march_year_start(yoe),
{
    lemma_fundamental_div_mod(yoe, 4);
    lemma_fundamental_div_mod(yoe, 100);
    lemma_fundamental_div_mod_converse(y, 4, era * 100 + yoe / 4, yoe % 4);
    lemma_fundamental_div_mod_converse(y, 100, era * 4 + yoe / 100, yoe % 100);
    lemma_fundamental_div_mod_converse(y, 400, era, yoe);
}

proof fn lemma_days_before_year_step(y: int)
    ensures
        days_before_year(y + 1) == days_before_year(y) + year_length(y),
    decreases (if y >= 1970 { y - 1970 } else { 1970 - y }),
{
    if y >= 1970 {
    } else {
        assert(days_before_year(y) == days_before_year(y + 1) - year_length(y));
    }
}

/// The first of January in the formula is `days_before_year`.
proof fn lemma_formula_year_start(y: int)
    ensures
        formula_days(y, 1, 1) == days_before_year(y),
    decreases (if y >= 1970 { y - 1970 } else { 1970 - y }),
{
    if y == 1970 {
        assert(era_days(1969) == 719162);
    } else if y > 1970 {
        lemma_formula_year_start(y - 1);
        lemma_era_days_step(y - 1);
        lemma_days_before_year_step(y - 1);
    } else {
        lemma_formula_year_start(y + 1);
        lemma_era_days_step(y);
        lemma_days_before_year_step(y);
    }
}

proof fn lemma_days_before_month_values(y: int)
    ensures
        days_before_month(y, 1) == 0,
        days_before_month(y, 2) == 31,
        days_before_month(y, 3) == 59 + (if is_leap(y) { 1int } else { 0 }),
        days_before_month(y, 4) == 90 + (if is_leap(y) { 1int } else { 0 }),
        days_before_month(y, 5) == 120 + (if is_leap(y) { 1int } else { 0 }),
        days_before_month(y, 6) == 151 + (if is_leap(y) { 1int } else { 0 }),
        days_before_month(y, 7) == 181 + (if is_leap(y) { 1int } else { 0 }),
        days_before_month(y, 8) == 212 + (if is_leap(y) { 1int } else { 0 }),
        days_before_month(y, 9) == 243 + (if is_leap(y) { 1int } else { 0 }),
        days_before_month(y, 10) == 273 + (if is_leap(y) { 1int } else { 0 }),
        days_before_month(y, 11) == 304 + (if is_leap(y) { 1int } else { 0 }),
        days_before_month(y, 12) == 334 + (if is_leap(y) { 1int } else { 0 }),
        days_before_month(y, 13) == year_length(y),
{
    assert(days_before_month(y, 1) == 0);
    assert(days_before_month(y, 2) == 31);
    assert(days_before_month(y, 3) == 59 + (if is_leap(y) { 1int } else { 0 }));
    assert(days_before_month(y, 4) == 90 + (if is_leap(y) { 1int } else { 0 }));
    assert(days_before_month(y, 5) == 120 + (if is_leap(y) { 1int } else { 0 }));
    assert(days_before_month(y, 6) == 151 + (if is_leap(y) { 1int } else { 0 }));
    assert(days_before_month(y, 7) == 181 + (if is_leap(y) { 1int } else { 0 }));
    assert(days_before_month(y, 8) == 212 + (if is_leap(y) { 1int } else { 0 }));
    assert(days_before_month(y, 9) == 243 + (if is_leap(y) { 1int } else { 0 }));
    assert(days_before_month(y, 10) == 273 + (if is_leap(y) { 1int } else { 0 }));
    assert(days_before_month(y, 11) == 304 + (if is_leap(y) { 1int } else { 0 }));
    assert(days_before_month(y, 12) == 334 + (if is_leap(y) { 1int } else { 0 }));
}

/// The day-number formula counts days: it agrees with `epoch_day` for every
/// month number and every day of month.
pub proof fn lemma_formula_days(y: int, m: int, d: int)
    requires
        1 <= m <= 12,
    ensures
        formula_days(y, m, d) == epoch_day(y, m, d),
{
    lemma_formula_year_start(y);
    lemma_era_days_step(y);
    lemma_days_before_month_values(y);
}

proof fn lemma_doe(doe: int)
    requires
        0 <= doe <= 146096,
    ensures
        0 <= yoe_of(doe) <= 399,
        march_year_start(yoe_of(doe)) <= doe,
        doe - march_year_start(yoe_of(doe)) < year_length(yoe_of(doe) + 1),
{
}

proof fn lemma_doy(doy: int, leap: bool)
    requires
        0 <= doy < 365 + (if leap { 1int } else { 0 }),
    ensures
        0 <= (5 * doy + 2) / 153 <= 11,
        ({
            let mp = (5 * doy + 2) / 153;
            let d = doy - (153 * mp + 2) / 5 + 1;
            let m = if mp < 10 { mp + 3 } else { mp - 9 };
            &&& 1 <= d
            &&& d <= (if m == 2 { if leap { 29int } else { 28 } } else if m == 4 || m == 6 || m == 9 || m == 11 { 30 } else { 31 })
        }),
{
}

/// The inverse formula yields the valid date with the given day number.
pub proof fn lemma_formula_civil(z: int)
    ensures
        is_valid_date(formula_civil(z).0, formula_civil(z).1, formula_civil(z).2),
        epoch_day(formula_civil(z).0, formula_civil(z).1, formula_civil(z).2) == z,
{
    let zz = z + 719468;
    let era = zz / 146097;
    lemma_fundamental_div_mod(zz, 146097);
    let doe = zz - era * 146097;
    lemma_doe(doe);
    let yoe = yoe_of(doe);
    let y = yoe + era * 400;
    let doy = doe - march_year_start(yoe);
    assert(is_leap(y + 1) == is_leap(yoe + 1)) by {
        lemma_fundamental_div_mod_converse(y + 1, 4, era * 100 + (yoe + 1) / 4, (yoe + 1) % 4);
        lemma_fundamental_div_mod_converse(y + 1, 100, era * 4 + (yoe + 1) / 100, (yoe + 1) % 100);
        lemma_fundamental_div_mod_converse(y + 1, 400, era + (yoe + 1) / 400, (yoe + 1) % 400);
    }
    lemma_doy(doy, is_leap(y + 1));
    let (ry, m, d) = formula_civil(z);
    lemma_era_split(y, era, yoe);
    lemma_formula_days(ry, m, d);
}

/// Day numbers of valid dates are ordered like the dates.
proof fn lemma_year_bounds(y: int, m: int, d: int)
    requires
        is_valid_date(y, m, d),
    ensures
        days_before_year(y) <= epoch_day(y, m, d) < days_before_year(y + 1),
        days_before_year(y) + days_before_month(y, m) <= epoch_day(y, m, d) < days_before_year(y) + days_before_month(y, m + 1),
{
    lemma_days_before_month_values(y);
    lemma_days_before_year_step(y);
}

proof fn lemma_days_before_year_monotone(a: int, b: int)
    requires
        a < b,
    ensures
        days_before_year(a + 1) <= days_before_year(b),
    decreases b - a,
{
    if a + 1 < b {
        lemma_days_before_year_monotone(a, b - 1);
        lemma_days_before_year_step(b - 1);
    }
}

/// Two valid dates with the same day number are the same date.
pub proof fn lemma_epoch_day_injective(y1: int, m1: int, d1: int, y2: int, m2: int, d2: int)
    requires
        is_valid_date(y1, m1, d1),
        is_valid_date(y2, m2, d2),
        epoch_day(y1, m1, d1) == epoch_day(y2, m2, d2),
    ensures
        y1 == y2 && m1 == m2 && d1 == d2,
{
    lemma_year_bounds(y1, m1, d1);
    lemma_year_bounds(y2, m2, d2);
    if y1 < y2 {
        lemma_days_before_year_monotone(y1, y2);
    } else if y2 < y1 {
        lemma_days_before_year_monotone(y2, y1);
    }
    assert(y1 == y2);
    lemma_days_before_month_values(y1);
}

/// `civil_of(z)` is the valid date with day number `z`, and it is what the
/// inverse formula computes.
pub proof fn lemma_civil_of(z: int)
    ensures
        is_valid_date(civil_of(z).0, civil_of(z).1, civil_of(z).2),
        epoch_day(civil_of(z).0, civil_of(z).1, civil_of(z).2) == z,
        civil_of(z) == formula_civil(z),
{
    lemma_formula_civil(z);
    let w = formula_civil(z);
    assert(is_valid_date(w.0, w.1, w.2) && epoch_day(w.0, w.1, w.2) == z);
    let c = civil_of(z);
    lemma_epoch_day_injective(c.0, c.1, c.2, w.0, w.1, w.2);
}

/// Day numbers of the dates in years 1970 to 9999 (day of month up to 31).
pub proof fn lemma_epoch_day_range(y: int, m: int, d: int)
    requires
        1970 <= y <= 9999,
        1 <= m <= 12,
        1 <= d <= 31,
    ensures
        0 <= epoch_day(y, m, d) <= 2932927,
{
    lemma_formula_days(y, m, d);
}

/// The year of day number `z` lies in the 400-year era of `z`.
pub proof fn lemma_civil_year_bounds(z: int)
    ensures
        (z + 719468) / 146097 * 400 <= civil_of(z).0 <= (z + 719468) / 146097 * 400 + 400,
{
    lemma_civil_of(z);
    let zz = z + 719468;
    lemma_fundamental_div_mod(zz, 146097);
    lemma_doe(zz - zz / 146097 * 146097);
}

/// The day numbers 0 to 2932896 are the dates 1970-01-01 to 9999-12-31.
pub proof fn lemma_year_of_day_range(z: int)
    requires
        0 <= z <= 2932896,
    ensures
        1970 <= civil_of(z).0 <= 9999,
{
    lemma_civil_of(z);
    let c = civil_of(z);
    lemma_year_bounds(c.0, c.1, c.2);
    if c.0 < 1970 {
        lemma_days_before_year_monotone(c.0, 1970);
    }
    if c.0 > 9999 {
        lemma_days_before_year_monotone(9999, c.0);
        lemma_formula_year_start(10000);
        assert(formula_days(10000, 1, 1) == 2932897);
    }
}

/// The calendar day after a date.
pub open spec fn next_day(y: int, m: int, d: int) -> (int, int, int) {
    if d < month_length(y, m) {
        (y, m, d + 1)
    } else if m < 12 {
        (y, m + 1, 1)
    } else {
        (y + 1, 1, 1)
    }
}

/// The day after a valid date is a valid date, and its day number is one more.
pub proof fn lemma_next_day(y: int, m: int, d: int)
    requires
        is_valid_date(y, m, d),
    ensures
        is_valid_date(next_day(y, m, d).0, next_day(y, m, d).1, next_day(y, m, d).2),
        epoch_day(next_day(y, m, d).0, next_day(y, m, d).1, next_day(y, m, d).2) == epoch_day(y, m, d) + 1,
{
    lemma_days_before_month_values(y);
    lemma_days_before_year_step(y);
}

/// From 0000-03-01 on, the March-based year of a day number (the year, less
/// one in January and February) is not negative.
pub proof fn lemma_march_year_from_zero(z: int)
    requires
        z + 719468 >= 0,
    ensures
        (if civil_of(z).1 <= 2 { civil_of(z).0 - 1 } else { civil_of(z).0 }) >= 0,
{
    lemma_civil_of(z);
    let zz = z + 719468;
    lemma_fundamental_div_mod(zz, 146097);
    lemma_doe(zz - zz / 146097 * 146097);
}

} // verus!
