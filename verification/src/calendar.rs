//! Proleptic Gregorian calendar arithmetic over the years 0 through 9999.
//!
//! Dates are measured as a day index counted from 0000-01-01; instants as
//! signed seconds since the Unix epoch, 1970-01-01T00:00:00 UTC.

use vstd::prelude::*;

verus! {

pub open spec fn is_leap_year(y: int) -> bool {
    (y % 4 == 0 && y % 100 != 0) || y % 400 == 0
}

pub open spec fn days_in_year(y: int) -> int {
    if is_leap_year(y) {
        366
    } else {
        365
    }
}

pub open spec fn days_in_month(y: int, m: int) -> int {
    if m == 2 {
        if is_leap_year(y) {
            29
        } else {
            28
        }
    } else if m == 4 || m == 6 || m == 9 || m == 11 {
        30
    } else {
        31
    }
}

/// Days from 0000-01-01 up to y-01-01.
pub open spec fn days_before_year(y: int) -> int
    decreases y,
{
    if y <= 0 {
        0
    } else {
        days_before_year(y - 1) + days_in_year(y - 1)
    }
}

/// Days from y-01-01 up to the first day of month m of year y.
pub open spec fn days_before_month(y: int, m: int) -> int
    decreases m,
{
    if m <= 1 {
        0
    } else {
        days_before_month(y, m - 1) + days_in_month(y, m - 1)
    }
}

/// Day index of the date y-m-d, counted from 0000-01-01.
pub open spec fn day_index(y: int, m: int, d: int) -> int {
    days_before_year(y) + days_before_month(y, m) + (d - 1)
}

/// Day index of 1970-01-01, the Unix epoch.
pub open spec fn epoch_day_index() -> int {
    days_before_year(1970)
}

pub open spec fn valid_date(y: int, m: int, d: int) -> bool {
    0 <= y <= 9999 && 1 <= m <= 12 && 1 <= d <= days_in_month(y, m)
}

pub open spec fn valid_time(h: int, mi: int, s: int) -> bool {
    0 <= h < 24 && 0 <= mi < 60 && 0 <= s < 60
}

/// Epoch seconds of a civil date-time read as UTC.
pub open spec fn civil_to_epoch(y: int, m: int, d: int, h: int, mi: int, s: int) -> int {
    (day_index(y, m, d) - epoch_day_index()) * 86400 + h * 3600 + mi * 60 + s
}

/// Weekday of a day index, 0 = Sunday through 6 = Saturday.
/// Day 0, 0000-01-01, was a Saturday.
pub open spec fn weekday_of(di: int) -> int {
    (di + 6) % 7
}

/// Least representable instant, 0000-01-01T00:00:00Z.
pub open spec fn min_epoch() -> int {
    -epoch_day_index() * 86400
}

/// Greatest representable instant, 9999-12-31T23:59:59Z.
pub open spec fn max_epoch() -> int {
    (days_before_year(10000) - epoch_day_index()) * 86400 - 1
}

pub proof fn lemma_days_before_year_bounds(y: int)
    requires
        0 <= y,
    ensures
        365 * y <= days_before_year(y) <= 366 * y,
    decreases y,
{
    if y > 0 {
        lemma_days_before_year_bounds(y - 1);
    }
}

pub proof fn lemma_days_before_year_monotonic(a: int, b: int)
    requires
        0 <= a <= b,
    ensures
        days_before_year(a) <= days_before_year(b),
    decreases b - a,
{
    if a < b {
        lemma_days_before_year_monotonic(a, b - 1);
    }
}

pub fn is_leap_year_x(y: i64) -> (r: bool)
    requires
        0 <= y,
    ensures
        r == is_leap_year(y as int),
{
    (y % 4 == 0 && y % 100 != 0) || y % 400 == 0
}

pub fn days_in_year_x(y: i64) -> (r: i64)
    requires
        0 <= y,
    ensures
        r == days_in_year(y as int),
{
    if is_leap_year_x(y) {
        366
    } else {
        365
    }
}

pub fn days_in_month_x(y: i64, m: i64) -> (r: i64)
    requires
        0 <= y,
        1 <= m <= 12,
    ensures
        r == days_in_month(y as int, m as int),
{
    if m == 2 {
        if is_leap_year_x(y) {
            29
        } else {
            28
        }
    } else if m == 4 || m == 6 || m == 9 || m == 11 {
        30
    } else {
        31
    }
}

pub fn days_before_year_x(y: i64) -> (r: i64)
    requires
        0 <= y <= 10000,
    ensures
        r == days_before_year(y as int),
{
    let mut i: i64 = 0;
    let mut acc: i64 = 0;
    while i < y
        invariant
            0 <= i <= y <= 10000,
            acc == days_before_year(i as int),
            acc <= 366 * i,
        decreases y - i,
    {
        acc = acc + days_in_year_x(i);
        i = i + 1;
    }
    acc
}

pub fn days_before_month_x(y: i64, m: i64) -> (r: i64)
    requires
        0 <= y,
        1 <= m <= 13,
    ensures
        r == days_before_month(y as int, m as int),
{
    let mut i: i64 = 1;
    let mut acc: i64 = 0;
    while i < m
        invariant
            0 <= y,
            1 <= i <= m <= 13,
            acc == days_before_month(y as int, i as int),
            acc <= 31 * i,
        decreases m - i,
    {
        acc = acc + days_in_month_x(y, i);
        i = i + 1;
    }
    acc
}

pub fn day_index_x(y: i64, m: i64, d: i64) -> (r: i64)
    requires
        valid_date(y as int, m as int, d as int),
    ensures
        r == day_index(y as int, m as int, d as int),
        0 <= r < days_before_year(10000),
{
    proof {
        lemma_days_before_year_bounds(y as int);
        lemma_days_before_year_monotonic(y as int + 1, 10000);
        assert(days_before_year(y as int + 1) == days_before_year(y as int) + days_in_year(
            y as int,
        ));
        lemma_day_in_year_bound(y as int, m as int, d as int);
    }
    days_before_year_x(y) + days_before_month_x(y, m) + (d - 1)
}

/// Within its year, a valid date's day offset lies below the year's length.
pub proof fn lemma_day_in_year_bound(y: int, m: int, d: int)
    requires
        valid_date(y, m, d),
    ensures
        0 <= days_before_month(y, m) + (d - 1) < days_in_year(y),
{
    lemma_days_before_month_full(y);
    lemma_days_before_month_le(y, 1, m);
    assert(days_before_month(y, m + 1) == days_before_month(y, m) + days_in_month(y, m));
    lemma_days_before_month_le(y, m + 1, 13);
}

/// The twelve months of year y sum to the length of year y.
pub proof fn lemma_days_before_month_full(y: int)
    ensures
        days_before_month(y, 13) == days_in_year(y),
{
    reveal_with_fuel(days_before_month, 14);
}

pub proof fn lemma_days_before_month_le(y: int, a: int, b: int)
    requires
        1 <= a <= b,
    ensures
        days_before_month(y, a) <= days_before_month(y, b),
    decreases b - a,
{
    if a < b {
        lemma_days_before_month_le(y, a, b - 1);
    }
}

/// Epoch seconds of a valid civil date-time read as UTC.
pub fn epoch_from_civil_x(y: i64, m: i64, d: i64, h: i64, mi: i64, s: i64) -> (r: i64)
    requires
        valid_date(y as int, m as int, d as int),
        valid_time(h as int, mi as int, s as int),
    ensures
        r == civil_to_epoch(y as int, m as int, d as int, h as int, mi as int, s as int),
        min_epoch() <= r <= max_epoch(),
{
    let di = day_index_x(y, m, d);
    let eday = days_before_year_x(1970);
    proof {
        lemma_days_before_year_bounds(10000);
        lemma_days_before_year_bounds(1970);
        lemma_days_before_year_monotonic(0, 1970);
        assert((di - eday) * 86400 <= (days_before_year(10000) - 1 - eday) * 86400);
        assert(0 - eday * 86400 <= (di - eday) * 86400);
    }
    (di - eday) * 86400 + h * 3600 + mi * 60 + s
}

pub fn weekday_x(di: i64) -> (r: i64)
    requires
        0 <= di <= 3660000,
    ensures
        r == weekday_of(di as int),
{
    (di + 6) % 7
}

pub fn min_epoch_x() -> (r: i64)
    ensures
        r == min_epoch(),
{
    proof {
        lemma_days_before_year_bounds(1970);
    }
    let eday = days_before_year_x(1970);
    -(eday * 86400)
}

pub fn max_epoch_x() -> (r: i64)
    ensures
        r == max_epoch(),
{
    proof {
        lemma_days_before_year_bounds(10000);
        lemma_days_before_year_bounds(1970);
        lemma_days_before_year_monotonic(1970, 10000);
    }
    let eday = days_before_year_x(1970);
    let total = days_before_year_x(10000);
    (total - eday) * 86400 - 1
}

/// A civil date-time, at spec level.
pub ghost struct Civil {
    pub year: int,
    pub month: int,
    pub day: int,
    pub hour: int,
    pub minute: int,
    pub second: int,
}

/// The year whose first day lies at or before day index di, searching up from y.
pub open spec fn year_from(di: int, y: int) -> int
    decreases 10000 - y,
{
    if y >= 9999 || days_before_year(y + 1) > di {
        y
    } else {
        year_from(di, y + 1)
    }
}

/// The month of year y whose first day lies at or before day offset dy, searching up from m.
pub open spec fn month_from(y: int, dy: int, m: int) -> int
    decreases 12 - m,
{
    if m >= 12 || days_before_month(y, m + 1) > dy {
        m
    } else {
        month_from(y, dy, m + 1)
    }
}

/// The civil UTC date-time of an instant.
pub open spec fn civil_of_epoch(t: int) -> Civil {
    let u = t + epoch_day_index() * 86400;
    let di = u / 86400;
    let sod = u % 86400;
    let y = year_from(di, 0);
    let dy = di - days_before_year(y);
    let m = month_from(y, dy, 1);
    let d = dy - days_before_month(y, m) + 1;
    Civil {
        year: y,
        month: m,
        day: d,
        hour: sod / 3600,
        minute: (sod % 3600) / 60,
        second: (sod % 3600) % 60,
    }
}

proof fn lemma_year_from(di: int, y: int)
    requires
        0 <= y <= 9999,
        days_before_year(y) <= di < days_before_year(10000),
    ensures
        ({
            let r = year_from(di, y);
            y <= r <= 9999 && days_before_year(r) <= di < days_before_year(r + 1)
        }),
    decreases 10000 - y,
{
    if y >= 9999 || days_before_year(y + 1) > di {
    } else {
        lemma_year_from(di, y + 1);
    }
}

proof fn lemma_month_from(y: int, dy: int, m: int)
    requires
        1 <= m <= 12,
        days_before_month(y, m) <= dy < days_in_year(y),
        days_before_month(y, 13) == days_in_year(y),
    ensures
        ({
            let r = month_from(y, dy, m);
            m <= r <= 12 && days_before_month(y, r) <= dy < days_before_month(y, r + 1)
        }),
    decreases 12 - m,
{
    if m >= 12 || days_before_month(y, m + 1) > dy {
    } else {
        lemma_month_from(y, dy, m + 1);
    }
}

/// On the representable range, the civil reading of an instant is a valid
/// date-time that maps back to the same instant.
pub proof fn lemma_civil_of_epoch(t: int)
    requires
        min_epoch() <= t <= max_epoch(),
    ensures
        ({
            let c = civil_of_epoch(t);
            valid_date(c.year, c.month, c.day) && valid_time(c.hour, c.minute, c.second)
                && civil_to_epoch(c.year, c.month, c.day, c.hour, c.minute, c.second) == t
        }),
{
    lemma_days_before_year_bounds(1970);
    lemma_days_before_year_bounds(10000);
    lemma_days_before_year_monotonic(1970, 10000);
    let u = t + epoch_day_index() * 86400;
    assert(0 <= u < days_before_year(10000) * 86400);
    vstd::arithmetic::div_mod::lemma_fundamental_div_mod(u, 86400);
    vstd::arithmetic::div_mod::lemma_mod_bound(u, 86400);
    let di = u / 86400;
    let sod = u % 86400;
    assert(0 <= di < days_before_year(10000)) by (nonlinear_arith)
        requires
            u == 86400 * di + sod,
            0 <= sod < 86400,
            0 <= u < days_before_year(10000) * 86400,
    ;
    lemma_year_from(di, 0);
    let y = year_from(di, 0);
    let dy = di - days_before_year(y);
    assert(days_before_year(y + 1) == days_before_year(y) + days_in_year(y));
    lemma_days_before_month_full(y);
    lemma_month_from(y, dy, 1);
    let m = month_from(y, dy, 1);
    assert(days_before_month(y, m + 1) == days_before_month(y, m) + days_in_month(y, m));
    vstd::arithmetic::div_mod::lemma_fundamental_div_mod(sod, 3600);
    vstd::arithmetic::div_mod::lemma_mod_bound(sod, 3600);
    vstd::arithmetic::div_mod::lemma_fundamental_div_mod(sod % 3600, 60);
    vstd::arithmetic::div_mod::lemma_mod_bound(sod % 3600, 60);
    assert((di - epoch_day_index()) * 86400 + sod == t) by (nonlinear_arith)
        requires
            u == 86400 * di + sod,
            u == t + epoch_day_index() * 86400,
    ;
}

/// A civil date-time, as executable data.
pub struct CivilTime {
    pub year: i64,
    pub month: i64,
    pub day: i64,
    pub hour: i64,
    pub minute: i64,
    pub second: i64,
}

impl CivilTime {
    pub open spec fn matches(self, g: Civil) -> bool {
        self.year == g.year && self.month == g.month && self.day == g.day && self.hour == g.hour
            && self.minute == g.minute && self.second == g.second
    }
}

/// The civil UTC date-time of a representable instant; it is valid and maps
/// back to the same instant.
pub fn epoch_to_civil_x(t: i64) -> (c: CivilTime)
    requires
        min_epoch() <= t <= max_epoch(),
    ensures
        c.matches(civil_of_epoch(t as int)),
        valid_date(c.year as int, c.month as int, c.day as int),
        valid_time(c.hour as int, c.minute as int, c.second as int),
        civil_to_epoch(
            c.year as int,
            c.month as int,
            c.day as int,
            c.hour as int,
            c.minute as int,
            c.second as int,
        ) == t,
{
    proof {
        lemma_days_before_year_bounds(1970);
        lemma_days_before_year_bounds(10000);
        lemma_days_before_year_monotonic(1970, 10000);
    }
    let eday = days_before_year_x(1970);
    let u: i64 = t + eday * 86400;
    let uu: u64 = u as u64;
    let di: i64 = (uu / 86400) as i64;
    let sod: i64 = (uu % 86400) as i64;
    proof {
        vstd::arithmetic::div_mod::lemma_fundamental_div_mod(u as int, 86400);
        vstd::arithmetic::div_mod::lemma_mod_bound(u as int, 86400);
        assert(di as int == (u as int) / 86400 && sod as int == (u as int) % 86400);
        assert((u as int) < days_before_year(10000) * 86400);
        assert(di < days_before_year(10000)) by (nonlinear_arith)
            requires
                u as int == 86400 * (di as int) + sod as int,
                0 <= sod < 86400,
                (u as int) < days_before_year(10000) * 86400,
        ;
    }
    let mut y: i64 = 0;
    let mut acc: i64 = 0;
    loop
        invariant
            0 <= y <= 9999,
            acc == days_before_year(y as int),
            acc <= di,
            0 <= di < days_before_year(10000),
            days_before_year(10000) <= 3660000,
            year_from(di as int, 0) == year_from(di as int, y as int),
        ensures
            0 <= y <= 9999,
            acc == days_before_year(y as int),
            y as int == year_from(di as int, 0),
            days_before_year(y as int) <= di < days_before_year(y as int + 1),
        decreases 10000 - y,
    {
        let dy = days_in_year_x(y);
        if y >= 9999 || acc + dy > di {
            proof {
                assert(days_before_year(y as int + 1) == days_before_year(y as int) + days_in_year(
                    y as int,
                ));
                if y < 9999 {
                    assert(year_from(di as int, y as int) == y as int);
                } else {
                    lemma_days_before_year_monotonic(y as int + 1, 10000);
                    assert(year_from(di as int, y as int) == y as int);
                }
            }
            break ;
        }
        proof {
            assert(days_before_year(y as int + 1) == days_before_year(y as int) + days_in_year(
                y as int,
            ));
            assert(year_from(di as int, y as int) == year_from(di as int, y as int + 1));
        }
        acc = acc + dy;
        y = y + 1;
    }
    let dy_off: i64 = di - acc;
    proof {
        assert(days_before_year(y as int + 1) == days_before_year(y as int) + days_in_year(
            y as int,
        ));
        assert(0 <= dy_off < days_in_year(y as int));
        lemma_days_before_month_full(y as int);
    }
    let mut m: i64 = 1;
    let mut macc: i64 = 0;
    loop
        invariant
            1 <= m <= 12,
            0 <= y <= 9999,
            macc == days_before_month(y as int, m as int),
            macc <= dy_off,
            0 <= dy_off < days_in_year(y as int),
            days_before_month(y as int, 13) == days_in_year(y as int),
            month_from(y as int, dy_off as int, 1) == month_from(y as int, dy_off as int, m as int),
        ensures
            1 <= m <= 12,
            macc == days_before_month(y as int, m as int),
            m as int == month_from(y as int, dy_off as int, 1),
            days_before_month(y as int, m as int) <= dy_off < days_before_month(
                y as int,
                m as int + 1,
            ),
        decreases 12 - m,
    {
        let dim = days_in_month_x(y, m);
        if m >= 12 || macc + dim > dy_off {
            proof {
                assert(days_before_month(y as int, m as int + 1) == days_before_month(
                    y as int,
                    m as int,
                ) + days_in_month(y as int, m as int));
                assert(month_from(y as int, dy_off as int, m as int) == m as int);
            }
            break ;
        }
        proof {
            assert(days_before_month(y as int, m as int + 1) == days_before_month(
                y as int,
                m as int,
            ) + days_in_month(y as int, m as int));
            assert(month_from(y as int, dy_off as int, m as int) == month_from(
                y as int,
                dy_off as int,
                m as int + 1,
            ));
        }
        macc = macc + dim;
        m = m + 1;
    }
    let d: i64 = dy_off - macc + 1;
    proof {
        assert(days_before_month(y as int, m as int + 1) == days_before_month(y as int, m as int)
            + days_in_month(y as int, m as int));
        assert(1 <= d <= days_in_month(y as int, m as int));
    }
    let sodu: u64 = sod as u64;
    let h: i64 = (sodu / 3600) as i64;
    let r1: u64 = sodu % 3600;
    let mi: i64 = (r1 / 60) as i64;
    let s: i64 = (r1 % 60) as i64;
    proof {
        vstd::arithmetic::div_mod::lemma_fundamental_div_mod(sod as int, 3600);
        vstd::arithmetic::div_mod::lemma_mod_bound(sod as int, 3600);
        vstd::arithmetic::div_mod::lemma_fundamental_div_mod((sod as int) % 3600, 60);
        vstd::arithmetic::div_mod::lemma_mod_bound((sod as int) % 3600, 60);
        assert(0 <= h < 24 && 0 <= mi < 60 && 0 <= s < 60);
        assert(day_index(y as int, m as int, d as int) == di as int);
        assert((h as int) * 3600 + (mi as int) * 60 + s as int == sod as int);
        assert((di as int - epoch_day_index()) * 86400 + sod as int == t) by (nonlinear_arith)
            requires
                u as int == 86400 * (di as int) + sod as int,
                u as int == t + epoch_day_index() * 86400,
        ;
    }
    CivilTime { year: y, month: m, day: d, hour: h, minute: mi, second: s }
}

} // verus!
