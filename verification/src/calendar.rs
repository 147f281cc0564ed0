//! Civil dates: from seconds since the Unix epoch to a UTC date and time.

use vstd::prelude::*;
use vstd::string::*;

use crate::ports::{PortError, Timestamp};
use crate::text::{concat2, decimal, padded, zero_padded};

verus! {

/// A leap year of the Gregorian calendar.
pub open spec fn is_leap(y: int) -> bool {
    y % 4 == 0 && (y % 100 != 0 || y % 400 == 0)
}

/// Number of days in a year.
pub open spec fn year_len(y: int) -> int {
    if is_leap(y) {
        366
    } else {
        365
    }
}

/// Number of days in a month of a year.
pub open spec fn month_len(y: int, m: int) -> int {
    if m == 2 {
        if is_leap(y) {
            29
        } else {
            28
        }
    } else if m == 4 || m == 6 || m == 9 || m == 11 {
        30
    } else {
        31
    }
}

/// Number of days in the months of a year before month `m`.
pub open spec fn days_before_month(y: int, m: int) -> int
    decreases m,
{
    if m <= 1 {
        0
    } else {
        days_before_month(y, m - 1) + month_len(y, m - 1)
    }
}

/// Number of days in the years from year 0 to before year `y`.
pub open spec fn days_before_year(y: int) -> int
    decreases y,
{
    if y <= 0 {
        0
    } else {
        days_before_year(y - 1) + year_len(y - 1)
    }
}

/// A day of the calendar.
pub open spec fn is_date(y: int, m: int, d: int) -> bool {
    0 <= y && 1 <= m <= 12 && 1 <= d <= month_len(y, m)
}

/// Number of days from 1970-01-01 to a date.
pub open spec fn day_number(y: int, m: int, d: int) -> int {
    days_before_year(y) + days_before_month(y, m) + (d - 1) - days_before_year(1970)
}

/// Days before year `y` in closed form.
proof fn lemma_days_before_year(y: int)
    requires
        0 <= y,
    ensures
        days_before_year(y) == 365 * y + (y + 3) / 4 - (y + 99) / 100 + (y + 399) / 400,
    decreases y,
{
    if y > 0 {
        lemma_days_before_year(y - 1);
    }
}

proof fn lemma_months(y: int)
    ensures
        days_before_month(y, 1) == 0,
        days_before_month(y, 2) == 31,
        days_before_month(y, 3) == 31 + month_len(y, 2),
        days_before_month(y, 4) == 62 + month_len(y, 2),
        days_before_month(y, 5) == 92 + month_len(y, 2),
        days_before_month(y, 6) == 123 + month_len(y, 2),
        days_before_month(y, 7) == 153 + month_len(y, 2),
        days_before_month(y, 8) == 184 + month_len(y, 2),
        days_before_month(y, 9) == 215 + month_len(y, 2),
        days_before_month(y, 10) == 245 + month_len(y, 2),
        days_before_month(y, 11) == 276 + month_len(y, 2),
        days_before_month(y, 12) == 306 + month_len(y, 2),
        days_before_month(y, 13) == 337 + month_len(y, 2),
{
    reveal_with_fuel(days_before_month, 13);
}

/// The day number of a date in the year that starts in March of year `y`.
proof fn lemma_march_year(y: int, mp: int, d: int)
    requires
        0 <= y,
        0 <= mp < 12,
    ensures
        ({
            let start = 365 * y + y / 4 - y / 100 + y / 400;
            let doy = (153 * mp + 2) / 5 + d - 1;
            let (year, m) = if mp < 10 {
                (y, mp + 3)
            } else {
                (y + 1, mp - 9)
            };
            day_number(year, m, d) == start + doy - 719_468
        }),
{
    lemma_days_before_year(y);
    lemma_days_before_year(y + 1);
    lemma_days_before_year(1970);
    lemma_months(y);
    lemma_months(y + 1);
    assert((y + 3) / 4 + (if y % 4 == 0 { 1int } else { 0 }) == y / 4 + 1);
    assert((y + 99) / 100 + (if y % 100 == 0 { 1int } else { 0 }) == y / 100 + 1);
    assert((y + 399) / 400 + (if y % 400 == 0 { 1int } else { 0 }) == y / 400 + 1);
    assert(days_before_year(y) + 31 + month_len(y, 2) == 365 * y + y / 4 - y / 100 + y / 400 + 60) by {
        if y % 4 != 0 {
            assert(y % 100 != 0 && y % 400 != 0);
        } else if y % 100 != 0 {
            assert(y % 400 != 0);
        }
    }
    assert(days_before_year(1970) == 719_528);
}

/// The year that starts in March, from its place in an era of 400 years.
proof fn lemma_split(era: int, cent: int, quad: int, yr: int, doq: int, doy: int)
    requires
        0 <= era,
        0 <= cent <= 3,
        0 <= quad <= 24,
        0 <= yr <= 3,
        0 <= doq <= 1460,
        doy == doq - yr * 365,
        0 <= doy <= 365,
        doy == 365 ==> yr == 3 && (quad == 24 ==> cent == 3),
    ensures
        ({
            let y = era * 400 + cent * 100 + quad * 4 + yr;
            &&& 365 * y + y / 4 - y / 100 + y / 400 == era * 146_097 + cent * 36_524 + quad * 1_461
                + yr * 365
            &&& doy == 365 ==> is_leap(y + 1)
        }),
{
    let y = era * 400 + cent * 100 + quad * 4 + yr;
    assert(y / 4 == era * 100 + cent * 25 + quad);
    assert(y / 100 == era * 4 + cent);
    assert(y / 400 == era);
    if doy == 365 {
        assert((y + 1) % 4 == 0);
        if quad == 24 {
            assert((y + 1) % 400 == 0);
        } else {
            assert((y + 1) % 100 == quad * 4 + 4);
        }
    }
}

/// Month and day in a year that starts in March.
proof fn lemma_month_of_day(doy: int)
    requires
        0 <= doy <= 365,
    ensures
        ({
            let mp = (5 * doy + 2) / 153;
            let d = doy - (153 * mp + 2) / 5 + 1;
            &&& 0 <= mp < 12
            &&& 1 <= d
            &&& mp < 10 ==> d <= month_len(0, mp + 3)
            &&& mp == 10 ==> d <= 31
            &&& mp == 11 ==> d <= 29
            &&& mp == 11 && d == 29 ==> doy == 365
        }),
{
}

/// The date `days` days after 1970-01-01.
fn civil_date(days: u64) -> (r: (u64, u32, u32))
    requires
        days <= u64::MAX / 86_400,
    ensures
        is_date(r.0 as int, r.1 as int, r.2 as int),
        day_number(r.0 as int, r.1 as int, r.2 as int) == days,
{
    // Days from 0000-03-01, split into eras of 400 years, centuries, groups of
    // four years, and years; each starts in March.
    let z: u64 = days + 719_468;
    let era: u64 = z / 146_097;
    let doe: u64 = z % 146_097;
    let cent: u64 = if doe / 36_524 < 3 {
        doe / 36_524
    } else {
        3
    };
    let doc: u64 = doe - cent * 36_524;
    let quad: u64 = doc / 1_461;
    let doq: u64 = doc % 1_461;
    let yr: u64 = if doq / 365 < 3 {
        doq / 365
    } else {
        3
    };
    let doy: u64 = doq - yr * 365;
    let y: u64 = era * 400 + cent * 100 + quad * 4 + yr;
    proof {
        lemma_split(era as int, cent as int, quad as int, yr as int, doq as int, doy as int);
        lemma_month_of_day(doy as int);
    }
    let mp: u64 = (5 * doy + 2) / 153;
    let d: u32 = (doy - (153 * mp + 2) / 5 + 1) as u32;
    proof {
        lemma_march_year(y as int, mp as int, d as int);
    }
    if mp < 10 {
        (y, (mp + 3) as u32, d)
    } else {
        (y + 1, (mp - 9) as u32, d)
    }
}

/// Unix seconds as a UTC date and time: year (kept to 32 bits), month, day,
/// hour, minute, second.
pub fn civil_utc(secs: u64) -> (r: (i32, u32, u32, u32, u32, u32))
    ensures
        is_civil_time(r, secs as int),
{
    let (year, m, d): (u64, u32, u32) = civil_date(secs / 86_400);
    let y: i32 = #[verifier::truncate] (year as i32);
    let hh: u32 = (secs / 3600 % 24) as u32;
    let mm: u32 = (secs / 60 % 60) as u32;
    let ss: u32 = (secs % 60) as u32;
    let r: (i32, u32, u32, u32, u32, u32) = (y, m, d, hh, mm, ss);
    proof {
        let w = year as int;
        assert(r.0 == w as i32);
        assert(is_date(w, r.1 as int, r.2 as int));
        assert(day_number(w, r.1 as int, r.2 as int) == secs as int / 86_400);
        assert(r.3 == secs as int / 3600 % 24);
        assert(r.4 == secs as int / 60 % 60);
        assert(r.5 == secs as int % 60);
    }
    r
}

proof fn lemma_year_gap(a: int, b: int)
    requires
        0 <= a < b,
    ensures
        days_before_year(a) + year_len(a) <= days_before_year(b),
    decreases b - a,
{
    if a + 1 < b {
        lemma_year_gap(a + 1, b);
    }
}

proof fn lemma_month_gap(y: int, a: int, b: int)
    requires
        1 <= a < b,
    ensures
        days_before_month(y, a) + month_len(y, a) <= days_before_month(y, b),
    decreases b - a,
{
    if a + 1 < b {
        lemma_month_gap(y, a + 1, b);
    }
}

proof fn lemma_in_year(y: int, m: int, d: int)
    requires
        is_date(y, m, d),
    ensures
        0 <= days_before_month(y, m) + (d - 1) < year_len(y),
{
    lemma_months(y);
    if m < 12 {
        lemma_month_gap(y, m, 12);
    }
    if m > 1 {
        lemma_month_gap(y, 1, m);
    }
}

/// A day number belongs to one date only: the date of a day is unique.
pub proof fn day_number_is_unique(y1: int, m1: int, d1: int, y2: int, m2: int, d2: int)
    requires
        is_date(y1, m1, d1),
        is_date(y2, m2, d2),
        day_number(y1, m1, d1) == day_number(y2, m2, d2),
    ensures
        y1 == y2 && m1 == m2 && d1 == d2,
{
    lemma_in_year(y1, m1, d1);
    lemma_in_year(y2, m2, d2);
    if y1 < y2 {
        lemma_year_gap(y1, y2);
    } else if y2 < y1 {
        lemma_year_gap(y2, y1);
    }
    if m1 < m2 {
        lemma_month_gap(y1, m1, m2);
    } else if m2 < m1 {
        lemma_month_gap(y1, m2, m1);
    }
}

/// An integer with zeros up to a width, which a minus sign counts toward.
pub open spec fn padded_int(i: int, width: nat) -> Seq<char> {
    if i < 0 {
        "-"@ + zero_padded(
            decimal((-i) as nat),
            if width > 0 {
                (width - 1) as nat
            } else {
                0
            },
        )
    } else {
        zero_padded(decimal(i as nat), width)
    }
}

fn pad_int(i: i32, width: usize) -> (r: String)
    ensures
        r@ == padded_int(i as int, width as nat),
{
    if i < 0 {
        let m: u64 = (-(i as i64)) as u64;
        let w: usize = if width > 0 {
            width - 1
        } else {
            0
        };
        concat2("-", padded(m, w).as_str())
    } else {
        padded(i as u64, width)
    }
}

/// `YYYYMMDD-HHMMSS`.
pub open spec fn stamp_text(t: (i32, u32, u32, u32, u32, u32)) -> Seq<char> {
    padded_int(t.0 as int, 4) + zero_padded(decimal(t.1 as nat), 2) + zero_padded(
        decimal(t.2 as nat),
        2,
    ) + "-"@ + zero_padded(decimal(t.3 as nat), 2) + zero_padded(decimal(t.4 as nat), 2)
        + zero_padded(decimal(t.5 as nat), 2)
}

/// `t` is the UTC date and time of Unix second `secs`.
pub open spec fn is_civil_time(t: (i32, u32, u32, u32, u32, u32), secs: int) -> bool {
    &&& exists|year: int|
        {
            &&& t.0 == year as i32
            &&& is_date(year, t.1 as int, t.2 as int)
            &&& #[trigger] day_number(year, t.1 as int, t.2 as int) == secs / 86_400
        }
    &&& t.3 == secs / 3600 % 24
    &&& t.4 == secs / 60 % 60
    &&& t.5 == secs % 60
}

/// The stamp of an instant: its UTC date and time.
pub open spec fn is_stamp(s: Seq<char>, secs: int) -> bool {
    exists|t: (i32, u32, u32, u32, u32, u32)|
        is_civil_time(t, secs) && s == #[trigger] stamp_text(t)
}

/// The message for an instant before the epoch.
pub open spec fn before_epoch() -> Seq<char> {
    "clock before epoch: second time provided was later than self"@
}

/// The stamp of `now` for file names; an instant before the epoch has none.
pub fn format_timestamp(now: Timestamp) -> (r: Result<String, PortError>)
    ensures
        match now.unix_secs() {
            Some(secs) => r is Ok && is_stamp(r->Ok_0@, secs),
            None => r matches Err(PortError::Other(m)) && m@ == before_epoch(),
        },
{
    match now.unix_seconds() {
        None => Err(
            PortError::Other(
                "clock before epoch: second time provided was later than self".to_owned(),
            ),
        ),
        Some(secs) => {
            let t: (i32, u32, u32, u32, u32, u32) = civil_utc(secs);
            let mut s = pad_int(t.0, 4);
            s.append(padded(t.1 as u64, 2).as_str());
            s.append(padded(t.2 as u64, 2).as_str());
            s.append("-");
            s.append(padded(t.3 as u64, 2).as_str());
            s.append(padded(t.4 as u64, 2).as_str());
            s.append(padded(t.5 as u64, 2).as_str());
            assert(is_civil_time(t, secs as int));
            assert(s@ == stamp_text(t));
            Ok(s)
        },
    }
}

/// The stamp of an instant is unique.
pub proof fn stamp_is_unique(a: Seq<char>, b: Seq<char>, secs: int)
    requires
        is_stamp(a, secs),
        is_stamp(b, secs),
    ensures
        a == b,
{
    let t = choose|t: (i32, u32, u32, u32, u32, u32)|
        is_civil_time(t, secs) && a == #[trigger] stamp_text(t);
    let u = choose|u: (i32, u32, u32, u32, u32, u32)|
        is_civil_time(u, secs) && b == #[trigger] stamp_text(u);
    let y = choose|y: int|
        t.0 == y as i32 && is_date(y, t.1 as int, t.2 as int) && #[trigger] day_number(
            y,
            t.1 as int,
            t.2 as int,
        ) == secs / 86_400;
    let z = choose|z: int|
        u.0 == z as i32 && is_date(z, u.1 as int, u.2 as int) && #[trigger] day_number(
            z,
            u.1 as int,
            u.2 as int,
        ) == secs / 86_400;
    day_number_is_unique(y, t.1 as int, t.2 as int, z, u.1 as int, u.2 as int);
}

} // verus!
