//! Laws of the calendar: that days follow each other, and how a stamp reads.

use vstd::prelude::*;
use vstd::string::*;

use crate::calendar::{
    day_number, days_before_month, days_before_year, is_date, is_leap, month_len, padded_int,
    stamp_text, year_len,
};
use crate::text::{decimal, digit_char, zero_padded};

verus! {

/// Each month has its days, and the months of a year those of the year: one more in
/// every fourth year, but in a hundredth only if it is a four hundredth.
pub proof fn a_year_has_its_days(y: int, m: int)
    requires
        1 <= m <= 12,
    ensures
        year_len(y) == (if y % 400 == 0 || (y % 4 == 0 && y % 100 != 0) {
            366int
        } else {
            365
        }),
        days_before_month(y, 13) == year_len(y),
        m == 2 ==> month_len(y, m) == year_len(y) - 337,
        m == 4 || m == 6 || m == 9 || m == 11 ==> month_len(y, m) == 30,
        m != 2 && m != 4 && m != 6 && m != 9 && m != 11 ==> month_len(y, m) == 31,
{
    reveal_with_fuel(days_before_month, 13);
    if y % 400 == 0 {
        assert(y % 4 == 0);
    }
}

/// Days follow each other: within a month, from one month to the next, and from one year
/// to the next. They are counted from the first day of 1970.
pub proof fn days_follow_each_other(y: int, m: int, d: int)
    requires
        is_date(y, m, d),
    ensures
        d < month_len(y, m) ==> is_date(y, m, d + 1) && day_number(y, m, d + 1) == day_number(
            y,
            m,
            d,
        ) + 1,
        d == month_len(y, m) && m < 12 ==> is_date(y, m + 1, 1) && day_number(y, m + 1, 1)
            == day_number(y, m, d) + 1,
        d == month_len(y, m) && m == 12 ==> is_date(y + 1, 1, 1) && day_number(y + 1, 1, 1)
            == day_number(y, m, d) + 1,
        day_number(1970, 1, 1) == 0,
{
    if d == month_len(y, m) && m < 12 {
        assert(days_before_month(y, m + 1) == days_before_month(y, m) + month_len(y, m));
    }
    if m == 12 {
        a_year_has_its_days(y, 12);
        assert(days_before_month(y, 13) == days_before_month(y, 12) + month_len(y, 12));
        assert(days_before_year(y + 1) == days_before_year(y) + year_len(y));
        assert(days_before_month(y + 1, 1) == 0);
    }
    assert(days_before_month(1970, 1) == 0);
}

proof fn lemma_before_year(y: int)
    requires
        0 <= y,
    ensures
        days_before_year(y) == 365 * y + (y + 3) / 4 - (y + 99) / 100 + (y + 399) / 400,
    decreases y,
{
    if y > 0 {
        lemma_before_year(y - 1);
        a_year_has_its_days(y - 1, 1);
    }
}

/// The calendar repeats itself after four hundred years, which are 146097 days.
pub proof fn the_calendar_repeats(y: int, m: int, d: int)
    requires
        is_date(y, m, d),
    ensures
        is_date(y + 400, m, d),
        day_number(y + 400, m, d) == day_number(y, m, d) + 146_097,
{
    lemma_era(y);
    lemma_same_months(y, m);
}

proof fn lemma_era(y: int)
    requires
        0 <= y,
    ensures
        days_before_year(y + 400) == days_before_year(y) + 146_097,
        is_leap(y) == is_leap(y + 400),
{
    lemma_before_year(y);
    lemma_before_year(y + 400);
    assert((y + 403) / 4 == (y + 3) / 4 + 100);
    assert((y + 499) / 100 == (y + 99) / 100 + 4);
    assert((y + 799) / 400 == (y + 399) / 400 + 1);
    assert((y + 400) % 4 == y % 4);
    assert((y + 400) % 100 == y % 100);
    assert((y + 400) % 400 == y % 400);
}

proof fn lemma_same_months(y: int, m: int)
    requires
        is_leap(y) == is_leap(y + 400),
    ensures
        days_before_month(y, m) == days_before_month(y + 400, m),
    decreases m,
{
    if m > 1 {
        lemma_same_months(y, m - 1);
    }
}

/// `n` with two digits.
pub open spec fn two_digits(n: int) -> Seq<char> {
    seq![digit_char((n / 10) as nat), digit_char((n % 10) as nat)]
}

proof fn lemma_two(n: nat)
    requires
        n < 100,
    ensures
        zero_padded(decimal(n), 2) == two_digits(n as int),
{
    if n < 10 {
        assert(decimal(n) == seq![digit_char(n)]);
        assert(digit_char(0) == '0');
        assert(zero_padded(decimal(n), 2) =~= two_digits(n as int));
    } else {
        assert(decimal(n / 10) == seq![digit_char(n / 10)]);
        assert(decimal(n) =~= two_digits(n as int));
    }
}

proof fn lemma_four(n: nat)
    requires
        n < 10_000,
    ensures
        zero_padded(decimal(n), 4) == two_digits(n as int / 100) + two_digits(n as int % 100),
{
    let all = two_digits(n as int / 100) + two_digits(n as int % 100);
    assert(digit_char(0) == '0');
    let tens = (n / 10) as nat;
    let hundreds = (n / 100) as nat;
    let thousands = (n / 1000) as nat;
    assert(tens / 10 == hundreds && hundreds / 10 == thousands);
    assert((n as int % 100) / 10 == tens % 10);
    assert((n as int % 100) % 10 == n % 10);
    assert((n as int / 100) / 10 == thousands);
    assert((n as int / 100) % 10 == hundreds % 10);
    if n < 10 {
        assert(decimal(n) == seq![digit_char(n)]);
        assert(zero_padded(decimal(n), 4) =~= all);
    } else if n < 100 {
        assert(decimal(tens) == seq![digit_char(tens)]);
        assert(decimal(n) =~= seq![digit_char(tens), digit_char(n % 10)]);
        assert(zero_padded(decimal(n), 4) =~= all);
    } else if n < 1000 {
        assert(decimal(hundreds) == seq![digit_char(hundreds)]);
        assert(decimal(tens) =~= seq![digit_char(hundreds), digit_char(tens % 10)]);
        assert(decimal(n) =~= seq![
            digit_char(hundreds),
            digit_char(tens % 10),
            digit_char(n % 10),
        ]);
        assert(zero_padded(decimal(n), 4) =~= all);
    } else {
        assert(decimal(thousands) == seq![digit_char(thousands)]);
        assert(decimal(hundreds) =~= seq![digit_char(thousands), digit_char(hundreds % 10)]);
        assert(decimal(tens) =~= seq![
            digit_char(thousands),
            digit_char(hundreds % 10),
            digit_char(tens % 10),
        ]);
        assert(decimal(n) =~= all);
        assert(zero_padded(decimal(n), 4) =~= all);
    }
}

/// A stamp reads as year, month and day, a hyphen, hours, minutes and seconds, with four
/// digits for the year and two for each of the others.
pub proof fn a_stamp_reads_from_year_to_second(t: (i32, u32, u32, u32, u32, u32))
    requires
        0 <= t.0 < 10_000,
        t.1 < 100 && t.2 < 100 && t.3 < 100 && t.4 < 100 && t.5 < 100,
    ensures
        stamp_text(t) == two_digits(t.0 as int / 100) + two_digits(t.0 as int % 100) + two_digits(
            t.1 as int,
        ) + two_digits(t.2 as int) + seq!['-'] + two_digits(t.3 as int) + two_digits(t.4 as int)
            + two_digits(t.5 as int),
        stamp_text(t).len() == 15,
{
    lemma_four(t.0 as nat);
    lemma_two(t.1 as nat);
    lemma_two(t.2 as nat);
    lemma_two(t.3 as nat);
    lemma_two(t.4 as nat);
    lemma_two(t.5 as nat);
    reveal_strlit("-");
    assert("-"@ =~= seq!['-']);
    assert(padded_int(t.0 as int, 4) == two_digits(t.0 as int / 100) + two_digits(
        t.0 as int % 100,
    ));
}

} // verus!
