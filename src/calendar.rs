//! Proleptic Gregorian calendar arithmetic on plain integers.

use vstd::prelude::*;
use chrono::Datelike;

verus! {

/// Earliest year that the calendar accepts.
pub const MIN_YEAR: i32 = -262143;

/// Latest year that the calendar accepts.
pub const MAX_YEAR: i32 = 262142;

/// Day number of January 1 of `MIN_YEAR`.
pub const MIN_DAY: i32 = -95746129;

/// Day number of December 31 of `MAX_YEAR`.
pub const MAX_DAY: i32 = 95745399;

/// A calendar date without a time component.
#[derive(Clone, Copy, Debug, PartialEq, Eq, Structural)]
pub struct Date {
    pub year: i32,
    pub month: u32,
    pub day: u32,
}

pub open spec fn is_leap_year(y: int) -> bool {
    y % 4 == 0 && (y % 100 != 0 || y % 400 == 0)
}

/// Number of days in month `m` (1 to 12) of year `y`.
pub open spec fn month_length(y: int, m: int) -> int {
    if m == 2 {
        if is_leap_year(y) { 29 } else { 28 }
    } else if m == 4 || m == 6 || m == 9 || m == 11 {
        30
    } else {
        31
    }
}

/// Days of the years before year `y`, counted from January 1 of year 1.
pub open spec fn days_before_year(y: int) -> int {
    365 * (y - 1) + (y - 1) / 4 - (y - 1) / 100 + (y - 1) / 400
}

/// Days of the months of year `y` before month `m`.
pub open spec fn days_before_month(y: int, m: int) -> int
    decreases m,
{
    if m <= 1 {
        0
    } else {
        days_before_month(y, m - 1) + month_length(y, m - 1)
    }
}

/// Day number of a date: January 1 of year 1 is day 1.
pub open spec fn day_num(y: int, m: int, d: int) -> int {
    days_before_year(y) + days_before_month(y, m) + d
}

/// Months counted from January of year 0.
pub open spec fn month_index(y: int, m: int) -> int {
    y * 12 + m - 1
}

pub open spec fn year_of_index(mi: int) -> int {
    mi / 12
}

pub open spec fn month_of_index(mi: int) -> int {
    mi % 12 + 1
}

/// Day number of the first day of the month with index `mi`.
pub open spec fn first_day(mi: int) -> int {
    day_num(year_of_index(mi), month_of_index(mi), 1)
}

/// Length of the month with index `mi`.
pub open spec fn index_month_length(mi: int) -> int {
    month_length(year_of_index(mi), month_of_index(mi))
}

/// The index of the month that holds day number `n`.
pub open spec fn month_index_of_day(n: int) -> int {
    choose|mi: int| #[trigger] first_day(mi) <= n < first_day(mi + 1)
}

impl Date {
    pub open spec fn wf(self) -> bool {
        &&& MIN_YEAR <= self.year <= MAX_YEAR
        &&& 1 <= self.month <= 12
        &&& 1 <= self.day <= month_length(self.year as int, self.month as int)
    }

    pub open spec fn num(self) -> int {
        day_num(self.year as int, self.month as int, self.day as int)
    }

    pub open spec fn index(self) -> int {
        month_index(self.year as int, self.month as int)
    }

    /// The date `year-month-day`, where it exists.
    pub fn from_ymd(year: i32, month: u32, day: u32) -> (r: Option<Date>)
        ensures
            r matches Some(d) ==> d.wf() && d == (Date { year, month, day }),
            r is None ==> !(Date { year, month, day }).wf(),
    {
        if year < MIN_YEAR || year > MAX_YEAR || month < 1 || month > 12 || day < 1 {
            return None;
        }
        if day > days_in_month(year, month) {
            return None;
        }
        Some(Date { year, month, day })
    }

    /// Day number of this date, January 1 of year 1 being day 1.
    pub fn day_number(&self) -> (r: i32)
        requires
            self.wf(),
        ensures
            r == self.num(),
    {
        proof {
            lemma_day_num_bounds(self.year as int, self.month as int, self.day as int);
        }
        let y1: i64 = self.year as i64 - 1;
        let a: i64 = y1 + 400000;
        proof {
            lemma_div_shift(y1 as int, 4, 100000);
            lemma_div_shift(y1 as int, 100, 4000);
            lemma_div_shift(y1 as int, 400, 1000);
        }
        let before_year: i64 = 365 * y1 + (a / 4 - 100000) - (a / 100 - 4000) + (a / 400 - 1000);
        let mut before_month: i64 = 0;
        let mut m: u32 = 1;
        while m < self.month
            invariant
                self.wf(),
                1 <= m <= self.month,
                before_month == days_before_month(self.year as int, m as int),
                before_month <= 31 * (m - 1),
            decreases self.month - m,
        {
            before_month = before_month + days_in_month(self.year, m) as i64;
            m = m + 1;
        }
        (before_year + before_month + self.day as i64) as i32
    }

    /// The first day of this date's month.
    pub fn first_of_month(&self) -> (r: Date)
        requires
            self.wf(),
        ensures
            r.wf(),
            r == (Date { year: self.year, month: self.month, day: 1 }),
    {
        Date { year: self.year, month: self.month, day: 1 }
    }

    /// The last day of this date's month.
    pub fn last_of_month(&self) -> (r: Date)
        requires
            self.wf(),
        ensures
            r.wf(),
            r == (Date {
                year: self.year,
                month: self.month,
                day: month_length(self.year as int, self.month as int) as u32,
            }),
    {
        Date { year: self.year, month: self.month, day: days_in_month(self.year, self.month) }
    }
}

proof fn lemma_div_shift(x: int, k: int, q: int)
    requires
        k > 0,
        x + k * q >= 0,
    ensures
        (x + k * q) / k - q == x / k,
{
    vstd::arithmetic::div_mod::lemma_hoist_over_denominator(x, q, k as nat);
    assert(q * k == k * q) by (nonlinear_arith);
}

proof fn lemma_days_before_month_bound(y: int, m: int)
    requires
        1 <= m <= 13,
    ensures
        0 <= days_before_month(y, m) <= 31 * (m - 1),
    decreases m,
{
    if m > 1 {
        lemma_days_before_month_bound(y, m - 1);
    }
}

/// Loose bounds on the day number of a date of the accepted years.
pub proof fn lemma_day_num_bounds(y: int, m: int, d: int)
    requires
        MIN_YEAR <= y <= MAX_YEAR,
        1 <= m <= 12,
        1 <= d <= 31,
    ensures
        -100_000_000 <= day_num(y, m, d) <= 100_000_000,
{
    lemma_days_before_month_bound(y, m);
    let x = y - 1;
    assert(-262144 <= x <= 262141);
    assert(-65536 <= x / 4 <= 65536) by {
        vstd::arithmetic::div_mod::lemma_div_is_ordered(-262144, x, 4);
        vstd::arithmetic::div_mod::lemma_div_is_ordered(x, 262144, 4);
    }
    assert(-2622 <= x / 100 <= 2622) by {
        vstd::arithmetic::div_mod::lemma_div_is_ordered(-262200, x, 100);
        vstd::arithmetic::div_mod::lemma_div_is_ordered(x, 262200, 100);
    }
    assert(-656 <= x / 400 <= 656) by {
        vstd::arithmetic::div_mod::lemma_div_is_ordered(-262400, x, 400);
        vstd::arithmetic::div_mod::lemma_div_is_ordered(x, 262400, 400);
    }
}

/// Whether `year` has a February 29.
pub fn is_leap(year: i32) -> (r: bool)
    ensures
        r == is_leap_year(year as int),
{
    let a: i64 = year as i64 + 400000000;
    proof {
        vstd::arithmetic::div_mod::lemma_mod_multiples_vanish(100000000int, year as int, 4);
        vstd::arithmetic::div_mod::lemma_mod_multiples_vanish(4000000int, year as int, 100);
        vstd::arithmetic::div_mod::lemma_mod_multiples_vanish(1000000int, year as int, 400);
    }
    a % 4 == 0 && (a % 100 != 0 || a % 400 == 0)
}

/// Number of days in `month` (1 to 12) of `year`.
pub fn days_in_month(year: i32, month: u32) -> (r: u32)
    requires
        1 <= month <= 12,
    ensures
        r == month_length(year as int, month as int),
        28 <= r <= 31,
{
    if month == 2 {
        if is_leap(year) { 29 } else { 28 }
    } else if month == 4 || month == 6 || month == 9 || month == 11 {
        30
    } else {
        31
    }
}


/// Relies on chrono's `NaiveDate::from_num_days_from_ce_opt`: the date whose
/// day number (January 1 of year 1 being day 1) is `days`, or `None` outside
/// `NaiveDate::MIN ..= NaiveDate::MAX`, which run from January 1 of year
/// -262143 to December 31 of year 262142.
#[verifier::external_body]
pub(crate) fn date_from_day_number(days: i32) -> (r: Option<Date>)
    ensures
        r matches Some(d) ==> d.wf() && d.num() == days,
        MIN_DAY <= days <= MAX_DAY ==> r is Some,
{
    chrono::NaiveDate::from_num_days_from_ce_opt(days).map(
        |d| Date { year: d.year(), month: d.month() as u32, day: d.day() as u32 },
    )
}

/// `MIN_DAY` and `MAX_DAY` are the day numbers of the first and the last date
/// of the accepted years.
pub proof fn lemma_day_range()
    ensures
        MIN_DAY == day_num(MIN_YEAR as int, 1, 1),
        MAX_DAY == day_num(MAX_YEAR as int, 12, 31),
{
    reveal_with_fuel(days_before_month, 13);
    assert(-262144int / 4 == -65536);
    assert(-262144int / 100 == -2622);
    assert(-262144int / 400 == -656);
    assert(262141int / 4 == 65535);
    assert(262141int / 100 == 2621);
    assert(262141int / 400 == 655);
    assert(!is_leap_year(MAX_YEAR as int));
}

proof fn lemma_div_step(x: int, k: int)
    requires
        k > 0,
    ensures
        x / k - (x - 1) / k == (if x % k == 0 { 1int } else { 0int }),
{
    vstd::arithmetic::div_mod::lemma_fundamental_div_mod(x, k);
    let q = x / k;
    let r = x % k;
    assert(k * q == q * k) by (nonlinear_arith);
    if r == 0 {
        assert((q - 1) * k == q * k - k) by (nonlinear_arith);
        vstd::arithmetic::div_mod::lemma_fundamental_div_mod_converse(x - 1, k, q - 1, k - 1);
    } else {
        vstd::arithmetic::div_mod::lemma_fundamental_div_mod_converse(x - 1, k, q, r - 1);
    }
}

proof fn lemma_divides_chain(y: int, a: int, b: int)
    requires
        a > 0,
        b > 0,
        y % (a * b) == 0,
    ensures
        y % a == 0,
{
    assert(a * b > 0) by (nonlinear_arith)
        requires
            a > 0,
            b > 0,
    ;
    vstd::arithmetic::div_mod::lemma_fundamental_div_mod(y, a * b);
    let q = y / (a * b);
    assert(y == a * (b * q)) by (nonlinear_arith)
        requires
            y == (a * b) * q + 0,
    ;
    assert(y == (b * q) * a + 0) by (nonlinear_arith)
        requires
            y == a * (b * q),
    ;
    vstd::arithmetic::div_mod::lemma_fundamental_div_mod_converse(y, a, b * q, 0);
}

/// A year holds 365 days, and one more in a leap year.
pub proof fn lemma_year_length(y: int)
    ensures
        days_before_year(y + 1) == days_before_year(y) + 365 + (if is_leap_year(y) { 1int } else { 0int }),
{
    lemma_div_step(y, 4);
    lemma_div_step(y, 100);
    lemma_div_step(y, 400);
    if y % 400 == 0 {
        lemma_divides_chain(y, 100, 4);
    }
    if y % 100 == 0 {
        lemma_divides_chain(y, 4, 25);
    }
}

/// A month index gives back its year and month.
pub proof fn lemma_index_parts(y: int, m: int)
    requires
        1 <= m <= 12,
    ensures
        year_of_index(month_index(y, m)) == y,
        month_of_index(month_index(y, m)) == m,
{
    vstd::arithmetic::div_mod::lemma_fundamental_div_mod_converse(y * 12 + m - 1, 12, y, m - 1);
}

/// The first day of a date's month, as a day number.
pub proof fn lemma_first_day_of_date(y: int, m: int, d: int)
    requires
        1 <= m <= 12,
    ensures
        first_day(month_index(y, m)) == day_num(y, m, 1),
        day_num(y, m, d) == first_day(month_index(y, m)) + d - 1,
{
    lemma_index_parts(y, m);
}

/// The month after month `mi` starts `index_month_length(mi)` days after it.
pub proof fn lemma_next_first_day(mi: int)
    ensures
        first_day(mi + 1) == first_day(mi) + index_month_length(mi),
        28 <= index_month_length(mi) <= 31,
{
    let y = year_of_index(mi);
    let m = month_of_index(mi);
    vstd::arithmetic::div_mod::lemma_fundamental_div_mod(mi, 12);
    assert(mi == month_index(y, m));
    if m < 12 {
        lemma_index_parts(y, m + 1);
        assert(mi + 1 == month_index(y, m + 1));
    } else {
        lemma_index_parts(y + 1, 1);
        assert(mi + 1 == month_index(y + 1, 1));
        reveal_with_fuel(days_before_month, 13);
        lemma_year_length(y);
    }
}

/// Later months start on later days, at least 28 days per month apart.
pub proof fn lemma_first_day_increasing(a: int, b: int)
    requires
        a <= b,
    ensures
        first_day(a) + 28 * (b - a) <= first_day(b),
    decreases b - a,
{
    if a < b {
        lemma_first_day_increasing(a, b - 1);
        lemma_next_first_day(b - 1);
    }
}

/// Every day lies in exactly one month, and `month_index_of_day` names it.
pub proof fn lemma_month_index_of_day(mi: int, n: int)
    requires
        first_day(mi) <= n < first_day(mi + 1),
    ensures
        month_index_of_day(n) == mi,
{
    let c = month_index_of_day(n);
    assert(first_day(c) <= n < first_day(c + 1));
    if c < mi {
        lemma_first_day_increasing(c + 1, mi);
    } else if c > mi {
        lemma_first_day_increasing(mi + 1, c);
    }
}

/// A valid date lies in its own month.
pub proof fn lemma_date_in_month(d: Date)
    requires
        d.wf(),
    ensures
        first_day(d.index()) <= d.num() < first_day(d.index() + 1),
        month_index_of_day(d.num()) == d.index(),
{
    lemma_first_day_of_date(d.year as int, d.month as int, d.day as int);
    lemma_index_parts(d.year as int, d.month as int);
    lemma_next_first_day(d.index());
    lemma_month_index_of_day(d.index(), d.num());
}


proof fn lemma_bracket(a: int, b: int, n: int)
    requires
        a < b,
        first_day(a) <= n < first_day(b),
    ensures
        first_day(month_index_of_day(n)) <= n < first_day(month_index_of_day(n) + 1),
    decreases b - a,
{
    if n < first_day(a + 1) {
        lemma_month_index_of_day(a, n);
    } else {
        lemma_bracket(a + 1, b, n);
    }
}

/// Every day lies in a month.
pub proof fn lemma_day_in_month(n: int)
    ensures
        first_day(month_index_of_day(n)) <= n < first_day(month_index_of_day(n) + 1),
{
    let c0 = first_day(0);
    lemma_first_day_of_date(0, 1, 1);
    assert(c0 == -365);
    if n >= c0 {
        let b = (n - c0) / 28 + 1;
        lemma_first_day_increasing(0, b);
        assert(28 * b > n - c0) by (nonlinear_arith)
            requires
                b == (n - c0) / 28 + 1,
                n - c0 >= 0,
        ;
        lemma_bracket(0, b, n);
    } else {
        let a = -((c0 - n) / 28 + 1);
        lemma_first_day_increasing(a, 0);
        assert(28 * (0 - a) >= c0 - n) by (nonlinear_arith)
            requires
                a == -((c0 - n) / 28 + 1),
                c0 - n > 0,
        ;
        lemma_bracket(a, 0, n);
    }
}

} // verus!
