//! Calendar days of the proleptic Gregorian calendar, years 0 through 9999,
//! and their `YYYY-MM-DD` text.
use chrono::Datelike;
use vstd::prelude::*;

verus! {

/// The last year whose text has four digits.
pub const LAST_YEAR: u32 = 9999;

pub open spec fn is_leap_year(y: int) -> bool {
    (y % 4 == 0 && y % 100 != 0) || y % 400 == 0
}

pub open spec fn days_in_month(y: int, m: int) -> int {
    if m == 2 {
        if is_leap_year(y) { 29 } else { 28 }
    } else if m == 4 || m == 6 || m == 9 || m == 11 {
        30
    } else {
        31
    }
}

/// The ASCII digit of a value below ten.
pub open spec fn digit_char(v: int) -> char {
    (v + 48) as char
}

/// `v` written with exactly `n` decimal digits, zero-padded on the left.
pub open spec fn padded_digits(v: int, n: nat) -> Seq<char>
    decreases n,
{
    if n == 0 {
        Seq::empty()
    } else {
        padded_digits(v / 10, (n - 1) as nat).push(digit_char(v % 10))
    }
}

/// Ten to the power `n`.
pub open spec fn pow10(n: nat) -> int
    decreases n,
{
    if n == 0 {
        1
    } else {
        10 * pow10((n - 1) as nat)
    }
}

proof fn lemma_padded_digits_len(v: int, n: nat)
    ensures
        padded_digits(v, n).len() == n,
    decreases n,
{
    if n > 0 {
        lemma_padded_digits_len(v / 10, (n - 1) as nat);
    }
}

/// Values below `10^n` written with `n` digits are told apart by their text.
proof fn lemma_padded_digits_injective(v: int, w: int, n: nat)
    requires
        0 <= v < pow10(n),
        0 <= w < pow10(n),
        padded_digits(v, n) == padded_digits(w, n),
    ensures
        v == w,
    decreases n,
{
    if n > 0 {
        let pv = padded_digits(v / 10, (n - 1) as nat);
        let pw = padded_digits(w / 10, (n - 1) as nat);
        lemma_padded_digits_len(v / 10, (n - 1) as nat);
        lemma_padded_digits_len(w / 10, (n - 1) as nat);
        assert(padded_digits(v, n).last() == digit_char(v % 10));
        assert(padded_digits(w, n).last() == digit_char(w % 10));
        assert((v % 10 + 48) as char == (w % 10 + 48) as char);
        assert(v % 10 == w % 10);
        assert(padded_digits(v, n).drop_last() =~= pv);
        assert(padded_digits(w, n).drop_last() =~= pw);
        lemma_padded_digits_injective(v / 10, w / 10, (n - 1) as nat);
    }
}

/// A day of the calendar, held as year, month and day of the month.
#[derive(Clone, Copy, Debug, PartialEq, Eq, Structural)]
pub struct CalendarDay {
    pub year: u32,
    pub month: u32,
    pub day: u32,
}

impl CalendarDay {
    /// The day exists, and its year has four digits.
    pub open spec fn wf(&self) -> bool {
        &&& self.year <= LAST_YEAR
        &&& 1 <= self.month <= 12
        &&& 1 <= self.day <= days_in_month(self.year as int, self.month as int)
    }

    /// The day written as `YYYY-MM-DD`.
    pub open spec fn iso_text(&self) -> Seq<char> {
        padded_digits(self.year as int, 4) + seq!['-'] + padded_digits(self.month as int, 2)
            + seq!['-'] + padded_digits(self.day as int, 2)
    }

    pub open spec fn is_last(&self) -> bool {
        self.year == LAST_YEAR && self.month == 12 && self.day == 31
    }

    /// The day after this one.
    pub open spec fn next(&self) -> CalendarDay {
        if self.day < days_in_month(self.year as int, self.month as int) {
            CalendarDay { day: (self.day + 1) as u32, ..*self }
        } else if self.month < 12 {
            CalendarDay { month: (self.month + 1) as u32, day: 1, ..*self }
        } else {
            CalendarDay { year: (self.year + 1) as u32, month: 1, day: 1 }
        }
    }

    /// The day `k` days after this one.
    pub open spec fn after(&self, k: nat) -> CalendarDay
        decreases k,
    {
        if k == 0 {
            *self
        } else {
            self.after((k - 1) as nat).next()
        }
    }

    /// Builds a day from its parts; `None` where no such day exists or the year
    /// has more than four digits.
    pub fn new(year: u32, month: u32, day: u32) -> (r: Option<CalendarDay>)
        ensures
            r matches Some(d) ==> d.wf() && d == (CalendarDay { year, month, day }),
            r is None ==> !(CalendarDay { year, month, day }).wf(),
    {
        if year > LAST_YEAR || month < 1 || month > 12 || day < 1 {
            return None;
        }
        let leap = (year % 4 == 0 && year % 100 != 0) || year % 400 == 0;
        let last: u32 = if month == 2 {
            if leap { 29 } else { 28 }
        } else if month == 4 || month == 6 || month == 9 || month == 11 {
            30
        } else {
            31
        };
        if day > last {
            None
        } else {
            Some(CalendarDay { year, month, day })
        }
    }

    /// The day written as `YYYY-MM-DD`.
    pub fn to_iso_string(&self) -> (r: String)
        requires
            self.wf(),
        ensures
            r@ == self.iso_text(),
    {
        format_iso(self)
    }

    /// The day after this one; `None` after the last day of year 9999.
    pub fn following(&self) -> (r: Option<CalendarDay>)
        requires
            self.wf(),
        ensures
            self.is_last() ==> r is None,
            !self.is_last() ==> r == Some(self.next()) && self.next().wf(),
    {
        if self.year == LAST_YEAR && self.month == 12 && self.day == 31 {
            None
        } else {
            Some(successor(self))
        }
    }
}

/// Distinct days have distinct `YYYY-MM-DD` texts, so their seeds are read
/// from digests of distinct inputs.
pub proof fn lemma_distinct_days_distinct_texts(d1: CalendarDay, d2: CalendarDay)
    requires
        d1.wf(),
        d2.wf(),
        d1 != d2,
    ensures
        d1.iso_text() != d2.iso_text(),
{
    if d1.iso_text() == d2.iso_text() {
        reveal_with_fuel(pow10, 5);
        let (t1, t2) = (d1.iso_text(), d2.iso_text());
        lemma_padded_digits_len(d1.year as int, 4);
        lemma_padded_digits_len(d2.year as int, 4);
        lemma_padded_digits_len(d1.month as int, 2);
        lemma_padded_digits_len(d2.month as int, 2);
        lemma_padded_digits_len(d1.day as int, 2);
        lemma_padded_digits_len(d2.day as int, 2);
        assert(t1.subrange(0, 4) =~= padded_digits(d1.year as int, 4));
        assert(t2.subrange(0, 4) =~= padded_digits(d2.year as int, 4));
        assert(t1.subrange(5, 7) =~= padded_digits(d1.month as int, 2));
        assert(t2.subrange(5, 7) =~= padded_digits(d2.month as int, 2));
        assert(t1.subrange(8, 10) =~= padded_digits(d1.day as int, 2));
        assert(t2.subrange(8, 10) =~= padded_digits(d2.day as int, 2));
        lemma_padded_digits_injective(d1.year as int, d2.year as int, 4);
        lemma_padded_digits_injective(d1.month as int, d2.month as int, 2);
        lemma_padded_digits_injective(d1.day as int, d2.day as int, 2);
    }
}

/// Relies on chrono's `NaiveDate::from_ymd_opt` (which accepts every day of
/// the calendar in years 0 through 9999) and on its `format("%Y-%m-%d")`,
/// which writes such a year with four digits and month and day with two,
/// zero-padded.
#[verifier::external_body]
fn format_iso(d: &CalendarDay) -> (r: String)
    requires
        d.wf(),
    ensures
        r@ == d.iso_text(),
{
    let date = chrono::NaiveDate::from_ymd_opt(d.year as i32, d.month, d.day).unwrap();
    date.format("%Y-%m-%d").to_string()
}

/// Relies on chrono's `NaiveDate::succ_opt`: the next day of the calendar,
/// `None` only for `NaiveDate::MAX`, which lies far beyond year 9999; and on
/// the `Datelike` getters `year`, `month` and `day` to read it back.
#[verifier::external_body]
fn successor(d: &CalendarDay) -> (r: CalendarDay)
    requires
        d.wf(),
        !d.is_last(),
    ensures
        r == d.next(),
{
    let date = chrono::NaiveDate::from_ymd_opt(d.year as i32, d.month, d.day).unwrap();
    let next = date.succ_opt().unwrap();
    CalendarDay { year: next.year() as u32, month: next.month(), day: next.day() }
}

} // verus!
