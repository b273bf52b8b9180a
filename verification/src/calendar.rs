//! Fixed-schedule calendar arithmetic.
//!
//! February always has 28 days: leap years are deliberately not modelled, so
//! that rolling-window boundaries are reproducible across runs. Any "correct"
//! calendar substitution would silently move historical window boundaries.

use vstd::prelude::*;
use crate::text::{
    append_dec_pad2, append_dec_pad4, dec_digits_padded, digit_of_char, digit_val, is_digit,
    push_char,
};

verus! {

/// A calendar date in the fixed (leap-free) schedule calendar.
#[derive(Debug, Clone, Copy, PartialEq, Eq, Structural)]
pub struct Date {
    pub year: u16,
    pub month: u8,
    pub day: u8,
}

/// Number of days in a month of the fixed calendar (February is always 28).
pub open spec fn days_in_month(m: int) -> int {
    if m == 1 {
        31
    } else if m == 2 {
        28
    } else if m == 3 {
        31
    } else if m == 4 {
        30
    } else if m == 5 {
        31
    } else if m == 6 {
        30
    } else if m == 7 {
        31
    } else if m == 8 {
        31
    } else if m == 9 {
        30
    } else if m == 10 {
        31
    } else if m == 11 {
        30
    } else {
        31
    }
}

/// Days of the fixed calendar year that precede month `m`.
pub open spec fn month_prefix_days(m: int) -> int {
    if m <= 1 {
        0
    } else if m == 2 {
        31
    } else if m == 3 {
        59
    } else if m == 4 {
        90
    } else if m == 5 {
        120
    } else if m == 6 {
        151
    } else if m == 7 {
        181
    } else if m == 8 {
        212
    } else if m == 9 {
        243
    } else if m == 10 {
        273
    } else if m == 11 {
        304
    } else {
        334
    }
}

/// A structurally valid date of the fixed calendar.
pub open spec fn date_wf(d: Date) -> bool {
    &&& 1 <= d.month <= 12
    &&& 1 <= d.day <= days_in_month(d.month as int)
}

/// Rank of a date: days elapsed since year 0, January 1, in the fixed
/// (365-day) calendar.
pub open spec fn date_ord(d: Date) -> int {
    d.year * 365 + month_prefix_days(d.month as int) + d.day - 1
}

/// The previous calendar day in the fixed calendar.
pub open spec fn spec_previous_day(d: Date) -> Date {
    if d.day > 1 {
        Date { year: d.year, month: d.month, day: (d.day - 1) as u8 }
    } else if d.month > 1 {
        Date {
            year: d.year,
            month: (d.month - 1) as u8,
            day: days_in_month(d.month - 1) as u8,
        }
    } else {
        Date { year: (d.year - 1) as u16, month: 12, day: 31 }
    }
}

/// The date `n` days earlier, by repeated single-day decrement.
pub open spec fn spec_minus_n_days(d: Date, n: nat) -> Date
    decreases n,
{
    if n == 0 {
        d
    } else {
        spec_minus_n_days(spec_previous_day(d), (n - 1) as nat)
    }
}

/// Going one day back lowers a valid date's rank by exactly one.
pub proof fn lemma_previous_day_ord(d: Date)
    requires
        date_wf(d),
        date_ord(d) >= 1,
    ensures
        date_wf(spec_previous_day(d)),
        date_ord(spec_previous_day(d)) == date_ord(d) - 1,
{
}

impl Date {
    /// The day before `self`. On the first of a month it steps into the
    /// previous month's fixed length; on January 1 it steps to December 31 of
    /// the previous year.
    pub fn previous_day(&self) -> (r: Date)
        requires
            date_wf(*self),
            date_ord(*self) >= 1,
        ensures
            r == spec_previous_day(*self),
            date_wf(r),
            date_ord(r) == date_ord(*self) - 1,
    {
        proof {
            lemma_previous_day_ord(*self);
        }
        let year = self.year;
        let month = self.month;
        let day = self.day;
        if day > 1 {
            Date { year, month, day: day - 1 }
        } else if month > 1 {
            let prev_month = month - 1;
            Date { year, month: prev_month, day: month_length(prev_month) }
        } else {
            Date { year: year - 1, month: 12, day: 31 }
        }
    }

    /// The date `n` days before `self`, by applying `previous_day` `n` times.
    pub fn minus_n_days(&self, n: u8) -> (r: Date)
        requires
            date_wf(*self),
            date_ord(*self) >= n,
        ensures
            r == spec_minus_n_days(*self, n as nat),
            date_wf(r),
            date_ord(r) == date_ord(*self) - n,
    {
        let mut date = *self;
        let mut i: u8 = 0;
        while i < n
            invariant
                i <= n,
                date == spec_minus_n_days(*self, i as nat),
                date_wf(date),
                date_ord(date) == date_ord(*self) - i,
                date_ord(*self) >= n,
                date_wf(*self),
            decreases n - i,
        {
            proof {
                lemma_minus_n_days_step(*self, i as nat);
            }
            date = date.previous_day();
            i = i + 1;
        }
        date
    }
}

/// Unfolding: going back `n + 1` days is going back `n` days, then one more.
proof fn lemma_minus_n_days_step(d: Date, n: nat)
    ensures
        spec_minus_n_days(d, n + 1) == spec_previous_day(spec_minus_n_days(d, n)),
    decreases n,
{
    assert(spec_minus_n_days(d, n + 1) == spec_minus_n_days(spec_previous_day(d), n));
    if n > 0 {
        lemma_minus_n_days_step(spec_previous_day(d), (n - 1) as nat);
        assert(spec_minus_n_days(d, n) == spec_minus_n_days(spec_previous_day(d), (n - 1) as nat));
    }
}

/// The ISO rendering of a date: zero-padded year, month and day joined by
/// dashes.
pub open spec fn iso_seq(d: Date) -> Seq<char> {
    dec_digits_padded(d.year as nat, 4) + seq!['-'] + dec_digits_padded(d.month as nat, 2)
        + seq!['-'] + dec_digits_padded(d.day as nat, 2)
}

/// Whether `s` has the fixed `YYYY-MM-DD` shape.
pub open spec fn iso_shape(s: Seq<char>) -> bool {
    &&& s.len() == 10
    &&& is_digit(s[0])
    &&& is_digit(s[1])
    &&& is_digit(s[2])
    &&& is_digit(s[3])
    &&& s[4] == '-'
    &&& is_digit(s[5])
    &&& is_digit(s[6])
    &&& s[7] == '-'
    &&& is_digit(s[8])
    &&& is_digit(s[9])
}

/// The date a well-shaped ISO string denotes.
pub open spec fn iso_date(s: Seq<char>) -> Date {
    Date {
        year: (digit_val(s[0]) * 1000 + digit_val(s[1]) * 100 + digit_val(s[2]) * 10 + digit_val(
            s[3],
        )) as u16,
        month: (digit_val(s[5]) * 10 + digit_val(s[6])) as u8,
        day: (digit_val(s[8]) * 10 + digit_val(s[9])) as u8,
    }
}

impl Date {
    /// Renders the date as `YYYY-MM-DD`.
    pub fn to_iso_string(&self) -> (s: String)
        ensures
            s@ == iso_seq(*self),
    {
        let mut s = String::new();
        append_dec_pad4(&mut s, self.year);
        push_char(&mut s, '-');
        append_dec_pad2(&mut s, self.month);
        push_char(&mut s, '-');
        append_dec_pad2(&mut s, self.day);
        proof {
            assert(s@ =~= iso_seq(*self));
        }
        s
    }

    /// Reads a date from the fixed `YYYY-MM-DD` shape; any other shape is
    /// rejected. The calendar validity of the result is a separate question
    /// answered by [`Date::is_valid`].
    pub fn parse_iso(s: &str) -> (r: Option<Date>)
        ensures
            iso_shape(s@) ==> r == Some(iso_date(s@)),
            !iso_shape(s@) ==> r is None,
    {
        if s.unicode_len() != 10 {
            return None;
        }
        if s.get_char(4) != '-' || s.get_char(7) != '-' {
            return None;
        }
        let y0 = digit_of_char(s.get_char(0));
        let y1 = digit_of_char(s.get_char(1));
        let y2 = digit_of_char(s.get_char(2));
        let y3 = digit_of_char(s.get_char(3));
        let m0 = digit_of_char(s.get_char(5));
        let m1 = digit_of_char(s.get_char(6));
        let d0 = digit_of_char(s.get_char(8));
        let d1 = digit_of_char(s.get_char(9));
        match (y0, y1, y2, y3, m0, m1, d0, d1) {
            (
                Some(y0),
                Some(y1),
                Some(y2),
                Some(y3),
                Some(m0),
                Some(m1),
                Some(d0),
                Some(d1),
            ) => {
                let year: u16 = (y0 as u16) * 1000 + (y1 as u16) * 100 + (y2 as u16) * 10 + (
                y3 as u16);
                let month: u8 = m0 * 10 + m1;
                let day: u8 = d0 * 10 + d1;
                Some(Date { year, month, day })
            },
            _ => None,
        }
    }

    /// Whether the date is structurally valid in the fixed calendar.
    pub fn is_valid(&self) -> (r: bool)
        ensures
            r == date_wf(*self),
    {
        1 <= self.month && self.month <= 12 && 1 <= self.day && self.day <= month_length(
            self.month,
        )
    }
}

/// Rendering a date and reading it back is the identity: the ISO string of
/// any valid date has the fixed shape, and denotes that date again. Output
/// paths and window boundaries built from dates are therefore reproducible.
pub proof fn lemma_iso_round_trip(d: Date)
    requires
        date_wf(d),
        d.year <= 9999,
    ensures
        iso_shape(iso_seq(d)),
        iso_date(iso_seq(d)) == d,
{
    crate::text::lemma_dec4_value(d.year as nat);
    crate::text::lemma_dec2_value(d.month as nat);
    crate::text::lemma_dec2_value(d.day as nat);
    let s = iso_seq(d);
    let y = dec_digits_padded(d.year as nat, 4);
    let m = dec_digits_padded(d.month as nat, 2);
    let dd = dec_digits_padded(d.day as nat, 2);
    assert(s.len() == 10);
    assert(s[0] == y[0] && s[1] == y[1] && s[2] == y[2] && s[3] == y[3]);
    assert(s[4] == '-');
    assert(s[5] == m[0] && s[6] == m[1]);
    assert(s[7] == '-');
    assert(s[8] == dd[0] && s[9] == dd[1]);
    assert(iso_date(s).year == d.year);
    assert(iso_date(s).month == d.month);
    assert(iso_date(s).day == d.day);
}

/// Length of a month in the fixed calendar.
pub fn month_length(m: u8) -> (r: u8)
    requires
        1 <= m <= 12,
    ensures
        r == days_in_month(m as int),
{
    match m {
        1 => 31,
        2 => 28,
        3 => 31,
        4 => 30,
        5 => 31,
        6 => 30,
        7 => 31,
        8 => 31,
        9 => 30,
        10 => 31,
        11 => 30,
        _ => 31,
    }
}

} // verus!
