//! Source date parsing and normalization.
//!
//! Each institution's export writes dates as day/month/year with a slash
//! separator: one or two digits of day, one or two of month, and a fixed
//! number of year digits (two or four, per format). A parsed date is
//! re-rendered in the normalized `YYYY-MM-DD` form. Two-digit years follow
//! the usual pivot: values up to 68 fall in the 2000s, the rest in the 1900s.

use crate::text::{
    all_digit_chars, digits_val, find_char, find_char_from, four_digit_str, four_digits_of,
    lemma_digits_val_bound, lemma_pow10_mono, lemma_pow10_small, read_digits_u64, two_digit_str,
    two_digits_of,
};
use vstd::prelude::*;
use vstd::string::*;

verus! {

pub open spec fn is_leap_year(y: nat) -> bool {
    y % 4 == 0 && (y % 100 != 0 || y % 400 == 0)
}

pub open spec fn days_in_month(y: nat, m: nat) -> nat {
    if m == 2 {
        if is_leap_year(y) {
            29
        } else {
            28
        }
    } else if m == 4 || m == 6 || m == 9 || m == 11 {
        30
    } else {
        31
    }
}

pub open spec fn valid_ymd(y: nat, m: nat, d: nat) -> bool {
    y < 10000 && 1 <= m <= 12 && 1 <= d <= days_in_month(y, m)
}

pub open spec fn full_year_of_two_digit(y: nat) -> nat {
    if y <= 68 {
        2000 + y
    } else {
        1900 + y
    }
}

/// The (year, month, day) digit values of `s` under the slash-separated
/// source shape: 1-2 digits of day, `/`, 1-2 digits of month, `/`, exactly
/// `year_digits` digits of year. `None` when `s` has another shape.
pub open spec fn dmy_parts(s: Seq<char>, year_digits: int) -> Option<(nat, nat, nat)> {
    let p1 = find_char_from(s, '/', 0);
    let p2 = find_char_from(s, '/', p1 + 1);
    if 1 <= p1 <= 2 && p1 + 2 <= p2 <= p1 + 3 && p2 < s.len() && s.len() - p2 - 1 == year_digits
        && all_digit_chars(s.subrange(0, p1)) && all_digit_chars(s.subrange(p1 + 1, p2))
        && all_digit_chars(s.subrange(p2 + 1, s.len() as int)) {
        Some(
            (
                digits_val(s.subrange(p2 + 1, s.len() as int)),
                digits_val(s.subrange(p1 + 1, p2)),
                digits_val(s.subrange(0, p1)),
            ),
        )
    } else {
        None
    }
}

/// The normalized rendering `YYYY-MM-DD` of a date.
pub open spec fn iso_date_of(y: nat, m: nat, d: nat) -> Seq<char> {
    four_digits_of(y) + seq!['-'] + two_digits_of(m) + seq!['-'] + two_digits_of(d)
}

/// The normalized form of the source date `s`, or `None` when `s` does not
/// have the source shape or is not a valid calendar date.
pub open spec fn normalized_date(s: Seq<char>, year_digits: int) -> Option<Seq<char>> {
    match dmy_parts(s, year_digits) {
        Some((y0, m, d)) => {
            let y = if year_digits == 2 {
                full_year_of_two_digit(y0)
            } else {
                y0
            };
            if valid_ymd(y, m, d) {
                Some(iso_date_of(y, m, d))
            } else {
                None
            }
        },
        None => None,
    }
}

fn days_in_month_x(y: u32, m: u32) -> (r: u32)
    requires
        1 <= m <= 12,
    ensures
        r == days_in_month(y as nat, m as nat),
{
    if m == 2 {
        if y % 4 == 0 && (y % 100 != 0 || y % 400 == 0) {
            29
        } else {
            28
        }
    } else if m == 4 || m == 6 || m == 9 || m == 11 {
        30
    } else {
        31
    }
}

/// Parses `s` as a slash-separated day/month/year date with `year_digits`
/// year digits, validates it against the calendar, and re-renders it as
/// `YYYY-MM-DD`.
pub fn normalize_date(s: &str, year_digits: usize) -> (r: Option<String>)
    requires
        year_digits == 2 || year_digits == 4,
    ensures
        match r {
            Some(t) => normalized_date(s@, year_digits as int) == Some(t@),
            None => normalized_date(s@, year_digits as int) is None,
        },
{
    let n = s.unicode_len();
    let p1 = find_char(s, '/', 0);
    if p1 < 1 || p1 > 2 || p1 >= n {
        return None;
    }
    let p2 = find_char(s, '/', p1 + 1);
    if p2 < p1 + 2 || p2 > p1 + 3 || p2 >= n {
        return None;
    }
    if n - p2 - 1 != year_digits {
        return None;
    }
    let day = match read_digits_u64(s, 0, p1) {
        Some(v) => v,
        None => {
            return None;
        },
    };
    let month = match read_digits_u64(s, p1 + 1, p2) {
        Some(v) => v,
        None => {
            return None;
        },
    };
    let year0 = match read_digits_u64(s, p2 + 1, n) {
        Some(v) => v,
        None => {
            return None;
        },
    };
    proof {
        lemma_digits_val_bound(s@.subrange(0, p1 as int));
        lemma_digits_val_bound(s@.subrange(p1 + 1, p2 as int));
        lemma_digits_val_bound(s@.subrange(p2 + 1, n as int));
        lemma_pow10_mono(s@.subrange(0, p1 as int).len(), 2);
        lemma_pow10_mono(s@.subrange(p1 + 1, p2 as int).len(), 2);
        lemma_pow10_mono(s@.subrange(p2 + 1, n as int).len(), 4);
        lemma_pow10_small();
    }
    let d = day as u32;
    let m = month as u32;
    let y: u32 = if year_digits == 2 {
        if year0 <= 68 {
            2000 + (year0 as u32)
        } else {
            1900 + (year0 as u32)
        }
    } else {
        year0 as u32
    };
    if m < 1 || m > 12 || d < 1 || y >= 10000 {
        return None;
    }
    if d > days_in_month_x(y, m) {
        return None;
    }
    let mut t = four_digit_str(y);
    t.append("-");
    let mm = two_digit_str(m);
    t.append(mm.as_str());
    t.append("-");
    let dd = two_digit_str(d);
    t.append(dd.as_str());
    proof {
        reveal_strlit("-");
        assert(t@ =~= iso_date_of(y as nat, m as nat, d as nat));
    }
    Some(t)
}

} // verus!
