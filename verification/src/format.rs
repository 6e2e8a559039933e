//! Text forms of amounts and dates.
//!
//! Amounts are rendered with thousands separators for display; dates are
//! rendered as `YYYY-MM-DD` calendar text, the form the boundary serializes.

use vstd::prelude::*;
use vstd::string::{StrSliceExecFns, StringExecFns};

use crate::date::Date;

verus! {

/// The decimal digit character of a value below ten.
pub open spec fn digit_char(d: int) -> char {
    ((48 + d) as u8) as char
}

/// Decimal digits of a number, most significant first.
pub open spec fn dec_digits(n: int) -> Seq<char>
    decreases n,
{
    if n < 10 {
        seq![digit_char(n)]
    } else {
        dec_digits(n / 10).push(digit_char(n % 10))
    }
}

/// Digit groups of three, separated by commas, counted from the right.
pub open spec fn grouped(ds: Seq<char>) -> Seq<char>
    decreases ds.len(),
{
    if ds.len() <= 3 {
        ds
    } else {
        grouped(ds.take(ds.len() - 3)) + seq![','] + ds.skip(ds.len() - 3)
    }
}

/// The display text of an amount: its decimal digits in groups of three,
/// a minus sign ahead of a negative amount.
pub open spec fn spec_format_amount(amount: int) -> Seq<char> {
    if amount < 0 {
        seq!['-'] + grouped(dec_digits(-amount))
    } else {
        grouped(dec_digits(amount))
    }
}

/// One digit as text.
fn digit_str(d: u64) -> (r: &'static str)
    requires
        d < 10,
    ensures
        r@ == seq![digit_char(d as int)],
{
    let r: &'static str = if d == 0 {
        "0"
    } else if d == 1 {
        "1"
    } else if d == 2 {
        "2"
    } else if d == 3 {
        "3"
    } else if d == 4 {
        "4"
    } else if d == 5 {
        "5"
    } else if d == 6 {
        "6"
    } else if d == 7 {
        "7"
    } else if d == 8 {
        "8"
    } else {
        "9"
    };
    proof {
        reveal_strlit("0");
        reveal_strlit("1");
        reveal_strlit("2");
        reveal_strlit("3");
        reveal_strlit("4");
        reveal_strlit("5");
        reveal_strlit("6");
        reveal_strlit("7");
        reveal_strlit("8");
        reveal_strlit("9");
        assert(r@ =~= seq![digit_char(d as int)]);
    }
    r
}

/// The decimal text of a number.
pub fn number_string(n: u64) -> (r: String)
    ensures
        r@ == dec_digits(n as int),
    decreases n,
{
    if n < 10 {
        String::from_str(digit_str(n))
    } else {
        let mut s = number_string(n / 10);
        s.append(digit_str(n % 10));
        proof {
            assert(dec_digits((n / 10) as int).push(digit_char((n % 10) as int)) =~= dec_digits(
                (n / 10) as int,
            ) + seq![digit_char((n % 10) as int)]);
        }
        s
    }
}

/// Groups digit text by threes from the right.
fn group_digits(s: &str) -> (r: String)
    ensures
        r@ == grouped(s@),
    decreases s@.len(),
{
    let n = s.unicode_len();
    if n <= 3 {
        s.to_owned()
    } else {
        let head = s.substring_char(0, n - 3);
        let tail = s.substring_char(n - 3, n);
        let mut r = group_digits(head);
        r.append(",");
        r.append(tail);
        proof {
            reveal_strlit(",");
            assert(head@ =~= s@.take(s@.len() - 3));
            assert(tail@ =~= s@.skip(s@.len() - 3));
            assert(","@ =~= seq![',']);
            assert(r@ =~= grouped(s@.take(s@.len() - 3)) + seq![','] + s@.skip(s@.len() - 3));
        }
        r
    }
}

/// Renders an amount with thousands separators, a minus sign ahead of a
/// negative amount.
pub fn format_amount(amount: i64) -> (r: String)
    ensures
        r@ == spec_format_amount(amount as int),
{
    let mag: u64 = if amount >= 0 {
        amount as u64
    } else {
        let wide: i128 = amount as i128;
        (-wide) as u64
    };
    let digits = number_string(mag);
    let grouped_text = group_digits(digits.as_str());
    if amount < 0 {
        let mut r = String::from_str("-");
        r.append(grouped_text.as_str());
        proof {
            reveal_strlit("-");
            assert("-"@ =~= seq!['-']);
            assert(r@ =~= seq!['-'] + grouped(dec_digits(mag as int)));
        }
        r
    } else {
        grouped_text
    }
}

/// A run of zero characters.
pub open spec fn zeros(k: int) -> Seq<char>
    decreases k,
{
    if k <= 0 {
        Seq::empty()
    } else {
        zeros(k - 1).push('0')
    }
}

/// Decimal digits, left-padded with zeros to the width.
pub open spec fn padded_digits(n: int, width: int) -> Seq<char> {
    zeros(width - dec_digits(n).len()) + dec_digits(n)
}

/// The calendar text of a date: the year zero-padded to four digits, month
/// and day to two, joined by dashes; a minus sign ahead of a negative year.
pub open spec fn spec_format_date(d: Date) -> Seq<char> {
    let y = if d.year < 0 {
        seq!['-'] + padded_digits(-(d.year as int), 4)
    } else {
        padded_digits(d.year as int, 4)
    };
    y + seq!['-'] + padded_digits(d.month as int, 2) + seq!['-'] + padded_digits(d.day as int, 2)
}

/// The decimal text of a number, left-padded with zeros to the width.
pub fn padded_number(n: u64, width: usize) -> (r: String)
    ensures
        r@ == padded_digits(n as int, width as int),
{
    let digits = number_string(n);
    let len = digits.as_str().unicode_len();
    let pad: usize = if len >= width {
        0
    } else {
        width - len
    };
    let ghost total = pad as int;
    let mut r = String::new();
    let mut k: usize = pad;
    while k > 0
        invariant
            k <= pad,
            total == pad as int,
            r@ == zeros(total - k),
        decreases k,
    {
        r.append("0");
        proof {
            reveal_strlit("0");
            assert(zeros(total - k + 1) =~= zeros(total - k) + "0"@);
        }
        k = k - 1;
    }
    r.append(digits.as_str());
    proof {
        assert(zeros(total) =~= zeros(width - dec_digits(n as int).len()));
    }
    r
}

/// Renders a date as `YYYY-MM-DD` calendar text.
pub fn format_date(d: &Date) -> (r: String)
    ensures
        r@ == spec_format_date(*d),
{
    let mut r: String;
    if d.year < 0 {
        r = String::from_str("-");
        let wide: i64 = -(d.year as i64);
        let y = padded_number(wide as u64, 4);
        r.append(y.as_str());
        proof {
            reveal_strlit("-");
            assert(r@ =~= seq!['-'] + padded_digits(-(d.year as int), 4));
        }
    } else {
        r = padded_number(d.year as u64, 4);
    }
    let ghost y_text = r@;
    r.append("-");
    let m = padded_number(d.month as u64, 2);
    r.append(m.as_str());
    r.append("-");
    let dd = padded_number(d.day as u64, 2);
    r.append(dd.as_str());
    proof {
        reveal_strlit("-");
        assert("-"@ =~= seq!['-']);
        assert(r@ =~= spec_format_date(*d));
    }
    r
}

} // verus!
