use vstd::prelude::*;

verus! {

use crate::errors::Error;
use crate::numbers::{all_digits, digits_val, spec_is_digit, digit_val};

// ---------------------------------------------------------------------------
// The proleptic Gregorian calendar
// ---------------------------------------------------------------------------

pub open spec fn spec_is_leap_year(y: int) -> bool {
    y % 4 == 0 && (y % 100 != 0 || y % 400 == 0)
}

pub open spec fn spec_days_in_year(y: int) -> int {
    if spec_is_leap_year(y) {
        366
    } else {
        365
    }
}

pub open spec fn spec_days_in_month(y: int, m: int) -> int {
    if m == 2 {
        if spec_is_leap_year(y) {
            29
        } else {
            28
        }
    } else if m == 4 || m == 6 || m == 9 || m == 11 {
        30
    } else {
        31
    }
}

/// Days from the first day of year zero to the first day of year `y`.
pub open spec fn days_before_year(y: int) -> int
    decreases y,
{
    if y <= 0 {
        0
    } else {
        days_before_year(y - 1) + spec_days_in_year(y - 1)
    }
}

/// Days from the first day of month one to the first day of month `m`,
/// within year `y`.
pub open spec fn days_before_month(y: int, m: int) -> int
    decreases m,
{
    if m <= 1 {
        0
    } else {
        days_before_month(y, m - 1) + spec_days_in_month(y, m - 1)
    }
}

/// The day number of a date: days since the first day of year zero.
pub open spec fn spec_day_number(y: int, m: int, d: int) -> int {
    days_before_year(y) + days_before_month(y, m) + d - 1
}

/// The timestamp (seconds) of noon on a date, measured from the epoch
/// 1970-01-01 00:00:00 in the same naive timeline.  Noon is chosen so that
/// time-zone boundary shifts cannot move the displayed date.
pub open spec fn spec_date_timestamp(y: int, m: int, d: int) -> int {
    (spec_day_number(y, m, d) - spec_day_number(1970, 1, 1)) * 86400 + 43200
}

/// A well-formed calendar date with a four-digit year.
pub open spec fn valid_ymd(y: int, m: int, d: int) -> bool {
    0 <= y <= 9999 && 1 <= m <= 12 && 1 <= d <= spec_days_in_month(y, m)
}

// ---------------------------------------------------------------------------
// The `YYYY-MM-DD` form
// ---------------------------------------------------------------------------

/// The shape of a date string: exactly `YYYY-MM-DD`, four digits, a hyphen,
/// two digits, a hyphen, two digits.
pub open spec fn date_shape(s: Seq<char>) -> bool {
    &&& s.len() == 10
    &&& all_digits(s.subrange(0, 4))
    &&& s[4] == '-'
    &&& all_digits(s.subrange(5, 7))
    &&& s[7] == '-'
    &&& all_digits(s.subrange(8, 10))
}

pub open spec fn date_year(s: Seq<char>) -> int {
    digits_val(s.subrange(0, 4))
}

pub open spec fn date_month(s: Seq<char>) -> int {
    digits_val(s.subrange(5, 7))
}

pub open spec fn date_day(s: Seq<char>) -> int {
    digits_val(s.subrange(8, 10))
}

/// A parsable date string: the `YYYY-MM-DD` shape naming a real calendar date.
pub open spec fn valid_date_str(s: Seq<char>) -> bool {
    date_shape(s) && valid_ymd(date_year(s), date_month(s), date_day(s))
}

// ---------------------------------------------------------------------------
// Lemmas
// ---------------------------------------------------------------------------

/// A digit string of length at most four reads as a value below ten thousand.
proof fn lemma_digits_val_small(s: Seq<char>)
    requires
        all_digits(s),
        s.len() <= 4,
    ensures
        0 <= digits_val(s),
        s.len() == 1 ==> digits_val(s) <= 9,
        s.len() == 2 ==> digits_val(s) <= 99,
        s.len() == 3 ==> digits_val(s) <= 999,
        s.len() == 4 ==> digits_val(s) <= 9999,
    decreases s.len(),
{
    if s.len() > 0 {
        assert(all_digits(s.drop_last()));
        lemma_digits_val_small(s.drop_last());
        assert(0 <= digit_val(s.last()) <= 9);
    }
}

// ---------------------------------------------------------------------------
// Executable code
// ---------------------------------------------------------------------------

fn is_leap_year(y: u32) -> (r: bool)
    ensures
        r == spec_is_leap_year(y as int),
{
    y % 4 == 0 && (y % 100 != 0 || y % 400 == 0)
}

fn days_in_month(y: u32, m: u32) -> (r: u32)
    requires
        1 <= m <= 12,
    ensures
        r == spec_days_in_month(y as int, m as int),
{
    if m == 2 {
        if is_leap_year(y) {
            29
        } else {
            28
        }
    } else if m == 4 || m == 6 || m == 9 || m == 11 {
        30
    } else {
        31
    }
}

/// The day number of a date, counted from the first day of year zero.
fn day_number(y: u32, m: u32, d: u32) -> (r: i64)
    requires
        y <= 9999,
        1 <= m <= 12,
        1 <= d <= 31,
    ensures
        r == spec_day_number(y as int, m as int, d as int),
        0 <= r <= 366 * (y as int) + 403,
{
    let mut days: i64 = 0;
    let mut yy: u32 = 0;
    while yy < y
        invariant
            yy <= y <= 9999,
            days == days_before_year(yy as int),
            0 <= days <= 366 * yy,
        decreases y - yy,
    {
        days = days + if is_leap_year(yy) {
            366
        } else {
            365
        };
        yy = yy + 1;
    }
    let mut mm: u32 = 1;
    while mm < m
        invariant
            1 <= mm <= m <= 12,
            y <= 9999,
            days == days_before_year(y as int) + days_before_month(y as int, mm as int),
            0 <= days <= 366 * y + 31 * mm,
        decreases m - mm,
    {
        days = days + days_in_month(y, mm) as i64;
        mm = mm + 1;
    }
    days + (d as i64) - 1
}

/// Reads the digit window `s[from..to]` as a number; `None` when any
/// character there is not a digit.
fn read_digits(s: &str, from: usize, to: usize) -> (r: Option<u32>)
    requires
        from <= to <= s@.len(),
        to - from <= 4,
    ensures
        r is Some <==> all_digits(s@.subrange(from as int, to as int)),
        r is Some ==> r->0 == digits_val(s@.subrange(from as int, to as int)),
{
    let ghost window = s@.subrange(from as int, to as int);
    let mut val: u32 = 0;
    let mut i: usize = from;
    while i < to
        invariant
            from <= i <= to <= s@.len(),
            to - from <= 4,
            window == s@.subrange(from as int, to as int),
            all_digits(window.take(i - from)),
            val == digits_val(window.take(i - from)),
            val <= 9999,
        decreases to - i,
    {
        let c = s.get_char(i);
        let u = c as u32;
        if !(48 <= u && u <= 57) {
            assert(!spec_is_digit(window[i - from]));
            return None;
        }
        proof {
            assert(window.take(i - from + 1).drop_last() =~= window.take(i - from));
            assert(window.take(i - from + 1).last() == window[i - from]);
            lemma_digits_val_small(window.take(i - from + 1));
        }
        val = val * 10 + (u - 48);
        i += 1;
    }
    proof {
        assert(window.take(to - from) =~= window);
    }
    Some(val)
}

/// Parse a `YYYY-MM-DD` date string and give the timestamp of noon on that
/// date; any string that is not exactly that shape, or that names a day
/// outside its month, fails with `InvalidDate`.
pub fn parse_date_noon(s: &str) -> (r: Result<i64, Error>)
    ensures
        valid_date_str(s@) ==> r is Ok && r->Ok_0 == spec_date_timestamp(
            date_year(s@),
            date_month(s@),
            date_day(s@),
        ),
        !valid_date_str(s@) ==> r == Err::<i64, Error>(Error::InvalidDate),
{
    let n = s.unicode_len();
    if n != 10 {
        return Err(Error::InvalidDate);
    }
    if !(s.get_char(4) == '-' && s.get_char(7) == '-') {
        return Err(Error::InvalidDate);
    }
    let y = match read_digits(s, 0, 4) {
        Some(v) => v,
        None => {
            return Err(Error::InvalidDate);
        },
    };
    let m = match read_digits(s, 5, 7) {
        Some(v) => v,
        None => {
            return Err(Error::InvalidDate);
        },
    };
    let d = match read_digits(s, 8, 10) {
        Some(v) => v,
        None => {
            return Err(Error::InvalidDate);
        },
    };
    proof {
        lemma_digits_val_small(s@.subrange(0, 4));
        lemma_digits_val_small(s@.subrange(5, 7));
        lemma_digits_val_small(s@.subrange(8, 10));
    }
    if !(1 <= m && m <= 12) {
        return Err(Error::InvalidDate);
    }
    if !(1 <= d && d <= days_in_month(y, m)) {
        return Err(Error::InvalidDate);
    }
    let days = day_number(y, m, d);
    let epoch = day_number(1970, 1, 1);
    Ok((days - epoch) * 86400 + 43200)
}

/// The current time in whole seconds since 1970-01-01 00:00:00 UTC.
///
/// Relies on chrono: `Utc::now()` reads the system clock, and `timestamp()`
/// is its value in seconds since the epoch.  The result depends on the clock,
/// so nothing is promised of it.
#[verifier::external_body]
pub fn now_timestamp() -> i64 {
    chrono::Utc::now().timestamp()
}

} // verus!
