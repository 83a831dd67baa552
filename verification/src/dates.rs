//! Reading calendar dates out of strings of digits: the first eight
//! digits are taken as day, month and four-digit year, and handed to
//! chrono for validation.

use vstd::prelude::*;

verus! {

use vstd::string::StrSliceExecFns;

use crate::strings::StrExtension;
use crate::strings::digit_char_value;
use crate::strings::is_digit_char;

#[verifier::external_type_specification]
#[verifier::external_body]
pub struct ExNaiveDate(chrono::NaiveDate);

/// True of leap years of the proleptic Gregorian calendar.
pub open spec fn is_leap_year(y: int) -> bool {
    y % 4 == 0 && (y % 100 != 0 || y % 400 == 0)
}

/// The number of days of a month in the proleptic Gregorian calendar.
pub open spec fn days_in_month(y: int, m: int) -> int
    recommends
        1 <= m <= 12,
{
    if m == 2 {
        if is_leap_year(y) {
            29
        } else {
            28
        }
    } else if m == 4 || m == 6 || m == 9 || m == 11 {
        30
    } else {
        31
    }
}

/// True of existing dates of the proleptic Gregorian calendar.
pub open spec fn is_valid_ymd(y: int, m: int, d: int) -> bool {
    1 <= m <= 12 && 1 <= d <= days_in_month(y, m)
}

/// Relies on chrono's `NaiveDate::from_ymd_opt`: for a year between 0
/// and 9999 (well inside chrono's year range) it returns `Some` exactly
/// when the day and month form an existing date of the proleptic
/// Gregorian calendar.
#[verifier::external_body]
fn naive_date_from_ymd(year: i32, month: u32, day: u32) -> (r: Option<chrono::NaiveDate>)
    requires
        0 <= year <= 9999,
    ensures
        r is Some <==> is_valid_ymd(year as int, month as int, day as int),
{
    chrono::NaiveDate::from_ymd_opt(year, month, day)
}

/// The day encoded in the first eight of the digit characters, read as
/// `DDMMYYYY`.
pub open spec fn spec_encoded_day(ds: Seq<char>) -> int
    recommends
        ds.len() >= 8,
{
    10 * digit_char_value(ds[0]) + digit_char_value(ds[1])
}

/// The month encoded in the first eight of the digit characters.
pub open spec fn spec_encoded_month(ds: Seq<char>) -> int
    recommends
        ds.len() >= 8,
{
    10 * digit_char_value(ds[2]) + digit_char_value(ds[3])
}

/// The year encoded in the first eight of the digit characters.
pub open spec fn spec_encoded_year(ds: Seq<char>) -> int
    recommends
        ds.len() >= 8,
{
    1000 * digit_char_value(ds[4]) + 100 * digit_char_value(ds[5]) + 10 * digit_char_value(ds[6])
        + digit_char_value(ds[7])
}

/// True when the first eight digits of the string, read as `DDMMYYYY`,
/// name an existing calendar date.
pub open spec fn spec_digits_form_date(ds: Seq<char>) -> bool
    recommends
        ds.len() >= 8,
{
    is_valid_ymd(spec_encoded_year(ds), spec_encoded_month(ds), spec_encoded_day(ds))
}

/// Gets a date from a string containing at least eight digits, read as
/// `DDMMYYYY` after every non-digit is dropped. Returns `None` when
/// fewer than eight digits remain or when they name no existing date.
pub fn get_naive_date(date: &str) -> (r: Option<chrono::NaiveDate>)
    ensures
        ({
            let ds = date@.filter(|c: char| is_digit_char(c));
            if ds.len() < 8 {
                r is None
            } else {
                r is Some <==> spec_digits_form_date(ds)
            }
        }),
{
    date_from_digit_prefix(date)
}

/// Gets a date from a string containing at least eight digits; the same
/// reading as `get_naive_date`, arrived at by integer arithmetic.
pub fn get_naive_date_v2(date: &str) -> (r: Option<chrono::NaiveDate>)
    ensures
        ({
            let ds = date@.filter(|c: char| is_digit_char(c));
            if ds.len() < 8 {
                r is None
            } else {
                r is Some <==> spec_digits_form_date(ds)
            }
        }),
{
    date_from_digit_prefix(date)
}

/// The shared reading: drop non-digits, take the first eight digits as
/// `DDMMYYYY`, and validate through chrono.
fn date_from_digit_prefix(date: &str) -> (r: Option<chrono::NaiveDate>)
    ensures
        ({
            let ds = date@.filter(|c: char| is_digit_char(c));
            if ds.len() < 8 {
                r is None
            } else {
                r is Some <==> spec_digits_form_date(ds)
            }
        }),
{
    let digits = date.remove_non_digits();
    let ghost ds = date@.filter(|c: char| is_digit_char(c));
    if digits.as_str().chars_count() < 8 {
        return None;
    }
    proof {
        broadcast use Seq::lemma_filter_pred;

    }
    let s = digits.as_str();
    let d0 = digit_at(s, 0);
    let d1 = digit_at(s, 1);
    let d2 = digit_at(s, 2);
    let d3 = digit_at(s, 3);
    let d4 = digit_at(s, 4);
    let d5 = digit_at(s, 5);
    let d6 = digit_at(s, 6);
    let d7 = digit_at(s, 7);
    let day = 10 * d0 + d1;
    let month = 10 * d2 + d3;
    let year = 1000 * d4 + 100 * d5 + 10 * d6 + d7;
    naive_date_from_ymd(year as i32, month, day)
}

/// Reads the digit character at the given position of a digit string.
fn digit_at(s: &str, i: usize) -> (d: u32)
    requires
        i < s@.len(),
        is_digit_char(s@[i as int]),
    ensures
        d == digit_char_value(s@[i as int]),
        d <= 9,
{
    let c = s.get_char(i);
    c as u32 - 48
}

} // verus!
