//! Time formatting: a Unix timestamp rendered as `"YYYY-MM-DD HH:MM:SS"` in
//! UTC, computed purely from arithmetic on the proleptic Gregorian calendar,
//! with no external calendar or time-zone data.

use vstd::prelude::*;
use crate::chars::string_of;

verus! {

pub open spec fn is_leap(y: int) -> bool {
    y % 4 == 0 && (y % 100 != 0 || y % 400 == 0)
}

pub open spec fn days_in_year(y: int) -> int {
    if is_leap(y) {
        366
    } else {
        365
    }
}

pub open spec fn days_in_month(y: int, m: int) -> int {
    if m == 1 {
        31
    } else if m == 2 {
        if is_leap(y) {
            29
        } else {
            28
        }
    } else if m == 3 {
        31
    } else if m == 4 {
        30
    } else if m == 5 {
        31
    } else if m == 6 {
        30
    } else if m == 7 {
        31
    } else if m == 8 {
        31
    } else if m == 9 {
        30
    } else if m == 10 {
        31
    } else if m == 11 {
        30
    } else {
        31
    }
}

/// The year reached from year `y` after consuming `days` whole days, with the
/// days left over inside that year.
pub open spec fn year_from(y: int, days: int) -> (int, int)
    decreases days,
{
    if days < days_in_year(y) {
        (y, days)
    } else {
        year_from(y + 1, days - days_in_year(y))
    }
}

/// The month reached from month `m` of year `y` after consuming `days` days,
/// with the days left over inside that month.
pub open spec fn month_from(y: int, m: int, days: int) -> (int, int)
    decreases 13 - m,
{
    if m > 12 {
        (m, days)
    } else if days < days_in_month(y, m) {
        (m, days)
    } else {
        month_from(y, m + 1, days - days_in_month(y, m))
    }
}

/// The days of the months `m..=12` of year `y`, taken together.
pub open spec fn months_rest(y: int, m: int) -> int
    decreases 13 - m,
{
    if m > 12 {
        0
    } else {
        days_in_month(y, m) + months_rest(y, m + 1)
    }
}

pub open spec fn digit_char(d: int) -> char {
    if d == 0 {
        '0'
    } else if d == 1 {
        '1'
    } else if d == 2 {
        '2'
    } else if d == 3 {
        '3'
    } else if d == 4 {
        '4'
    } else if d == 5 {
        '5'
    } else if d == 6 {
        '6'
    } else if d == 7 {
        '7'
    } else if d == 8 {
        '8'
    } else {
        '9'
    }
}

/// The decimal digits of `n`, most significant first.
pub open spec fn dec_str(n: int) -> Seq<char>
    decreases n,
{
    if n < 10 {
        seq![digit_char(n)]
    } else {
        dec_str(n / 10) + seq![digit_char(n % 10)]
    }
}

pub open spec fn two_digits(n: int) -> Seq<char> {
    seq![digit_char(n / 10), digit_char(n % 10)]
}

/// `n` in decimal, zero-padded on the left to at least four digits.
pub open spec fn four_digits(n: int) -> Seq<char> {
    if n < 10 {
        seq!['0', '0', '0'] + dec_str(n)
    } else if n < 100 {
        seq!['0', '0'] + dec_str(n)
    } else if n < 1000 {
        seq!['0'] + dec_str(n)
    } else {
        dec_str(n)
    }
}

/// The timestamp `secs` (seconds since the Unix epoch) rendered as
/// `"YYYY-MM-DD HH:MM:SS"` in UTC.
pub open spec fn utc_string(secs: int) -> Seq<char> {
    let sec = secs % 60;
    let minute = (secs / 60) % 60;
    let hour = (secs / 3600) % 24;
    let days = secs / 86400;
    let yr = year_from(1970, days);
    let mo = month_from(yr.0, 1, yr.1);
    four_digits(yr.0) + seq!['-'] + two_digits(mo.0) + seq!['-'] + two_digits(mo.1 + 1) + seq![' ']
        + two_digits(hour) + seq![':'] + two_digits(minute) + seq![':'] + two_digits(sec)
}

/// The year the timestamp `secs` falls in.
pub open spec fn utc_year(secs: int) -> int {
    year_from(1970, secs / 86400).0
}

pub open spec fn is_digit(c: char) -> bool {
    c == '0' || c == '1' || c == '2' || c == '3' || c == '4' || c == '5' || c == '6' || c == '7'
        || c == '8' || c == '9'
}

proof fn lemma_dec_str_digits(n: int)
    ensures
        forall|i: int| 0 <= i < dec_str(n).len() ==> is_digit(#[trigger] dec_str(n)[i]),
    decreases n,
{
    if n >= 10 {
        lemma_dec_str_digits(n / 10);
        assert forall|i: int| 0 <= i < dec_str(n).len() implies is_digit(
            #[trigger] dec_str(n)[i],
        ) by {
            if i < dec_str(n / 10).len() {
                assert(dec_str(n)[i] == dec_str(n / 10)[i]);
            } else {
                assert(dec_str(n)[i] == digit_char(n % 10));
            }
        }
    }
}

proof fn lemma_dec_str_len(n: int)
    requires
        n >= 0,
    ensures
        n < 10 ==> dec_str(n).len() == 1,
        10 <= n < 100 ==> dec_str(n).len() == 2,
        100 <= n < 1000 ==> dec_str(n).len() == 3,
        1000 <= n < 10000 ==> dec_str(n).len() == 4,
        n >= 10000 ==> dec_str(n).len() >= 5,
    decreases n,
{
    if n >= 10 {
        lemma_dec_str_len(n / 10);
    }
}

proof fn lemma_year_from_bounds(y: int, days: int)
    requires
        days >= 0,
    ensures
        year_from(y, days).0 >= y,
        0 <= year_from(y, days).1 < days_in_year(year_from(y, days).0),
    decreases days,
{
    if days >= days_in_year(y) {
        lemma_year_from_bounds(y + 1, days - days_in_year(y));
    }
}

proof fn lemma_month_from_bounds(y: int, m: int, days: int)
    requires
        1 <= m <= 13,
        0 <= days < months_rest(y, m),
    ensures
        m <= month_from(y, m, days).0 <= 12,
        0 <= month_from(y, m, days).1 < days_in_month(y, month_from(y, m, days).0),
    decreases 13 - m,
{
    if m <= 12 && days >= days_in_month(y, m) {
        lemma_month_from_bounds(y, m + 1, days - days_in_month(y, m));
    }
}

proof fn lemma_months_rest_is_year(y: int)
    ensures
        months_rest(y, 1) == days_in_year(y),
{
    reveal_with_fuel(months_rest, 14);
}

/// The fixed format of the rendering: while the year has four digits, the
/// result is exactly 19 characters, with `'-'` at positions 4 and 7, `' '`
/// at 10, `':'` at 13 and 16, and a decimal digit at every other position —
/// every field zero-padded to its width.
pub proof fn lemma_utc_string_shape(secs: int)
    requires
        secs >= 0,
        utc_year(secs) < 10000,
    ensures
        utc_string(secs).len() == 19,
        utc_string(secs)[4] == '-',
        utc_string(secs)[7] == '-',
        utc_string(secs)[10] == ' ',
        utc_string(secs)[13] == ':',
        utc_string(secs)[16] == ':',
        forall|i: int|
            0 <= i < 19 && i != 4 && i != 7 && i != 10 && i != 13 && i != 16 ==> is_digit(
                #[trigger] utc_string(secs)[i],
            ),
{
    let days = secs / 86400;
    lemma_year_from_bounds(1970, days);
    let yr = year_from(1970, days);
    let mo = month_from(yr.0, 1, yr.1);
    lemma_dec_str_len(yr.0);
    lemma_dec_str_digits(yr.0);
    assert(four_digits(yr.0) == dec_str(yr.0));
    assert(dec_str(yr.0).len() == 4);
    let str = utc_string(secs);
    assert(str.len() == 19);
    assert forall|i: int|
        0 <= i < 19 && i != 4 && i != 7 && i != 10 && i != 13 && i != 16 implies is_digit(
        #[trigger] str[i],
    ) by {
        if i < 4 {
            assert(str[i] == dec_str(yr.0)[i]);
        } else if i == 5 || i == 6 {
            assert(str[i] == two_digits(mo.0)[i - 5]);
        } else if i == 8 || i == 9 {
            assert(str[i] == two_digits(mo.1 + 1)[i - 8]);
        } else if i == 11 || i == 12 {
            assert(str[i] == two_digits((secs / 3600) % 24)[i - 11]);
        } else if i == 14 || i == 15 {
            assert(str[i] == two_digits((secs / 60) % 60)[i - 14]);
        } else {
            assert(str[i] == two_digits(secs % 60)[i - 17]);
        }
    }
}

fn digit_exec(d: u64) -> (c: char)
    requires
        d < 10,
    ensures
        c == digit_char(d as int),
{
    if d == 0 {
        '0'
    } else if d == 1 {
        '1'
    } else if d == 2 {
        '2'
    } else if d == 3 {
        '3'
    } else if d == 4 {
        '4'
    } else if d == 5 {
        '5'
    } else if d == 6 {
        '6'
    } else if d == 7 {
        '7'
    } else if d == 8 {
        '8'
    } else {
        '9'
    }
}

pub(crate) fn dec_chars(n: u64) -> (r: Vec<char>)
    ensures
        r@ == dec_str(n as int),
    decreases n,
{
    if n < 10 {
        let mut v: Vec<char> = Vec::new();
        v.push(digit_exec(n));
        assert(v@ =~= seq![digit_char(n as int)]);
        v
    } else {
        let mut v = dec_chars(n / 10);
        v.push(digit_exec(n % 10));
        assert(v@ =~= dec_str(n as int / 10) + seq![digit_char(n as int % 10)]);
        v
    }
}

fn push_two_digits(out: &mut Vec<char>, n: u64)
    requires
        n < 100,
    ensures
        final(out)@ == old(out)@ + two_digits(n as int),
{
    out.push(digit_exec(n / 10));
    out.push(digit_exec(n % 10));
    assert(out@ =~= old(out)@ + two_digits(n as int));
}

fn days_in_year_exec(y: u64) -> (r: u64)
    ensures
        r == days_in_year(y as int),
{
    if y % 4 == 0 && (y % 100 != 0 || y % 400 == 0) {
        366
    } else {
        365
    }
}

fn days_in_month_exec(y: u64, m: u64) -> (r: u64)
    requires
        1 <= m <= 12,
    ensures
        r == days_in_month(y as int, m as int),
{
    if m == 1 {
        31
    } else if m == 2 {
        if y % 4 == 0 && (y % 100 != 0 || y % 400 == 0) {
            29
        } else {
            28
        }
    } else if m == 3 {
        31
    } else if m == 4 {
        30
    } else if m == 5 {
        31
    } else if m == 6 {
        30
    } else if m == 7 {
        31
    } else if m == 8 {
        31
    } else if m == 9 {
        30
    } else if m == 10 {
        31
    } else if m == 11 {
        30
    } else {
        31
    }
}

/// `secs` rendered as `"YYYY-MM-DD HH:MM:SS"` in UTC.  The result has the
/// fixed 19-character width exactly as long as the year still has four
/// digits.
pub fn format_utc(secs: u64) -> (r: String)
    ensures
        r@ == utc_string(secs as int),
        r@.len() == 19 <==> utc_year(secs as int) < 10000,
{
    let sec = secs % 60;
    let minute = (secs / 60) % 60;
    let hour = (secs / 3600) % 24;
    let mut days = secs / 86400;
    let ghost days0 = days as int;

    let mut year: u64 = 1970;
    let mut dy = days_in_year_exec(year);
    while days >= dy
        invariant
            year >= 1970,
            dy == days_in_year(year as int),
            days <= days0,
            days0 <= u64::MAX / 86400,
            365 * (year - 1970) <= days0 - days,
            year_from(1970, days0) == year_from(year as int, days as int),
        decreases days,
    {
        days = days - dy;
        proof {
            assert(year - 1970 <= days0) by (nonlinear_arith)
                requires
                    year >= 1970,
                    days0 >= 0,
                    365 * (year - 1970) <= days0,
            ;
        }
        year = year + 1;
        dy = days_in_year_exec(year);
    }
    assert(year_from(year as int, days as int) == (year as int, days as int));
    proof {
        lemma_year_from_bounds(1970, days0);
    }
    assert(days < 366);

    let ghost rem0 = days as int;
    let mut month: u64 = 1;
    let mut done = false;
    while month <= 12 && !done
        invariant
            1 <= month <= 13,
            days <= rem0,
            rem0 < 366,
            done ==> (month <= 12 && days < days_in_month(year as int, month as int)),
            month_from(year as int, 1, rem0) == month_from(year as int, month as int, days as int),
        decreases 13 - month + (if done {
            0int
        } else {
            1int
        }),
    {
        let dm = days_in_month_exec(year, month);
        if days < dm {
            done = true;
        } else {
            days = days - dm;
            month = month + 1;
        }
    }
    assert(month_from(year as int, month as int, days as int) == (month as int, days as int));
    proof {
        lemma_months_rest_is_year(year as int);
        lemma_month_from_bounds(year as int, 1, rem0);
    }
    assert(1 <= month <= 12);
    assert(days < 31);
    let day = days + 1;

    let mut out: Vec<char> = Vec::new();
    if year < 10 {
        out.push('0');
        out.push('0');
        out.push('0');
    } else if year < 100 {
        out.push('0');
        out.push('0');
    } else if year < 1000 {
        out.push('0');
    }
    let mut yd = dec_chars(year);
    let ghost pad = out@;
    out.append(&mut yd);
    assert(out@ =~= pad + dec_str(year as int));
    assert(out@ =~= four_digits(year as int));
    out.push('-');
    push_two_digits(&mut out, month);
    out.push('-');
    push_two_digits(&mut out, day);
    out.push(' ');
    push_two_digits(&mut out, hour);
    out.push(':');
    push_two_digits(&mut out, minute);
    out.push(':');
    push_two_digits(&mut out, sec);
    assert(out@ =~= utc_string(secs as int));
    proof {
        lemma_dec_str_len(year as int);
    }
    string_of(&out)
}

/// Relies on `std::time::SystemTime`: the seconds of the current instant
/// since the Unix epoch, 0 should the clock read earlier than the epoch.
#[verifier::external_body]
fn now_unix_seconds() -> u64 {
    std::time::SystemTime::now().duration_since(std::time::UNIX_EPOCH).unwrap_or_default().as_secs()
}

/// The current UTC time as `"YYYY-MM-DD HH:MM:SS"`.
pub fn format_utc_now() -> (r: String)
    ensures
        exists|secs: u64| r@ == utc_string(secs as int),
{
    let secs = now_unix_seconds();
    let r = format_utc(secs);
    assert(r@ == utc_string(secs as int));
    r
}

} // verus!
