//! Timestamps for session exports.

use vstd::prelude::*;
use crate::text::{decimal, digit_char, push_char, push_decimal_wide, push_str};

verus! {

#[verifier::external_type_specification]
#[verifier::external_body]
pub struct ExSystemTime(std::time::SystemTime);

#[verifier::external_type_specification]
#[verifier::external_body]
pub struct ExSystemTimeError(std::time::SystemTimeError);

/// `SystemTime::now`: the system clock's current time. Nothing is claimed of the value.
#[verifier::external_body]
fn system_time_now() -> std::time::SystemTime {
    std::time::SystemTime::now()
}

/// `SystemTime::duration_since` measured from `UNIX_EPOCH`: an error when `t` lies before the
/// epoch. Nothing is claimed of the value, which follows the clock.
#[verifier::external_body]
fn duration_since_unix_epoch(t: &std::time::SystemTime) -> Result<core::time::Duration, std::time::SystemTimeError> {
    t.duration_since(std::time::UNIX_EPOCH)
}

/// `Duration::as_secs`: the whole seconds of `d`. `Duration` is opaque here, so nothing is
/// claimed of the value.
#[verifier::external_body]
fn duration_whole_secs(d: &core::time::Duration) -> u64 {
    d.as_secs()
}

/// UTC calendar fields `(year, month, day, hour, minute, second)` of a count of seconds since
/// 1970-01-01T00:00:00Z, by Howard Hinnant's days-to-civil conversion (proleptic Gregorian).
pub open spec fn civil_fields(secs: int) -> (int, int, int, int, int, int) {
    let days = secs / 86400;
    let tod = secs % 86400;
    let z = days + 719468;
    let era = z / 146097;
    let doe = z - era * 146097;
    let yoe = (doe - doe / 1460 + doe / 36524 - doe / 146096) / 365;
    let y = yoe + era * 400;
    let doy = doe - (365 * yoe + yoe / 4 - yoe / 100);
    let mp = (5 * doy + 2) / 153;
    let d = doy - (153 * mp + 2) / 5 + 1;
    let m = if mp < 10 {
        mp + 3
    } else {
        mp - 9
    };
    (if m <= 2 {
        y + 1
    } else {
        y
    }, m, d, tod / 3600, (tod % 3600) / 60, tod % 60)
}

/// `digits` with zeros in front up to `width` characters.
pub open spec fn zero_padded(digits: Seq<char>, width: nat) -> Seq<char>
    decreases width - digits.len(),
{
    if digits.len() >= width {
        digits
    } else {
        zero_padded(seq!['0'] + digits, width)
    }
}

/// `n` as `format!("{n:0width$}")` spells it: zero-padded, the sign counting toward the width.
pub open spec fn padded_decimal(n: int, width: nat) -> Seq<char> {
    if n >= 0 {
        zero_padded(decimal(n as nat), width)
    } else {
        seq!['-'] + zero_padded(decimal((-n) as nat), if width >= 1 {
            (width - 1) as nat
        } else {
            0
        })
    }
}

/// The year (0 to 399) within a 400-year era, counted from March 1, of the era's day `doe`.
pub open spec fn era_year_of(doe: int) -> int {
    (doe - doe / 1460 + doe / 36524 - doe / 146096) / 365
}

/// The day of that year (0 from March 1) of the era's day `doe`.
pub open spec fn era_day_of_year(doe: int) -> int {
    let yoe = era_year_of(doe);
    doe - (365 * yoe + yoe / 4 - yoe / 100)
}

/// Within an era, the year of era and the day of year stay in range.
proof fn lemma_era_day(doe: int)
    requires
        0 <= doe <= 146096,
    ensures
        0 <= era_year_of(doe) <= 399,
        0 <= era_day_of_year(doe) <= 365,
        era_year_of(doe) == 399 ==> era_day_of_year(doe) == doe - 145731,
{
    if doe == 146096 {
        assert(doe / 1460 == 100) by {
            vstd::arithmetic::div_mod::lemma_fundamental_div_mod_converse(doe, 1460, 100, 96);
        }
        assert(doe / 36524 == 4) by {
            vstd::arithmetic::div_mod::lemma_fundamental_div_mod_converse(doe, 36524, 4, 0);
        }
        assert(doe / 146096 == 1) by {
            vstd::arithmetic::div_mod::lemma_fundamental_div_mod_converse(doe, 146096, 1, 0);
        }
        assert(era_year_of(doe) == 399) by {
            vstd::arithmetic::div_mod::lemma_fundamental_div_mod_converse(145999, 365, 399, 364);
        }
        assert(399int / 4 == 99 && 399int / 100 == 3);
    } else {
        let b = doe / 36524;
        let r = doe % 36524;
        vstd::arithmetic::div_mod::lemma_fundamental_div_mod(doe, 36524);
        assert(0 <= b <= 3);
        let q = r / 1461;
        let sr = r % 1461;
        vstd::arithmetic::div_mod::lemma_fundamental_div_mod(r, 1461);
        assert(0 <= q <= 24);
        let t = (24 * b + q + sr) / 1460;
        vstd::arithmetic::div_mod::lemma_fundamental_div_mod(24 * b + q + sr, 1460);
        assert(0 <= t <= 1);
        assert(doe == 36524 * b + 1461 * q + sr);
        assert(doe / 1460 == 25 * b + q + t) by {
            vstd::arithmetic::div_mod::lemma_fundamental_div_mod_converse(
                doe,
                1460,
                25 * b + q + t,
                (24 * b + q + sr) - 1460 * t,
            );
        }
        assert(doe / 146096 == 0) by {
            vstd::arithmetic::div_mod::lemma_fundamental_div_mod_converse(doe, 146096, 0, doe);
        }
        assert(sr == 0 ==> t == 0);
        let k = (sr - t) / 365;
        vstd::arithmetic::div_mod::lemma_fundamental_div_mod(sr - t, 365);
        assert(0 <= k <= 3);
        let e = doe - doe / 1460 + doe / 36524 - doe / 146096;
        assert(e == 365 * (100 * b + 4 * q) + (sr - t));
        assert(era_year_of(doe) == 100 * b + 4 * q + k) by {
            vstd::arithmetic::div_mod::lemma_fundamental_div_mod_converse(
                e,
                365,
                100 * b + 4 * q + k,
                (sr - t) - 365 * k,
            );
        }
        let yoe = 100 * b + 4 * q + k;
        assert(yoe / 4 == 25 * b + q) by {
            vstd::arithmetic::div_mod::lemma_fundamental_div_mod_converse(yoe, 4, 25 * b + q, k);
        }
        assert(yoe / 100 == b) by {
            vstd::arithmetic::div_mod::lemma_fundamental_div_mod_converse(yoe, 100, b, 4 * q + k);
        }
        assert(era_day_of_year(doe) == sr - 365 * k);
    }
}

/// An ASCII decimal digit.
pub open spec fn is_digit(c: char) -> bool {
    '0' <= c && c <= '9'
}

/// `s` has the `YYYYMMDD-HHMMSS` shape: fifteen characters, a dash ninth, digits elsewhere.
pub open spec fn timestamp_shaped(s: Seq<char>) -> bool {
    &&& s.len() == 15
    &&& s[8] == '-'
    &&& forall|i: int| 0 <= i < 15 && i != 8 ==> is_digit(#[trigger] s[i])
}

proof fn lemma_decimal_digits(n: nat)
    ensures
        decimal(n).len() >= 1,
        forall|i: int| 0 <= i < decimal(n).len() ==> is_digit(#[trigger] decimal(n)[i]),
        n < 10 ==> decimal(n).len() == 1,
        n < 100 ==> decimal(n).len() <= 2,
        n < 1000 ==> decimal(n).len() <= 3,
        n < 10000 ==> decimal(n).len() <= 4,
    decreases n,
{
    if n < 10 {
        assert(is_digit(digit_char(n)));
    } else {
        lemma_decimal_digits(n / 10);
        assert(is_digit(digit_char(n % 10)));
        let d = decimal(n / 10);
        assert(decimal(n) == d.push(digit_char(n % 10)));
        assert forall|i: int| 0 <= i < decimal(n).len() implies is_digit(#[trigger] decimal(n)[i]) by {
            if i < d.len() {
                assert(decimal(n)[i] == d[i]);
            }
        }
    }
}

proof fn lemma_zero_padded_digits(digits: Seq<char>, width: nat)
    requires
        digits.len() <= width,
        forall|i: int| 0 <= i < digits.len() ==> is_digit(#[trigger] digits[i]),
    ensures
        zero_padded(digits, width).len() == width,
        forall|i: int| 0 <= i < width ==> is_digit(#[trigger] zero_padded(digits, width)[i]),
    decreases width - digits.len(),
{
    if digits.len() < width {
        let next = seq!['0'] + digits;
        assert forall|i: int| 0 <= i < next.len() implies is_digit(#[trigger] next[i]) by {
            if i > 0 {
                assert(next[i] == digits[i - 1]);
            }
        }
        lemma_zero_padded_digits(next, width);
    }
}

proof fn lemma_padded_digits(n: int, width: nat)
    requires
        0 <= n,
        width == 2 && n < 100 || width == 4 && n < 10000,
    ensures
        padded_decimal(n, width).len() == width,
        forall|i: int| 0 <= i < width ==> is_digit(#[trigger] padded_decimal(n, width)[i]),
{
    lemma_decimal_digits(n as nat);
    lemma_zero_padded_digits(decimal(n as nat), width);
}

/// From the epoch to the end of year 9999 a timestamp is fifteen characters: eight digits of
/// date, a dash, six digits of time.
pub proof fn law_timestamp_shape(secs: int)
    requires
        0 <= secs < seconds_before_year_10000(),
    ensures
        timestamp_shaped(spec_timestamp(secs)),
{
    lemma_civil_ranges(secs);
    let f = civil_fields(secs);
    lemma_padded_digits(f.0, 4);
    lemma_padded_digits(f.1, 2);
    lemma_padded_digits(f.2, 2);
    lemma_padded_digits(f.3, 2);
    lemma_padded_digits(f.4, 2);
    lemma_padded_digits(f.5, 2);
    let a = padded_decimal(f.0, 4);
    let b = padded_decimal(f.1, 2);
    let c = padded_decimal(f.2, 2);
    let h = padded_decimal(f.3, 2);
    let mi = padded_decimal(f.4, 2);
    let se = padded_decimal(f.5, 2);
    let t = spec_timestamp(secs);
    assert(t == a + b + c + seq!['-'] + h + mi + se);
    assert(t.len() == 15);
    assert(t[8] == '-');
    assert forall|i: int| 0 <= i < 15 && i != 8 implies is_digit(#[trigger] t[i]) by {
        if i < 4 {
            assert(t[i] == a[i]);
        } else if i < 6 {
            assert(t[i] == b[i - 4]);
        } else if i < 8 {
            assert(t[i] == c[i - 6]);
        } else if i < 11 {
            assert(t[i] == h[i - 9]);
        } else if i < 13 {
            assert(t[i] == mi[i - 11]);
        } else {
            assert(t[i] == se[i - 13]);
        }
    }
}

/// Seconds from the Unix epoch to the start of year 10000.
pub open spec fn seconds_before_year_10000() -> int {
    253402300800
}

/// From the epoch to the end of year 9999 the calendar fields stay in range: a year of at
/// most four digits, a month 1 to 12, a day 1 to 31, an hour 0 to 23, minutes and seconds 0
/// to 59.
proof fn lemma_civil_ranges(secs: int)
    requires
        0 <= secs < seconds_before_year_10000(),
    ensures
        ({
            let f = civil_fields(secs);
            &&& 0 <= f.0 <= 9999
            &&& 1 <= f.1 <= 12
            &&& 1 <= f.2 <= 31
            &&& 0 <= f.3 <= 23
            &&& 0 <= f.4 <= 59
            &&& 0 <= f.5 <= 59
        }),
{
    let days = secs / 86400;
    let tod = secs % 86400;
    vstd::arithmetic::div_mod::lemma_fundamental_div_mod(secs, 86400);
    assert(0 <= days <= 2932896);
    let z = days + 719468;
    let era = z / 146097;
    vstd::arithmetic::div_mod::lemma_fundamental_div_mod(z, 146097);
    let doe = z - era * 146097;
    assert(4 <= era <= 24);
    assert(0 <= doe <= 146096);
    lemma_era_day(doe);
    let yoe = era_year_of(doe);
    let doy = era_day_of_year(doe);
    let mp = (5 * doy + 2) / 153;
    vstd::arithmetic::div_mod::lemma_fundamental_div_mod(5 * doy + 2, 153);
    assert(0 <= mp <= 11);
    let md = (153 * mp + 2) / 5;
    vstd::arithmetic::div_mod::lemma_fundamental_div_mod(153 * mp + 2, 5);
    let d = doy - md + 1;
    assert(1 <= d <= 31);
    let m = if mp < 10 { mp + 3 } else { mp - 9 };
    assert(1 <= m <= 12);
    let y = yoe + era * 400;
    if era == 24 {
        assert(doe <= 146036);
        if yoe == 399 {
            assert(doy <= 305);
            assert(mp <= 9);
        }
    }
    assert((if m <= 2 { y + 1 } else { y }) <= 9999);
    vstd::arithmetic::div_mod::lemma_fundamental_div_mod(tod, 3600);
    vstd::arithmetic::div_mod::lemma_fundamental_div_mod(tod % 3600, 60);
    vstd::arithmetic::div_mod::lemma_fundamental_div_mod(tod, 60);
    let f = civil_fields(secs);
    assert(f.1 == m && f.2 == d);
}

/// `YYYYMMDD-HHMMSS` for a count of seconds since the Unix epoch.
pub open spec fn spec_timestamp(secs: int) -> Seq<char> {
    let f = civil_fields(secs);
    padded_decimal(f.0, 4) + padded_decimal(f.1, 2) + padded_decimal(f.2, 2) + seq!['-']
        + padded_decimal(f.3, 2) + padded_decimal(f.4, 2) + padded_decimal(f.5, 2)
}

proof fn lemma_zero_padded_step(digits: Seq<char>, width: nat, k: nat)
    requires
        digits.len() + k <= width,
    ensures
        zero_padded(digits, width) == zero_padded(Seq::new(k, |i: int| '0') + digits, width),
    decreases k,
{
    if k > 0 {
        let z = Seq::new(k, |i: int| '0');
        let z1 = Seq::new((k - 1) as nat, |i: int| '0');
        assert(z + digits =~= z1 + (seq!['0'] + digits));
        lemma_zero_padded_step(seq!['0'] + digits, width, (k - 1) as nat);
    }
}

/// Append `n` zero-padded to `width` digits.
fn push_padded_u64(s: &mut String, n: u64, width: usize)
    ensures
        final(s)@ == old(s)@ + zero_padded(decimal(n as nat), width as nat),
{
    let mut digits = String::new();
    push_decimal_wide(&mut digits, n as u128);
    let len = digits.as_str().unicode_len();
    let mut k: usize = 0;
    let ghost start = s@;
    if len < width {
        while k < width - len
            invariant
                len < width,
                k <= width - len,
                s@ == start + Seq::new(k as nat, |i: int| '0'),
            decreases width - len - k,
        {
            push_char(s, '0');
            proof {
                assert(Seq::new((k + 1) as nat, |i: int| '0') =~= Seq::new(k as nat, |i: int| '0').push('0'));
            }
            k = k + 1;
        }
        proof {
            lemma_zero_padded_step(digits@, width as nat, (width - len) as nat);
            let z = Seq::new((width - len) as nat, |i: int| '0');
            assert((z + digits@).len() >= width);
            assert(zero_padded(z + digits@, width as nat) == z + digits@);
        }
    } else {
        proof {
            assert(s@ =~= start + Seq::new(0, |i: int| '0'));
        }
    }
    push_str(s, digits.as_str());
    proof {
        assert(s@ =~= start + zero_padded(decimal(n as nat), width as nat));
    }
}


/// Floor quotient and remainder of `a` by a positive `b` (`div_euclid`, `rem_euclid`).
fn div_rem_euclid(a: i64, b: i64) -> (r: (i64, i64))
    requires
        b > 0,
    ensures
        r.0 == a / b,
        r.1 == a % b,
{
    let bu = b as u64;
    if a >= 0 {
        let au = a as u64;
        let q = au / bu;
        let m = au % bu;
        proof {
            vstd::arithmetic::div_mod::lemma_fundamental_div_mod(au as int, bu as int);
            vstd::arithmetic::div_mod::lemma_fundamental_div_mod_converse(a as int, b as int, q as int, m as int);
            assert(q <= au) by (nonlinear_arith)
                requires q == au / bu, bu > 0, au >= 0;
        }
        (q as i64, m as i64)
    } else {
        let m = (-(a + 1)) as u64;
        let q = m / bu;
        let rem = m % bu;
        proof {
            vstd::arithmetic::div_mod::lemma_fundamental_div_mod(m as int, bu as int);
            assert(q <= m) by (nonlinear_arith)
                requires q == m / bu, bu > 0, m >= 0;
            assert(a as int == (-(q as int) - 1) * (b as int) + (b - rem - 1)) by (nonlinear_arith)
                requires m == -(a + 1), m == q * bu + rem, bu == b;
            vstd::arithmetic::div_mod::lemma_fundamental_div_mod_converse(
                a as int,
                b as int,
                -(q as int) - 1,
                (b - rem - 1) as int,
            );
        }
        (-(q as i64) - 1, b - (rem as i64) - 1)
    }
}

/// Append `n` as `format!("{n:0width$}")` spells it.
fn push_padded_i64(s: &mut String, n: i64, width: usize)
    ensures
        final(s)@ == old(s)@ + padded_decimal(n as int, width as nat),
{
    if n >= 0 {
        push_padded_u64(s, n as u64, width);
    } else {
        let ghost start = s@;
        push_char(s, '-');
        let magnitude: u64 = ((-(n + 1)) as u64) + 1;
        let w = if width >= 1 {
            width - 1
        } else {
            0
        };
        push_padded_u64(s, magnitude, w);
        proof {
            assert(magnitude as int == -(n as int));
            assert(s@ =~= start + padded_decimal(n as int, width as nat));
        }
    }
}

/// The `YYYYMMDD-HHMMSS` UTC timestamp of `secs` seconds since the Unix epoch (before it when
/// negative).
pub fn timestamp_from_unix_secs(secs: i64) -> (r: String)
    ensures
        r@ == spec_timestamp(secs as int),
        0 <= secs < seconds_before_year_10000() ==> timestamp_shaped(r@),
{
    let (days, tod) = div_rem_euclid(secs, 86_400);
    let hour = tod / 3600;
    let min = (tod % 3600) / 60;
    let sec = tod % 60;
    let z = days + 719_468;
    let (era, doe) = div_rem_euclid(z, 146_097);
    let (a, _) = div_rem_euclid(doe, 1460);
    let (b, _) = div_rem_euclid(doe, 36_524);
    let (c, _) = div_rem_euclid(doe, 146_096);
    let (yoe, _) = div_rem_euclid(doe - a + b - c, 365);
    let mut year = yoe + era * 400;
    let (q4, _) = div_rem_euclid(yoe, 4);
    let (q100, _) = div_rem_euclid(yoe, 100);
    let doy = doe - (365 * yoe + q4 - q100);
    let (mp, _) = div_rem_euclid(5 * doy + 2, 153);
    let (mq, _) = div_rem_euclid(153 * mp + 2, 5);
    let day = doy - mq + 1;
    let month = if mp < 10 {
        mp + 3
    } else {
        mp - 9
    };
    if month <= 2 {
        year = year + 1;
    }
    let mut out = String::new();
    push_padded_i64(&mut out, year, 4);
    push_padded_i64(&mut out, month, 2);
    push_padded_i64(&mut out, day, 2);
    push_char(&mut out, '-');
    push_padded_i64(&mut out, hour, 2);
    push_padded_i64(&mut out, min, 2);
    push_padded_i64(&mut out, sec, 2);
    proof {
        let f = civil_fields(secs as int);
        assert(f == (year as int, month as int, day as int, hour as int, min as int, sec as int));
        assert(out@ =~= spec_timestamp(secs as int));
        if 0 <= secs < seconds_before_year_10000() {
            law_timestamp_shape(secs as int);
        }
    }
    out
}

/// Current UTC time as `YYYYMMDD-HHMMSS`, used for session-export filenames and headers. A
/// clock set before the epoch reads as the epoch.
pub fn utc_timestamp() -> (r: String)
    ensures
        exists|secs: u64| r@ == #[trigger] spec_timestamp((secs as i64) as int),
{
    let now = system_time_now();
    let secs: u64 = match duration_since_unix_epoch(&now) {
        Ok(d) => duration_whole_secs(&d),
        Err(_) => 0,
    };
    timestamp_from_unix_secs(secs as i64)
}

} // verus!
