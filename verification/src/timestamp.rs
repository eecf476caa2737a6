//! Timezone-aware civil timestamps in the service's fixed wire pattern
//! `year-month-dayThour:minute:second[.fraction]` followed by a `+hh:mm` or
//! `-hh:mm` offset, and the strict parser for it: any deviation from the
//! pattern is a parse failure.
use vstd::prelude::*;
use vstd::string::*;

use crate::error::DecodeError;
use crate::helpers::str_to_chars;

verus! {

broadcast use vstd::std_specs::control_flow::group_control_flow_axioms;

/// A timezone-aware instant as read from the wire: civil date and time,
/// fractional seconds in nanoseconds, and the fixed offset as parsed.
#[derive(Debug, Clone, Copy, PartialEq, Eq, Structural, Hash)]
pub struct Timestamp {
    pub year: u16,
    pub month: u8,
    pub day: u8,
    pub hour: u8,
    pub minute: u8,
    pub second: u8,
    pub nanos: u32,
    pub offset_negative: bool,
    pub offset_hours: u8,
    pub offset_minutes: u8,
}

impl Timestamp {
    /// The field ranges every parsed timestamp satisfies.
    pub open spec fn wf(self) -> bool {
        &&& self.year <= 9999
        &&& 1 <= self.month <= 12
        &&& 1 <= self.day <= 31
        &&& self.hour <= 23
        &&& self.minute <= 59
        &&& self.second <= 59
        &&& self.nanos <= 999_999_999
        &&& self.offset_hours <= 23
        &&& self.offset_minutes <= 59
    }

    /// The offset east of UTC in seconds, negative west of UTC.
    pub open spec fn spec_offset_seconds(self) -> int {
        if self.offset_negative {
            -(self.offset_hours * 3600 + self.offset_minutes * 60)
        } else {
            self.offset_hours * 3600 + self.offset_minutes * 60
        }
    }

    /// The offset east of UTC in seconds, negative west of UTC.
    pub fn offset_seconds(&self) -> (r: i32)
        requires
            self.wf(),
        ensures
            r as int == self.spec_offset_seconds(),
    {
        let magnitude: i32 = (self.offset_hours as i32) * 3600 + (self.offset_minutes as i32) * 60;
        if self.offset_negative {
            -magnitude
        } else {
            magnitude
        }
    }
}

/// Whether `c` is a decimal digit.
pub open spec fn is_digit(c: char) -> bool {
    48 <= (c as u32) && (c as u32) <= 57
}

/// The numeric value of the digit at index `i`.
pub open spec fn val_at(s: Seq<char>, i: int) -> int {
    (s[i] as u32) - 48
}

/// Whether every character of `s` is a decimal digit.
pub open spec fn all_digits(s: Seq<char>) -> bool {
    forall|i: int| 0 <= i < s.len() ==> is_digit(#[trigger] s[i])
}

/// The numeric value of a digit string, most significant digit first.
pub open spec fn digits_val(s: Seq<char>) -> int
    decreases s.len(),
{
    if s.len() == 0 {
        0
    } else {
        digits_val(s.drop_last()) * 10 + val_at(s, s.len() - 1)
    }
}

/// Ten to the power `n`.
pub open spec fn pow10(n: nat) -> int
    decreases n,
{
    if n == 0 {
        1
    } else {
        10 * pow10((n - 1) as nat)
    }
}

/// The concrete values of the ten-powers up to one billion.
pub proof fn lemma_pow10_values()
    ensures
        pow10(0) == 1,
        pow10(1) == 10,
        pow10(2) == 100,
        pow10(3) == 1000,
        pow10(4) == 10000,
        pow10(5) == 100000,
        pow10(6) == 1000000,
        pow10(7) == 10000000,
        pow10(8) == 100000000,
        pow10(9) == 1_000_000_000,
{
    assert(pow10(0) == 1);
    assert(pow10(1) == 10);
    assert(pow10(2) == 100);
    assert(pow10(3) == 1000);
    assert(pow10(4) == 10000);
    assert(pow10(5) == 100000);
    assert(pow10(6) == 1000000);
    assert(pow10(7) == 10000000);
    assert(pow10(8) == 100000000);
    assert(pow10(9) == 1_000_000_000);
}

/// Ten to any power is positive.
pub proof fn lemma_pow10_positive(n: nat)
    ensures
        pow10(n) >= 1,
    decreases n,
{
    if n > 0 {
        lemma_pow10_positive((n - 1) as nat);
    }
}

/// The value of a digit string is nonnegative and below ten to its length.
pub proof fn lemma_digits_val_bound(s: Seq<char>)
    requires
        all_digits(s),
    ensures
        0 <= digits_val(s) < pow10(s.len()),
    decreases s.len(),
{
    if s.len() > 0 {
        assert(all_digits(s.drop_last()));
        lemma_digits_val_bound(s.drop_last());
        assert(is_digit(s[s.len() - 1]));
        assert(digits_val(s.drop_last()) * 10 <= (pow10((s.len() - 1) as nat) - 1) * 10)
            by (nonlinear_arith)
            requires
                digits_val(s.drop_last()) <= pow10((s.len() - 1) as nat) - 1;
        assert(digits_val(s.drop_last()) * 10 >= 0) by (nonlinear_arith)
            requires
                digits_val(s.drop_last()) >= 0;
    }
}

/// Ten-powers multiply by adding exponents.
pub proof fn lemma_pow10_add(a: nat, b: nat)
    ensures
        pow10(a) * pow10(b) == pow10(a + b),
    decreases a,
{
    if a == 0 {
    } else {
        lemma_pow10_add((a - 1) as nat, b);
        assert(pow10(a) * pow10(b) == 10 * (pow10((a - 1) as nat) * pow10(b))) by (nonlinear_arith)
            requires
                pow10(a) == 10 * pow10((a - 1) as nat);
    }
}

/// Whether the fraction region (everything between the seconds and the
/// offset sign) is acceptable: empty, or a dot followed by one to nine
/// digits.
pub open spec fn frac_ok(f: Seq<char>) -> bool {
    ||| f.len() == 0
    ||| (f[0] == '.' && 2 <= f.len() <= 10 && all_digits(f.subrange(1, f.len() as int)))
}

/// The nanoseconds encoded by the fraction region: its digits, scaled so
/// that one fractional digit counts hundreds of milliseconds.
pub open spec fn frac_nanos(f: Seq<char>) -> int {
    if f.len() == 0 {
        0
    } else {
        digits_val(f.subrange(1, f.len() as int)) * pow10((10 - f.len()) as nat)
    }
}

/// The nanoseconds of an acceptable fraction region fit below one second.
pub proof fn lemma_frac_nanos_bound(f: Seq<char>)
    requires
        frac_ok(f),
    ensures
        0 <= frac_nanos(f) <= 999_999_999,
{
    if f.len() != 0 {
        let digits = f.subrange(1, f.len() as int);
        lemma_digits_val_bound(digits);
        lemma_pow10_add((f.len() - 1) as nat, (10 - f.len()) as nat);
        lemma_pow10_positive((10 - f.len()) as nat);
        assert(digits_val(digits) * pow10((10 - f.len()) as nat) <= (pow10((f.len() - 1) as nat)
            - 1) * pow10((10 - f.len()) as nat)) by (nonlinear_arith)
            requires
                digits_val(digits) <= pow10((f.len() - 1) as nat) - 1,
                pow10((10 - f.len()) as nat) >= 1;
        assert((pow10((f.len() - 1) as nat) - 1) * pow10((10 - f.len()) as nat) == pow10(
            (f.len() - 1) as nat,
        ) * pow10((10 - f.len()) as nat) - pow10((10 - f.len()) as nat)) by (nonlinear_arith);
        assert(digits_val(digits) * pow10((10 - f.len()) as nat) >= 0) by (nonlinear_arith)
            requires
                digits_val(digits) >= 0,
                pow10((10 - f.len()) as nat) >= 1;
        lemma_pow10_values();
        lemma_pow10_positive((10 - f.len()) as nat);
    }
}

/// Whether `year` is a leap year in the proleptic Gregorian calendar.
pub open spec fn is_leap_year(year: int) -> bool {
    year % 4 == 0 && (year % 100 != 0 || year % 400 == 0)
}

/// The number of days in `month` of `year` (`1 <= month <= 12`).
pub open spec fn days_in_month(year: int, month: int) -> int {
    if month == 2 {
        if is_leap_year(year) {
            29
        } else {
            28
        }
    } else if month == 4 || month == 6 || month == 9 || month == 11 {
        30
    } else {
        31
    }
}

/// Whether `s` matches the fixed timestamp pattern, field ranges included.
pub open spec fn ts_wf(s: Seq<char>) -> bool {
    let n = s.len() as int;
    &&& s.len() >= 25
    &&& is_digit(s[0]) && is_digit(s[1]) && is_digit(s[2]) && is_digit(s[3])
    &&& s[4] == '-'
    &&& is_digit(s[5]) && is_digit(s[6])
    &&& s[7] == '-'
    &&& is_digit(s[8]) && is_digit(s[9])
    &&& s[10] == 'T'
    &&& is_digit(s[11]) && is_digit(s[12])
    &&& s[13] == ':'
    &&& is_digit(s[14]) && is_digit(s[15])
    &&& s[16] == ':'
    &&& is_digit(s[17]) && is_digit(s[18])
    &&& frac_ok(s.subrange(19, n - 6))
    &&& (s[n - 6] == '+' || s[n - 6] == '-')
    &&& is_digit(s[n - 5]) && is_digit(s[n - 4])
    &&& s[n - 3] == ':'
    &&& is_digit(s[n - 2]) && is_digit(s[n - 1])
    &&& 1 <= val_at(s, 5) * 10 + val_at(s, 6) <= 12
    &&& 1 <= val_at(s, 8) * 10 + val_at(s, 9) <= days_in_month(
        val_at(s, 0) * 1000 + val_at(s, 1) * 100 + val_at(s, 2) * 10 + val_at(s, 3),
        val_at(s, 5) * 10 + val_at(s, 6),
    )
    &&& val_at(s, 11) * 10 + val_at(s, 12) <= 23
    &&& val_at(s, 14) * 10 + val_at(s, 15) <= 59
    &&& val_at(s, 17) * 10 + val_at(s, 18) <= 59
    &&& val_at(s, n - 5) * 10 + val_at(s, n - 4) <= 23
    &&& val_at(s, n - 2) * 10 + val_at(s, n - 1) <= 59
}

/// The timestamp encoded by a pattern-matching `s`.
pub open spec fn ts_value(s: Seq<char>) -> Timestamp {
    let n = s.len() as int;
    Timestamp {
        year: (val_at(s, 0) * 1000 + val_at(s, 1) * 100 + val_at(s, 2) * 10 + val_at(s, 3)) as u16,
        month: (val_at(s, 5) * 10 + val_at(s, 6)) as u8,
        day: (val_at(s, 8) * 10 + val_at(s, 9)) as u8,
        hour: (val_at(s, 11) * 10 + val_at(s, 12)) as u8,
        minute: (val_at(s, 14) * 10 + val_at(s, 15)) as u8,
        second: (val_at(s, 17) * 10 + val_at(s, 18)) as u8,
        nanos: frac_nanos(s.subrange(19, n - 6)) as u32,
        offset_negative: s[n - 6] == '-',
        offset_hours: (val_at(s, n - 5) * 10 + val_at(s, n - 4)) as u8,
        offset_minutes: (val_at(s, n - 2) * 10 + val_at(s, n - 1)) as u8,
    }
}

/// The result of strictly parsing `s` against the fixed pattern.
pub open spec fn ts_parse(s: Seq<char>) -> Option<Timestamp> {
    if ts_wf(s) {
        Some(ts_value(s))
    } else {
        None
    }
}

/// Every successfully parsed timestamp satisfies the field ranges.
pub proof fn lemma_ts_parse_wf(s: Seq<char>)
    requires
        ts_parse(s) is Some,
    ensures
        ts_parse(s).unwrap().wf(),
{
    lemma_frac_nanos_bound(s.subrange(19, s.len() - 6));
}

fn digit_req(cs: &Vec<char>, i: usize) -> (r: Result<u8, DecodeError>)
    requires
        i < cs@.len(),
    ensures
        match r {
            Ok(v) => is_digit(cs@[i as int]) && v as int == val_at(cs@, i as int) && v <= 9,
            Err(e) => !is_digit(cs@[i as int]) && e == DecodeError::MalformedTimestamp,
        },
{
    let c = cs[i];
    let v = c as u32;
    if 48 <= v && v <= 57 {
        Ok((v - 48) as u8)
    } else {
        Err(DecodeError::MalformedTimestamp)
    }
}

fn two_digits(cs: &Vec<char>, i: usize) -> (r: Result<u8, DecodeError>)
    requires
        i + 2 <= cs.len(),
    ensures
        match r {
            Ok(v) => is_digit(cs@[i as int]) && is_digit(cs@[i + 1]) && v as int == val_at(
                cs@,
                i as int,
            ) * 10 + val_at(cs@, i + 1) && v <= 99,
            Err(e) => !(is_digit(cs@[i as int]) && is_digit(cs@[i + 1])) && e
                == DecodeError::MalformedTimestamp,
        },
{
    let hi = digit_req(cs, i)?;
    let lo = digit_req(cs, i + 1)?;
    Ok(hi * 10 + lo)
}

fn month_days(year: u16, month: u8) -> (r: u8)
    requires
        1 <= month <= 12,
    ensures
        r as int == days_in_month(year as int, month as int),
        28 <= r <= 31,
{
    if month == 2 {
        if year % 4 == 0 && (year % 100 != 0 || year % 400 == 0) {
            29
        } else {
            28
        }
    } else if month == 4 || month == 6 || month == 9 || month == 11 {
        30
    } else {
        31
    }
}

/// Parse `s` strictly against the fixed timestamp pattern; any deviation
/// fails with a malformed-timestamp error.
pub fn parse_timestamp(s: &str) -> (r: Result<Timestamp, DecodeError>)
    ensures
        match r {
            Ok(t) => ts_parse(s@) == Some(t),
            Err(e) => ts_parse(s@) is None && e == DecodeError::MalformedTimestamp,
        },
{
    let cs = str_to_chars(s);
    let n = cs.len();
    if n < 25 {
        return Err(DecodeError::MalformedTimestamp);
    }
    let year_hi = two_digits(&cs, 0)?;
    let year_lo = two_digits(&cs, 2)?;
    if !(cs[4] == '-') {
        return Err(DecodeError::MalformedTimestamp);
    }
    let month = two_digits(&cs, 5)?;
    if !(cs[7] == '-') {
        return Err(DecodeError::MalformedTimestamp);
    }
    let day = two_digits(&cs, 8)?;
    if !(cs[10] == 'T') {
        return Err(DecodeError::MalformedTimestamp);
    }
    let hour = two_digits(&cs, 11)?;
    if !(cs[13] == ':') {
        return Err(DecodeError::MalformedTimestamp);
    }
    let minute = two_digits(&cs, 14)?;
    if !(cs[16] == ':') {
        return Err(DecodeError::MalformedTimestamp);
    }
    let second = two_digits(&cs, 17)?;
    let nanos = parse_fraction(&cs)?;
    let sign = cs[n - 6];
    if !(sign == '+' || sign == '-') {
        return Err(DecodeError::MalformedTimestamp);
    }
    let off_h = two_digits(&cs, n - 5)?;
    if !(cs[n - 3] == ':') {
        return Err(DecodeError::MalformedTimestamp);
    }
    let off_m = two_digits(&cs, n - 2)?;
    if !(1 <= month && month <= 12) {
        return Err(DecodeError::MalformedTimestamp);
    }
    let year: u16 = (year_hi as u16) * 100 + (year_lo as u16);
    if !(1 <= day && day <= month_days(year, month)) {
        return Err(DecodeError::MalformedTimestamp);
    }
    if !(hour <= 23) {
        return Err(DecodeError::MalformedTimestamp);
    }
    if !(minute <= 59) {
        return Err(DecodeError::MalformedTimestamp);
    }
    if !(second <= 59) {
        return Err(DecodeError::MalformedTimestamp);
    }
    if !(off_h <= 23) {
        return Err(DecodeError::MalformedTimestamp);
    }
    if !(off_m <= 59) {
        return Err(DecodeError::MalformedTimestamp);
    }
    let t = Timestamp {
        year,
        month,
        day,
        hour,
        minute,
        second,
        nanos,
        offset_negative: sign == '-',
        offset_hours: off_h,
        offset_minutes: off_m,
    };
    proof {
        assert(ts_wf(s@));
        assert(year as int == val_at(s@, 0) * 1000 + val_at(s@, 1) * 100 + val_at(s@, 2) * 10
            + val_at(s@, 3));
        assert(t == ts_value(s@));
    }
    Ok(t)
}

fn parse_fraction(cs: &Vec<char>) -> (r: Result<u32, DecodeError>)
    requires
        cs@.len() >= 25,
    ensures
        match r {
            Ok(v) => frac_ok(cs@.subrange(19, cs@.len() - 6)) && v as int == frac_nanos(
                cs@.subrange(19, cs@.len() - 6),
            ) && v <= 999_999_999,
            Err(e) => !frac_ok(cs@.subrange(19, cs@.len() - 6)) && e
                == DecodeError::MalformedTimestamp,
        },
{
    let ghost f = cs@.subrange(19, cs@.len() - 6);
    let n = cs.len();
    let flen = n - 25;
    if flen == 0 {
        assert(f.len() == 0);
        return Ok(0);
    }
    assert(f.len() == flen);
    if !(cs[19] == '.') {
        assert(f[0] == cs@[19]);
        return Err(DecodeError::MalformedTimestamp);
    }
    assert(f[0] == '.');
    if flen < 2 || flen > 10 {
        return Err(DecodeError::MalformedTimestamp);
    }
    let digit_count = flen - 1;
    let mut acc: u32 = 0;
    let mut k: usize = 20;
    while k < n - 6
        invariant
            cs@.len() == n,
            25 <= n,
            2 <= n - 25 <= 10,
            20 <= k <= n - 6,
            acc as int == digits_val(cs@.subrange(20, k as int)),
            all_digits(cs@.subrange(20, k as int)),
            (acc as int) < pow10((k - 20) as nat),
            acc <= 999_999_999,
        decreases n - 6 - k,
    {
        let d = match digit_req(cs, k) {
            Ok(d) => d,
            Err(_) => {
                proof {
                    let fr = cs@.subrange(19, cs@.len() - 6);
                    let digits = fr.subrange(1, fr.len() as int);
                    assert(digits[k - 20] == cs@[k as int]);
                    assert(!is_digit(digits[k - 20]));
                    assert(!frac_ok(fr));
                }
                return Err(DecodeError::MalformedTimestamp);
            },
        };
        proof {
            let pre = cs@.subrange(20, k as int);
            let post = cs@.subrange(20, k as int + 1);
            assert(post.drop_last() =~= pre);
            assert(post.last() == cs@[k as int]);
            assert(digits_val(post) == digits_val(pre) * 10 + val_at(cs@, k as int));
            assert(forall|j: int| 0 <= j < post.len() ==> is_digit(#[trigger] post[j]));
            assert(pow10(((k + 1) - 20) as nat) == 10 * pow10((k - 20) as nat));
            assert((acc as int) * 10 + d < 10 * pow10((k - 20) as nat)) by (nonlinear_arith)
                requires
                    (acc as int) < pow10((k - 20) as nat),
                    0 <= d <= 9,
                    acc >= 0;
            lemma_pow10_values();
            lemma_pow10_le(((k + 1) - 20) as nat, 9);
        }
        acc = acc * 10 + (d as u32);
        k = k + 1;
    }
    proof {
        assert(cs@.subrange(20, n - 6) =~= f.subrange(1, f.len() as int));
        assert(frac_ok(f));
    }
    let scale: u32 = match digit_count {
        1 => 100_000_000,
        2 => 10_000_000,
        3 => 1_000_000,
        4 => 100_000,
        5 => 10_000,
        6 => 1_000,
        7 => 100,
        8 => 10,
        _ => 1,
    };
    proof {
        lemma_pow10_values();
        assert(scale as int == pow10((10 - f.len()) as nat));
        lemma_pow10_add((f.len() - 1) as nat, (10 - f.len()) as nat);
        assert((acc as int) * (scale as int) < pow10((f.len() - 1) as nat) * pow10((10 - f.len()) as nat))
            by (nonlinear_arith)
            requires
                0 <= (acc as int) < pow10((f.len() - 1) as nat),
                scale as int == pow10((10 - f.len()) as nat),
                scale >= 1;
        assert((acc as int) * (scale as int) >= 0) by (nonlinear_arith)
            requires
                acc >= 0,
                scale >= 1;
        assert((acc as int) * (scale as int) == frac_nanos(f));
    }
    Ok(acc * scale)
}

/// Ten-powers are monotone in the exponent.
pub proof fn lemma_pow10_le(a: nat, b: nat)
    requires
        a <= b,
    ensures
        pow10(a) <= pow10(b),
    decreases b,
{
    if a < b && b > 0 {
        lemma_pow10_le(a, (b - 1) as nat);
        lemma_pow10_positive((b - 1) as nat);
    }
}

} // verus!
