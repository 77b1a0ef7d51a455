//! Timestamps of the dump format: the fixed `YYYY-MM-DD HH:MM:SS` pattern
//! with an optional fraction, parsed and printed without loss.
use vstd::prelude::*;
use crate::text::{digit_char, digit_val, is_digit, dec_val, all_digits, push_digit};
use crate::error::OsmError;

verus! {

/// A calendar timestamp with microsecond precision, held as plain fields.
#[derive(Debug, Clone, Copy, PartialEq, Eq, Structural)]
pub struct Timestamp {
    pub year: u16,
    pub month: u8,
    pub day: u8,
    pub hour: u8,
    pub minute: u8,
    pub second: u8,
    pub micros: u32,
}

impl Timestamp {
    /// Field ranges of a well-formed timestamp.
    pub open spec fn valid(self) -> bool {
        &&& self.year <= 9999
        &&& 1 <= self.month <= 12
        &&& 1 <= self.day <= 31
        &&& self.hour <= 23
        &&& self.minute <= 59
        &&& self.second <= 59
        &&& self.micros <= 999999
    }

    /// Whether the fields are in range.
    pub fn is_valid(&self) -> (r: bool)
        ensures
            r == self.valid(),
    {
        self.year <= 9999 && 1 <= self.month && self.month <= 12 && 1 <= self.day && self.day <= 31
            && self.hour <= 23 && self.minute <= 59 && self.second <= 59 && self.micros <= 999999
    }

    pub fn new(year: u16, month: u8, day: u8, hour: u8, minute: u8, second: u8, micros: u32) -> (t:
        Timestamp)
        ensures
            t == (Timestamp { year, month, day, hour, minute, second, micros }),
    {
        Timestamp { year, month, day, hour, minute, second, micros }
    }
}

pub open spec fn pad2(n: int) -> Seq<char> {
    seq![digit_char(n / 10 % 10), digit_char(n % 10)]
}

pub open spec fn pad4(n: int) -> Seq<char> {
    seq![
        digit_char(n / 1000 % 10),
        digit_char(n / 100 % 10),
        digit_char(n / 10 % 10),
        digit_char(n % 10),
    ]
}

pub open spec fn pad6(n: int) -> Seq<char> {
    seq![
        digit_char(n / 100000 % 10),
        digit_char(n / 10000 % 10),
        digit_char(n / 1000 % 10),
        digit_char(n / 100 % 10),
        digit_char(n / 10 % 10),
        digit_char(n % 10),
    ]
}

/// `YYYY-MM-DD HH:MM:SS`, zero padded, seconds precision.
pub open spec fn ts_secs_chars(t: Timestamp) -> Seq<char> {
    pad4(t.year as int) + seq!['-'] + pad2(t.month as int) + seq!['-'] + pad2(t.day as int)
        + seq![' '] + pad2(t.hour as int) + seq![':'] + pad2(t.minute as int) + seq![':'] + pad2(
        t.second as int,
    )
}

/// The same pattern with a six-digit microsecond fraction.
pub open spec fn ts_micros_chars(t: Timestamp) -> Seq<char> {
    ts_secs_chars(t) + seq!['.'] + pad6(t.micros as int)
}

pub open spec fn pow10(k: int) -> int
    decreases k,
{
    if k <= 0 {
        1
    } else {
        10 * pow10(k - 1)
    }
}

/// The timestamp grammar: date, space, time, then an optional dot and one to
/// six fraction digits, scaled to microseconds.
pub open spec fn parse_ts_spec(s: Seq<char>) -> Option<Timestamp> {
    if s.len() < 19 {
        None
    } else if !(s[4] == '-' && s[7] == '-' && s[10] == ' ' && s[13] == ':' && s[16] == ':') {
        None
    } else if !(is_digit(s[0]) && is_digit(s[1]) && is_digit(s[2]) && is_digit(s[3]) && is_digit(
        s[5],
    ) && is_digit(s[6]) && is_digit(s[8]) && is_digit(s[9]) && is_digit(s[11]) && is_digit(s[12])
        && is_digit(s[14]) && is_digit(s[15]) && is_digit(s[17]) && is_digit(s[18])) {
        None
    } else {
        let year = digit_val(s[0]) * 1000 + digit_val(s[1]) * 100 + digit_val(s[2]) * 10
            + digit_val(s[3]);
        let month = digit_val(s[5]) * 10 + digit_val(s[6]);
        let day = digit_val(s[8]) * 10 + digit_val(s[9]);
        let hour = digit_val(s[11]) * 10 + digit_val(s[12]);
        let minute = digit_val(s[14]) * 10 + digit_val(s[15]);
        let second = digit_val(s[17]) * 10 + digit_val(s[18]);
        if !(1 <= month <= 12 && 1 <= day <= 31 && hour <= 23 && minute <= 59 && second <= 59) {
            None
        } else if s.len() == 19 {
            Some(
                Timestamp {
                    year: year as u16,
                    month: month as u8,
                    day: day as u8,
                    hour: hour as u8,
                    minute: minute as u8,
                    second: second as u8,
                    micros: 0,
                },
            )
        } else {
            let frac = s.skip(20);
            if s[19] == '.' && 1 <= frac.len() <= 6 && all_digits(frac) {
                Some(
                    Timestamp {
                        year: year as u16,
                        month: month as u8,
                        day: day as u8,
                        hour: hour as u8,
                        minute: minute as u8,
                        second: second as u8,
                        micros: (dec_val(frac) * pow10(6 - frac.len()) as nat) as u32,
                    },
                )
            } else {
                None
            }
        }
    }
}

fn push_pad2(s: &mut String, n: u64)
    requires
        n <= 99,
    ensures
        final(s)@ == old(s)@ + pad2(n as int),
{
    push_digit(s, n / 10 % 10);
    push_digit(s, n % 10);
    assert(final(s)@ =~= old(s)@ + pad2(n as int));
}

fn push_pad4(s: &mut String, n: u64)
    requires
        n <= 9999,
    ensures
        final(s)@ == old(s)@ + pad4(n as int),
{
    push_digit(s, n / 1000 % 10);
    push_digit(s, n / 100 % 10);
    push_digit(s, n / 10 % 10);
    push_digit(s, n % 10);
    assert(final(s)@ =~= old(s)@ + pad4(n as int));
}

fn push_pad6(s: &mut String, n: u64)
    requires
        n <= 999999,
    ensures
        final(s)@ == old(s)@ + pad6(n as int),
{
    push_digit(s, n / 100000 % 10);
    push_digit(s, n / 10000 % 10);
    push_digit(s, n / 1000 % 10);
    push_digit(s, n / 100 % 10);
    push_digit(s, n / 10 % 10);
    push_digit(s, n % 10);
    assert(final(s)@ =~= old(s)@ + pad6(n as int));
}

/// Appends the seconds-precision form of `t`.
pub fn push_sql_time(s: &mut String, t: &Timestamp)
    requires
        t.valid(),
    ensures
        final(s)@ == old(s)@ + ts_secs_chars(*t),
{
    push_pad4(s, t.year as u64);
    proof {
        reveal_strlit("-");
        reveal_strlit(" ");
        reveal_strlit(":");
    }
    s.append("-");
    push_pad2(s, t.month as u64);
    s.append("-");
    push_pad2(s, t.day as u64);
    s.append(" ");
    push_pad2(s, t.hour as u64);
    s.append(":");
    push_pad2(s, t.minute as u64);
    s.append(":");
    push_pad2(s, t.second as u64);
    assert(final(s)@ =~= old(s)@ + ts_secs_chars(*t));
}

/// The timestamp written at seconds precision, as current and historical
/// rows carry it.
pub fn to_sql_time(t: &Timestamp) -> (r: String)
    requires
        t.valid(),
    ensures
        r@ == ts_secs_chars(*t),
{
    let mut s = String::new();
    push_sql_time(&mut s, t);
    assert(s@ =~= ts_secs_chars(*t));
    s
}

/// The timestamp written with its six-digit microsecond fraction, as the
/// synthesized changeset and user rows carry it.
pub fn to_sql_time_micro(t: &Timestamp) -> (r: String)
    requires
        t.valid(),
    ensures
        r@ == ts_micros_chars(*t),
{
    let mut s = String::new();
    push_sql_time(&mut s, t);
    proof {
        reveal_strlit(".");
    }
    s.append(".");
    push_pad6(&mut s, t.micros as u64);
    assert(s@ =~= ts_micros_chars(*t));
    s
}

fn digit_at(s: &str, i: usize) -> (r: Option<u8>)
    requires
        i < s@.len(),
    ensures
        match r {
            Some(d) => is_digit(s@[i as int]) && d == digit_val(s@[i as int]) && d <= 9,
            None => !is_digit(s@[i as int]),
        },
{
    let c = s.get_char(i);
    let cv = c as u32;
    if 48 <= cv && cv <= 57 {
        Some((cv - 48) as u8)
    } else {
        None
    }
}

/// Parses the fixed timestamp pattern with its optional fraction; rejects
/// anything else, including out-of-range calendar fields.
#[verifier::loop_isolation(false)]
#[verifier::rlimit(60)]
pub fn parse_sql_time(s: &str) -> (r: Result<Timestamp, OsmError>)
    ensures
        match r {
            Ok(t) => parse_ts_spec(s@) == Some(t) && t.valid(),
            Err(_) => parse_ts_spec(s@) is None,
        },
{
    let len = s.unicode_len();
    if len < 19 {
        return Err(OsmError::new(String::from_str("timestamp too short")));
    }
    let sep_ok = s.get_char(4) == '-' && s.get_char(7) == '-' && s.get_char(10) == ' '
        && s.get_char(13) == ':' && s.get_char(16) == ':';
    if !sep_ok {
        return Err(OsmError::new(String::from_str("timestamp separators malformed")));
    }
    let d0 = digit_at(s, 0);
    let d1 = digit_at(s, 1);
    let d2 = digit_at(s, 2);
    let d3 = digit_at(s, 3);
    let d5 = digit_at(s, 5);
    let d6 = digit_at(s, 6);
    let d8 = digit_at(s, 8);
    let d9 = digit_at(s, 9);
    let d11 = digit_at(s, 11);
    let d12 = digit_at(s, 12);
    let d14 = digit_at(s, 14);
    let d15 = digit_at(s, 15);
    let d17 = digit_at(s, 17);
    let d18 = digit_at(s, 18);
    if d0.is_none() || d1.is_none() || d2.is_none() || d3.is_none() || d5.is_none() || d6.is_none()
        || d8.is_none() || d9.is_none() || d11.is_none() || d12.is_none() || d14.is_none()
        || d15.is_none() || d17.is_none() || d18.is_none() {
        return Err(OsmError::new(String::from_str("timestamp digits malformed")));
    }
    let year: u16 = (d0.unwrap() as u16) * 1000 + (d1.unwrap() as u16) * 100 + (d2.unwrap()
        as u16) * 10 + (d3.unwrap() as u16);
    let month: u8 = d5.unwrap() * 10 + d6.unwrap();
    let day: u8 = d8.unwrap() * 10 + d9.unwrap();
    let hour: u8 = d11.unwrap() * 10 + d12.unwrap();
    let minute: u8 = d14.unwrap() * 10 + d15.unwrap();
    let second: u8 = d17.unwrap() * 10 + d18.unwrap();
    if !(1 <= month && month <= 12 && 1 <= day && day <= 31 && hour <= 23 && minute <= 59 && second
        <= 59) {
        return Err(OsmError::new(String::from_str("timestamp fields out of range")));
    }
    if len == 19 {
        return Ok(Timestamp { year, month, day, hour, minute, second, micros: 0 });
    }
    if s.get_char(19) != '.' || len < 21 || len > 26 {
        return Err(OsmError::new(String::from_str("timestamp fraction malformed")));
    }
    let mut micros: u32 = 0;
    let mut i: usize = 20;
    let ghost frac = s@.skip(20);
    while i < len
        invariant
            20 <= i <= len,
            all_digits(frac.take(i - 20)),
            micros == dec_val(frac.take(i - 20)),
            micros <= 999999,
        decreases len - i,
    {
        match digit_at(s, i) {
            Some(d) => {
                proof {
                    assert(frac.take(i + 1 - 20).drop_last() =~= frac.take(i - 20));
                    assert(frac.take(i + 1 - 20).last() == s@[i as int]);
                    assert(forall|j: int|
                        0 <= j < i + 1 - 20 ==> #[trigger] frac.take(i + 1 - 20)[j] == frac.take(
                            i - 20,
                        ).push(s@[i as int])[j]);
                    assert(all_digits(frac.take(i + 1 - 20)));
                }
                proof {
                    assert(dec_val(frac.take(i + 1 - 20)) == dec_val(frac.take(i - 20)) * 10
                        + digit_val(frac.take(i + 1 - 20).last()) as nat);
                }
                micros = micros * 10 + (d as u32);
                i = i + 1;
                proof {
                    assert(micros == dec_val(frac.take(i - 20)));
                    lemma_dec_val_upper(frac.take(i - 20));
                    lemma_pow10_mono(i - 20, 6);
                    assert(micros < pow10(6));
                    assert(pow10(6) == 1000000) by {
                        reveal_with_fuel(pow10, 8);
                    }
                }
            },
            None => {
                return Err(OsmError::new(String::from_str("timestamp fraction malformed")));
            },
        }
    }
    proof {
        assert(frac.take(len - 20) =~= frac);
    }
    let mut k: usize = len - 20;
    proof {
        assert(pow10(0) == 1);
        assert(micros == dec_val(frac));
        assert(dec_val(frac) * pow10(0) as nat == dec_val(frac)) by (nonlinear_arith)
            requires
                pow10(0) == 1,
        ;
    }
    while k < 6
        invariant
            len - 20 <= k <= 6,
            micros == dec_val(frac) * pow10(k - (len - 20)) as nat,
            micros <= 999999,
        decreases 6 - k,
    {
        proof {
            let ghost a = pow10(k - (len - 20));
            let ghost b = pow10(k + 1 - (len - 20));
            lemma_pow10_mono(0, k - (len - 20));
            assert(a >= 1);
            assert(k + 1 - (len - 20) >= 1);
            assert(b == 10 * a);
            let ghost dv = dec_val(frac);
            assert(dv * b as nat == (dv * a as nat) * 10) by (nonlinear_arith)
                requires
                    a >= 1,
                    b == 10 * a,
            ;
        }
        micros = micros * 10;
        k = k + 1;
        assert(micros <= 999999) by {
            assert(frac.len() == len - 20);
            assert(1 <= frac.len() <= 6);
            assert(all_digits(frac));
            lemma_dec_val_scale_bound(frac, k - (len - 20));
        }
    }
    proof {
        assert(k == 6);
        assert(frac.len() == len - 20);
        assert(micros == dec_val(frac) * pow10(6 - frac.len()) as nat);
    }
    Ok(Timestamp { year, month, day, hour, minute, second, micros })
}

/// A fraction of up to six digits, scaled to six places, stays below one
/// million.
proof fn lemma_dec_val_scale_bound(frac: Seq<char>, k: int)
    requires
        1 <= frac.len() <= 6,
        all_digits(frac),
        0 <= k <= 6 - frac.len(),
    ensures
        dec_val(frac) * pow10(k) as nat <= 999999,
{
    lemma_dec_val_upper(frac);
    let p = pow10(frac.len() as int);
    let q = pow10(k);
    lemma_pow10_mono(0, k);
    assert(q >= 1);
    lemma_pow10_mono(0, frac.len() as int);
    assert(p >= 1);
    assert(pow10(frac.len() as int + k) <= pow10(6)) by {
        lemma_pow10_mono(frac.len() as int + k, 6);
    }
    assert(pow10(frac.len() as int) * pow10(k) == pow10(frac.len() as int + k)) by {
        lemma_pow10_add(frac.len() as int, k);
    }
    assert((dec_val(frac) as int) * q <= (p - 1) * q) by (nonlinear_arith)
        requires
            dec_val(frac) as int <= p - 1,
            q >= 1,
    ;
    assert((p - 1) * q == p * q - q) by (nonlinear_arith);
    assert(pow10(6) == 1000000) by {
        reveal_with_fuel(pow10, 8);
    }
    assert(p * q <= 1000000);
    assert((dec_val(frac) as int) * q <= 1000000 - q);
    assert(dec_val(frac) * pow10(k) as nat <= 999999);
}

proof fn lemma_pow10_mono(a: int, b: int)
    requires
        0 <= a <= b,
    ensures
        pow10(a) <= pow10(b),
        pow10(a) >= 1,
    decreases b,
{
    if b > 0 {
        if a == b {
            lemma_pow10_mono(a - 1, b - 1);
        } else {
            lemma_pow10_mono(a, b - 1);
        }
    }
}

proof fn lemma_pow10_add(a: int, b: int)
    requires
        0 <= a,
        0 <= b,
    ensures
        pow10(a) * pow10(b) == pow10(a + b),
    decreases a,
{
    if a == 0 {
        assert(pow10(0) == 1);
    } else {
        lemma_pow10_add(a - 1, b);
        assert(pow10(a) == 10 * pow10(a - 1));
        assert((10 * pow10(a - 1)) * pow10(b) == 10 * (pow10(a - 1) * pow10(b)))
            by (nonlinear_arith);
    }
}

/// The value of a digit string is below ten to its length.
proof fn lemma_dec_val_upper(s: Seq<char>)
    requires
        all_digits(s),
    ensures
        dec_val(s) < pow10(s.len() as int),
    decreases s.len(),
{
    if s.len() == 0 {
    } else {
        assert(all_digits(s.drop_last())) by {
            assert(forall|i: int|
                0 <= i < s.len() - 1 ==> #[trigger] s.drop_last()[i] == s[i]);
        }
        lemma_dec_val_upper(s.drop_last());
        assert(is_digit(s.last()));
        assert(digit_val(s.last()) <= 9);
        let d = dec_val(s.drop_last()) as int;
        let p = pow10(s.len() - 1);
        assert(d * 10 + 9 < p * 10) by (nonlinear_arith)
            requires
                d < p,
        ;
        assert(pow10(s.len() as int) == 10 * p);
    }
}

/// Printing a valid timestamp at microsecond precision and parsing it back
/// returns the same timestamp; at seconds precision the fraction is lost.
#[verifier::spinoff_prover]
#[verifier::rlimit(100)]
pub proof fn lemma_sql_time_round_trip(t: Timestamp)
    requires
        t.valid(),
    ensures
        parse_ts_spec(ts_micros_chars(t)) == Some(t),
        parse_ts_spec(ts_secs_chars(t)) == Some(
            Timestamp {
                year: t.year,
                month: t.month,
                day: t.day,
                hour: t.hour,
                minute: t.minute,
                second: t.second,
                micros: 0,
            },
        ),
{
    lemma_ts_secs_round_trip(t);
    let s = ts_micros_chars(t);
    let b = ts_secs_chars(t);
    assert(b.len() == 19);
    assert(forall|i: int| 0 <= i < 19 ==> #[trigger] s[i] == b[i]);
    assert(s.len() == 26);
    assert(s[19] == '.');
    let frac = s.skip(20);
    assert(frac =~= pad6(t.micros as int));
    lemma_pad6_digits(t.micros as int);
    assert(dec_val(frac) == t.micros) by {
        lemma_pad6_val(t.micros as int);
    }
    assert(pow10(0) == 1);
    assert(frac.len() == 6);
    assert(dec_val(frac) * pow10(6 - frac.len()) as nat == t.micros) by (nonlinear_arith)
        requires
            pow10(0) == 1,
            dec_val(frac) == t.micros,
            frac.len() == 6,
    ;
    assert(parse_ts_spec(s) == Some(t));
}

proof fn lemma_ts_secs_round_trip(t: Timestamp)
    requires
        t.valid(),
    ensures
        parse_ts_spec(ts_secs_chars(t)) == Some(
            Timestamp {
                year: t.year,
                month: t.month,
                day: t.day,
                hour: t.hour,
                minute: t.minute,
                second: t.second,
                micros: 0,
            },
        ),
        ts_secs_chars(t).len() == 19,
{
    let s = ts_secs_chars(t);
    lemma_ts_secs_literal(t);
    assert(s.len() == 19);
    lemma_four_digit_val(t.year as int);
    lemma_two_digit_val(t.month as int);
    lemma_two_digit_val(t.day as int);
    lemma_two_digit_val(t.hour as int);
    lemma_two_digit_val(t.minute as int);
    lemma_two_digit_val(t.second as int);
    assert(s[4] == '-' && s[7] == '-' && s[10] == ' ' && s[13] == ':' && s[16] == ':');
}

proof fn lemma_pad6_digits(n: int)
    requires
        0 <= n <= 999999,
    ensures
        all_digits(pad6(n)),
{
    crate::text::lemma_digit_char_val(n / 100000 % 10);
    crate::text::lemma_digit_char_val(n / 10000 % 10);
    crate::text::lemma_digit_char_val(n / 1000 % 10);
    crate::text::lemma_digit_char_val(n / 100 % 10);
    crate::text::lemma_digit_char_val(n / 10 % 10);
    crate::text::lemma_digit_char_val(n % 10);
}

#[verifier::spinoff_prover]
#[verifier::rlimit(100)]
proof fn lemma_pad6_val(n: int)
    requires
        0 <= n <= 999999,
    ensures
        dec_val(pad6(n)) == n,
{
    lemma_pad6_digits(n);
    crate::text::lemma_digit_char_val(n / 100000 % 10);
    crate::text::lemma_digit_char_val(n / 10000 % 10);
    crate::text::lemma_digit_char_val(n / 1000 % 10);
    crate::text::lemma_digit_char_val(n / 100 % 10);
    crate::text::lemma_digit_char_val(n / 10 % 10);
    crate::text::lemma_digit_char_val(n % 10);
    let s = pad6(n);
    assert(s.drop_last() =~= pad6(n).take(5));
    assert(dec_val(s) == ((((digit_val(s[0]) * 10 + digit_val(s[1])) * 10 + digit_val(s[2])) * 10
        + digit_val(s[3])) * 10 + digit_val(s[4])) * 10 + digit_val(s[5])) by {
        lemma_dec_val_unroll6(s);
    }
}

#[verifier::spinoff_prover]
#[verifier::rlimit(100)]
proof fn lemma_dec_val_unroll6(s: Seq<char>)
    requires
        s.len() == 6,
        all_digits(s),
    ensures
        dec_val(s) == ((((digit_val(s[0]) * 10 + digit_val(s[1])) * 10 + digit_val(s[2])) * 10
            + digit_val(s[3])) * 10 + digit_val(s[4])) * 10 + digit_val(s[5]),
{
    let s5 = s.drop_last();
    let s4 = s5.drop_last();
    let s3 = s4.drop_last();
    let s2 = s3.drop_last();
    let s1 = s2.drop_last();
    let s0 = s1.drop_last();
    assert(s0 =~= Seq::<char>::empty());
    assert(dec_val(s) == dec_val(s5) * 10 + digit_val(s.last()) as nat);
    assert(dec_val(s5) == dec_val(s4) * 10 + digit_val(s5.last()) as nat);
    assert(dec_val(s4) == dec_val(s3) * 10 + digit_val(s4.last()) as nat);
    assert(dec_val(s3) == dec_val(s2) * 10 + digit_val(s3.last()) as nat);
    assert(dec_val(s2) == dec_val(s1) * 10 + digit_val(s2.last()) as nat);
    assert(dec_val(s1) == dec_val(s0) * 10 + digit_val(s1.last()) as nat);
    assert(s5.last() == s[4] && s4.last() == s[3] && s3.last() == s[2] && s2.last() == s[1]
        && s1.last() == s[0]);
}

pub proof fn lemma_ts_secs_literal(t: Timestamp)
    ensures
        ts_secs_chars(t) == seq![
            digit_char(t.year as int / 1000 % 10),
            digit_char(t.year as int / 100 % 10),
            digit_char(t.year as int / 10 % 10),
            digit_char(t.year as int % 10),
            '-',
            digit_char(t.month as int / 10 % 10),
            digit_char(t.month as int % 10),
            '-',
            digit_char(t.day as int / 10 % 10),
            digit_char(t.day as int % 10),
            ' ',
            digit_char(t.hour as int / 10 % 10),
            digit_char(t.hour as int % 10),
            ':',
            digit_char(t.minute as int / 10 % 10),
            digit_char(t.minute as int % 10),
            ':',
            digit_char(t.second as int / 10 % 10),
            digit_char(t.second as int % 10),
        ],
{
    assert(ts_secs_chars(t) =~= seq![
        digit_char(t.year as int / 1000 % 10),
        digit_char(t.year as int / 100 % 10),
        digit_char(t.year as int / 10 % 10),
        digit_char(t.year as int % 10),
        '-',
        digit_char(t.month as int / 10 % 10),
        digit_char(t.month as int % 10),
        '-',
        digit_char(t.day as int / 10 % 10),
        digit_char(t.day as int % 10),
        ' ',
        digit_char(t.hour as int / 10 % 10),
        digit_char(t.hour as int % 10),
        ':',
        digit_char(t.minute as int / 10 % 10),
        digit_char(t.minute as int % 10),
        ':',
        digit_char(t.second as int / 10 % 10),
        digit_char(t.second as int % 10),
    ]);
}

proof fn lemma_two_digit_val(n: int)
    requires
        0 <= n <= 99,
    ensures
        is_digit(digit_char(n / 10 % 10)),
        is_digit(digit_char(n % 10)),
        digit_val(digit_char(n / 10 % 10)) * 10 + digit_val(digit_char(n % 10)) == n,
{
    crate::text::lemma_digit_char_val(n / 10 % 10);
    crate::text::lemma_digit_char_val(n % 10);
}

proof fn lemma_four_digit_val(n: int)
    requires
        0 <= n <= 9999,
    ensures
        is_digit(digit_char(n / 1000 % 10)),
        is_digit(digit_char(n / 100 % 10)),
        is_digit(digit_char(n / 10 % 10)),
        is_digit(digit_char(n % 10)),
        digit_val(digit_char(n / 1000 % 10)) * 1000 + digit_val(digit_char(n / 100 % 10)) * 100
            + digit_val(digit_char(n / 10 % 10)) * 10 + digit_val(digit_char(n % 10)) == n,
{
    crate::text::lemma_digit_char_val(n / 1000 % 10);
    crate::text::lemma_digit_char_val(n / 100 % 10);
    crate::text::lemma_digit_char_val(n / 10 % 10);
    crate::text::lemma_digit_char_val(n % 10);
}

} // verus!
