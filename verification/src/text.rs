//! Character-level building blocks for the tab-separated dump format:
//! decimal numerals, line splitting, and their inverses.
use vstd::prelude::*;

verus! {

// ---------------------------------------------------------------------------
// Decimal numerals
// ---------------------------------------------------------------------------
pub open spec fn is_digit(c: char) -> bool {
    48 <= c as u32 <= 57
}

pub open spec fn digit_char(d: int) -> char {
    if d == 0 {
        '0'
    } else if d == 1 {
        '1'
    } else if d == 2 {
        '2'
    } else if d == 3 {
        '3'
    } else if d == 4 {
        '4'
    } else if d == 5 {
        '5'
    } else if d == 6 {
        '6'
    } else if d == 7 {
        '7'
    } else if d == 8 {
        '8'
    } else {
        '9'
    }
}

pub open spec fn digit_val(c: char) -> int {
    c as u32 - 48
}

/// The canonical decimal numeral of a natural number, most significant digit
/// first, with no leading zeros (except for the single digit of zero itself).
pub open spec fn dec_digits(n: nat) -> Seq<char>
    decreases n,
{
    if n < 10 {
        seq![digit_char(n as int)]
    } else {
        dec_digits(n / 10) + seq![digit_char((n % 10) as int)]
    }
}

/// The canonical decimal form of an integer: a minus sign for negatives,
/// then the numeral of the magnitude.
pub open spec fn int_dec(v: int) -> Seq<char> {
    if v < 0 {
        seq!['-'] + dec_digits((-v) as nat)
    } else {
        dec_digits(v as nat)
    }
}

pub open spec fn all_digits(s: Seq<char>) -> bool {
    forall|i: int| 0 <= i < s.len() ==> is_digit(#[trigger] s[i])
}

/// Value of a digit string, most significant digit first.
pub open spec fn dec_val(s: Seq<char>) -> nat
    decreases s.len(),
{
    if s.len() == 0 {
        0
    } else {
        dec_val(s.drop_last()) * 10 + digit_val(s.last()) as nat
    }
}

/// What `i64::from_str` accepts: an optional sign, then one or more digits,
/// with the value in range; anything else is rejected.
pub open spec fn parse_int_spec(s: Seq<char>) -> Option<int> {
    let neg = s.len() > 0 && s[0] == '-';
    let signed = s.len() > 0 && (s[0] == '-' || s[0] == '+');
    let digits = if signed {
        s.drop_first()
    } else {
        s
    };
    if digits.len() > 0 && all_digits(digits) {
        if neg {
            Some(-(dec_val(digits) as int))
        } else {
            Some(dec_val(digits) as int)
        }
    } else {
        None
    }
}

/// Whatever its argument, the digit character is a digit.
pub proof fn lemma_digit_char_any(d: int)
    ensures
        is_digit(digit_char(d)),
{
    if 0 <= d <= 9 {
        lemma_digit_char_val(d);
    } else {
        assert('9' as u32 == 57);
        assert(digit_char(d) == '9' || is_digit(digit_char(d)));
    }
}

pub proof fn lemma_digit_char_val(d: int)
    requires
        0 <= d <= 9,
    ensures
        is_digit(digit_char(d)),
        digit_val(digit_char(d)) == d,
{
    if d == 0 {
        assert('0' as u32 == 48);
    } else if d == 1 {
        assert('1' as u32 == 49);
    } else if d == 2 {
        assert('2' as u32 == 50);
    } else if d == 3 {
        assert('3' as u32 == 51);
    } else if d == 4 {
        assert('4' as u32 == 52);
    } else if d == 5 {
        assert('5' as u32 == 53);
    } else if d == 6 {
        assert('6' as u32 == 54);
    } else if d == 7 {
        assert('7' as u32 == 55);
    } else if d == 8 {
        assert('8' as u32 == 56);
    } else {
        assert('9' as u32 == 57);
    }
}

pub proof fn lemma_dec_digits_all_digits(n: nat)
    ensures
        all_digits(dec_digits(n)),
        dec_digits(n).len() >= 1,
    decreases n,
{
    if n >= 10 {
        lemma_dec_digits_all_digits(n / 10);
        lemma_digit_char_val((n % 10) as int);
        assert forall|i: int| 0 <= i < dec_digits(n).len() implies is_digit(
            #[trigger] dec_digits(n)[i],
        ) by {
            if i < dec_digits(n / 10).len() {
                assert(dec_digits(n)[i] == dec_digits(n / 10)[i]);
            }
        }
    } else {
        lemma_digit_char_val(n as int);
    }
}

pub proof fn lemma_dec_val_of_dec_digits(n: nat)
    ensures
        dec_val(dec_digits(n)) == n,
    decreases n,
{
    if n < 10 {
        lemma_digit_char_val(n as int);
        assert(dec_digits(n).drop_last() =~= Seq::<char>::empty());
        assert(dec_digits(n).last() == digit_char(n as int));
        assert(dec_val(Seq::<char>::empty()) == 0);
        assert(dec_val(dec_digits(n)) == dec_val(dec_digits(n).drop_last()) * 10 + digit_val(
            dec_digits(n).last(),
        ) as nat);
    } else {
        lemma_dec_val_of_dec_digits(n / 10);
        lemma_digit_char_val((n % 10) as int);
        assert(dec_digits(n).drop_last() =~= dec_digits(n / 10));
        assert(dec_digits(n).last() == digit_char((n % 10) as int));
        assert(dec_val(dec_digits(n)) == (n / 10) * 10 + (n % 10));
    }
}

/// Formatting an integer and parsing the result returns the same integer.
pub proof fn lemma_parse_int_dec(v: int)
    ensures
        parse_int_spec(int_dec(v)) == Some(v),
{
    if v < 0 {
        let m = (-v) as nat;
        lemma_dec_digits_all_digits(m);
        lemma_dec_val_of_dec_digits(m);
        assert(int_dec(v)[0] == '-');
        assert(int_dec(v).drop_first() =~= dec_digits(m));
    } else {
        lemma_dec_digits_all_digits(v as nat);
        lemma_dec_val_of_dec_digits(v as nat);
        let s = int_dec(v);
        assert(is_digit(s[0]));
        assert(!(s[0] == '-' || s[0] == '+'));
    }
}

/// A prefix of a digit string never has a larger value than the whole.
pub proof fn lemma_dec_val_prefix_le(s: Seq<char>, i: int)
    requires
        0 <= i <= s.len(),
    ensures
        dec_val(s.take(i)) <= dec_val(s),
    decreases s.len() - i,
{
    if i < s.len() {
        assert(s.take(i + 1).drop_last() =~= s.take(i));
        assert(dec_val(s.take(i + 1)) == dec_val(s.take(i)) * 10 + digit_val(
            s.take(i + 1).last(),
        ) as nat);
        lemma_dec_val_prefix_le(s, i + 1);
        assert(s.take(s.len() as int) =~= s);
    } else {
        assert(s.take(i) =~= s);
    }
}

// ---------------------------------------------------------------------------
// Splitting on a separator, and its inverse
// ---------------------------------------------------------------------------
/// Splits a character sequence at every occurrence of `sep`. The result
/// always has one more part than there are separators, so it is never empty.
pub open spec fn split_on(s: Seq<char>, sep: char) -> Seq<Seq<char>>
    decreases s.len(),
{
    if s.len() == 0 {
        seq![Seq::<char>::empty()]
    } else if s[0] == sep {
        seq![Seq::<char>::empty()] + split_on(s.drop_first(), sep)
    } else {
        let rest = split_on(s.drop_first(), sep);
        seq![seq![s[0]] + rest[0]] + rest.drop_first()
    }
}

/// Joins parts with `sep` between them.
pub open spec fn join_on(fields: Seq<Seq<char>>, sep: char) -> Seq<char>
    decreases fields.len(),
{
    if fields.len() == 0 {
        Seq::empty()
    } else if fields.len() == 1 {
        fields[0]
    } else {
        fields[0] + seq![sep] + join_on(fields.drop_first(), sep)
    }
}

pub proof fn lemma_split_on_len(s: Seq<char>, sep: char)
    ensures
        split_on(s, sep).len() >= 1,
    decreases s.len(),
{
    if s.len() > 0 {
        lemma_split_on_len(s.drop_first(), sep);
    }
}

/// A sequence without the separator splits into exactly itself.
pub proof fn lemma_split_no_sep(s: Seq<char>, sep: char)
    requires
        forall|i: int| 0 <= i < s.len() ==> #[trigger] s[i] != sep,
    ensures
        split_on(s, sep) == seq![s],
    decreases s.len(),
{
    if s.len() == 0 {
        assert(split_on(s, sep) =~~= seq![s]);
    } else {
        lemma_split_no_sep(s.drop_first(), sep);
        assert(seq![s[0]] + s.drop_first() =~= s);
        assert(split_on(s, sep) =~~= seq![s]);
    }
}

/// Splitting a separator-free part, a separator, and a tail gives the part
/// followed by the split of the tail.
pub proof fn lemma_split_prepend(f: Seq<char>, t: Seq<char>, sep: char)
    requires
        forall|i: int| 0 <= i < f.len() ==> #[trigger] f[i] != sep,
    ensures
        split_on(f + seq![sep] + t, sep) == seq![f] + split_on(t, sep),
    decreases f.len(),
{
    let s = f + seq![sep] + t;
    if f.len() == 0 {
        assert(s =~= seq![sep] + t);
        assert(s[0] == sep);
        assert(s.drop_first() =~= t);
        assert(split_on(s, sep) =~~= seq![f] + split_on(t, sep));
    } else {
        lemma_split_prepend(f.drop_first(), t, sep);
        assert(s[0] == f[0]);
        assert(s.drop_first() =~= f.drop_first() + seq![sep] + t);
        lemma_split_on_len(t, sep);
        let rest = split_on(s.drop_first(), sep);
        assert(rest == seq![f.drop_first()] + split_on(t, sep));
        assert(rest[0] == f.drop_first());
        assert(seq![s[0]] + rest[0] =~= f);
        assert(rest.drop_first() =~= split_on(t, sep));
        assert(split_on(s, sep) =~~= seq![f] + split_on(t, sep));
        assert(split_on(s, sep) =~~= seq![f] + split_on(t, sep));
    }
}

/// Joining separator-free parts and splitting the result returns the parts.
pub proof fn lemma_split_join(fields: Seq<Seq<char>>, sep: char)
    requires
        fields.len() >= 1,
        forall|i: int, j: int|
            0 <= i < fields.len() && 0 <= j < fields[i].len() ==> #[trigger] fields[i][j] != sep,
    ensures
        split_on(join_on(fields, sep), sep) == fields,
    decreases fields.len(),
{
    if fields.len() == 1 {
        lemma_split_no_sep(fields[0], sep);
        assert(split_on(join_on(fields, sep), sep) =~~= fields);
    } else {
        lemma_split_join(fields.drop_first(), sep);
        lemma_split_prepend(fields[0], join_on(fields.drop_first(), sep), sep);
        assert(split_on(join_on(fields, sep), sep) =~~= fields);
    }
}

/// Splits a line on a separator character, as the decoder and the archive
/// line reader need it.
#[verifier::loop_isolation(false)]
pub fn split_char(s: &str, sep: char) -> (r: Vec<String>)
    ensures
        r.deep_view() == split_on(s@, sep),
        r@.len() >= 1,
{
    let len = s.unicode_len();
    let mut out: Vec<String> = Vec::new();
    let mut seg_start: usize = 0;
    let mut i: usize = 0;
    proof {
        assert(s@.skip(0) =~= s@);
        assert(out.deep_view() + split_on(s@, sep) =~= split_on(s@, sep));
    }
    while i < len
        invariant
            0 <= seg_start <= i <= len,
            split_on(s@, sep) == out.deep_view() + split_on(s@.skip(seg_start as int), sep),
            forall|j: int| seg_start <= j < i ==> #[trigger] s@[j] != sep,
        decreases len - i,
    {
        let c = s.get_char(i);
        if c == sep {
            let field = s.substring_char(seg_start, i).to_owned();
            proof {
                assert(s@.skip(seg_start as int) =~= s@.subrange(seg_start as int, i as int)
                    + seq![sep] + s@.skip(i + 1));
                lemma_split_prepend(s@.subrange(seg_start as int, i as int), s@.skip(i + 1), sep);
            }
            out.push(field);
            proof {
                assert(out.deep_view() =~= out.deep_view().take(out.deep_view().len() - 1).push(
                    s@.subrange(seg_start as int, i as int),
                ));
                assert(out.deep_view().take(out.deep_view().len() - 1) + (seq![
                    s@.subrange(seg_start as int, i as int),
                ] + split_on(s@.skip(i + 1), sep)) =~= out.deep_view() + split_on(
                    s@.skip(i + 1),
                    sep,
                ));
            }
            seg_start = i + 1;
        }
        i = i + 1;
    }
    let field = s.substring_char(seg_start, len).to_owned();
    proof {
        assert(s@.skip(seg_start as int) =~= s@.subrange(seg_start as int, len as int));
        lemma_split_no_sep(s@.skip(seg_start as int), sep);
    }
    out.push(field);
    proof {
        assert(out.deep_view() =~= split_on(s@, sep));
    }
    out
}

/// Splits a line on every tab, the field separator of the dump format.
pub fn split_tabs(s: &str) -> (r: Vec<String>)
    ensures
        r.deep_view() == split_on(s@, '\t'),
        r@.len() >= 1,
{
    split_char(s, '\t')
}

/// Splits file contents into lines at every newline character.
pub fn split_lines(s: &str) -> (r: Vec<String>)
    ensures
        r.deep_view() == split_on(s@, '\n'),
        r@.len() >= 1,
{
    split_char(s, '\n')
}

/// Character-for-character string comparison.
#[verifier::loop_isolation(false)]
pub fn str_eq(a: &str, b: &str) -> (r: bool)
    ensures
        r == (a@ == b@),
{
    let la = a.unicode_len();
    let lb = b.unicode_len();
    if la != lb {
        return false;
    }
    let mut i: usize = 0;
    while i < la
        invariant
            0 <= i <= la,
            forall|j: int| 0 <= j < i ==> a@[j] == b@[j],
        decreases la - i,
    {
        if a.get_char(i) != b.get_char(i) {
            return false;
        }
        i = i + 1;
    }
    proof {
        assert(a@ =~= b@);
    }
    true
}

/// A message built from a fixed prefix and the offending text.
pub fn message_with(prefix: &str, offender: &str) -> (r: String)
    ensures
        r@ == prefix@ + offender@,
{
    let mut s = String::new();
    s.append(prefix);
    s.append(offender);
    assert(s@ =~= prefix@ + offender@);
    s
}

// ---------------------------------------------------------------------------
// Executable formatting
// ---------------------------------------------------------------------------
pub(crate) fn push_digit(s: &mut String, d: u64)
    requires
        d < 10,
    ensures
        final(s)@ == old(s)@ + seq![digit_char(d as int)],
{
    if d == 0 {
        proof {
            reveal_strlit("0");
        }
        s.append("0");
    } else if d == 1 {
        proof {
            reveal_strlit("1");
        }
        s.append("1");
    } else if d == 2 {
        proof {
            reveal_strlit("2");
        }
        s.append("2");
    } else if d == 3 {
        proof {
            reveal_strlit("3");
        }
        s.append("3");
    } else if d == 4 {
        proof {
            reveal_strlit("4");
        }
        s.append("4");
    } else if d == 5 {
        proof {
            reveal_strlit("5");
        }
        s.append("5");
    } else if d == 6 {
        proof {
            reveal_strlit("6");
        }
        s.append("6");
    } else if d == 7 {
        proof {
            reveal_strlit("7");
        }
        s.append("7");
    } else if d == 8 {
        proof {
            reveal_strlit("8");
        }
        s.append("8");
    } else {
        proof {
            reveal_strlit("9");
        }
        s.append("9");
    }
}

/// Appends the decimal numeral of `n`.
pub fn push_u64(s: &mut String, n: u64)
    ensures
        final(s)@ == old(s)@ + dec_digits(n as nat),
    decreases n,
{
    if n >= 10 {
        push_u64(s, n / 10);
        push_digit(s, n % 10);
        assert(final(s)@ =~= old(s)@ + dec_digits(n as nat));
    } else {
        push_digit(s, n);
    }
}

/// Appends the decimal form of `v`, a minus sign first for negatives.
pub fn push_i64(s: &mut String, v: i64)
    ensures
        final(s)@ == old(s)@ + int_dec(v as int),
{
    if v < 0 {
        proof {
            reveal_strlit("-");
        }
        s.append("-");
        let m: u64 = if v == i64::MIN {
            9223372036854775808u64
        } else {
            (-v) as u64
        };
        assert(m == -(v as int));
        push_u64(s, m);
        assert(final(s)@ =~= old(s)@ + int_dec(v as int));
    } else {
        push_u64(s, v as u64);
    }
}

pub fn u64_to_string(n: u64) -> (s: String)
    ensures
        s@ == dec_digits(n as nat),
{
    let mut s = String::new();
    push_u64(&mut s, n);
    assert(s@ =~= dec_digits(n as nat));
    s
}

pub fn i64_to_string(v: i64) -> (s: String)
    ensures
        s@ == int_dec(v as int),
{
    let mut s = String::new();
    push_i64(&mut s, v);
    assert(s@ =~= int_dec(v as int));
    s
}

/// `i64::from_str` as a spec function: the grammar with the range applied.
pub open spec fn spec_parse_i64(s: Seq<char>) -> Option<i64> {
    match parse_int_spec(s) {
        Some(v) => if i64::MIN <= v <= i64::MAX {
            Some(v as i64)
        } else {
            None
        },
        None => None,
    }
}

/// `i32::from_str` as a spec function.
pub open spec fn spec_parse_i32(s: Seq<char>) -> Option<i32> {
    match parse_int_spec(s) {
        Some(v) => if i32::MIN <= v <= i32::MAX {
            Some(v as i32)
        } else {
            None
        },
        None => None,
    }
}

/// `i16::from_str` as a spec function.
pub open spec fn spec_parse_i16(s: Seq<char>) -> Option<i16> {
    match parse_int_spec(s) {
        Some(v) => if i16::MIN <= v <= i16::MAX {
            Some(v as i16)
        } else {
            None
        },
        None => None,
    }
}

// ---------------------------------------------------------------------------
// Executable parsing
// ---------------------------------------------------------------------------
/// Parses a signed decimal numeral exactly as `i64::from_str` would: an
/// optional sign, one or more digits, value within the range of `i64`.
#[verifier::loop_isolation(false)]
pub fn parse_i64(s: &str) -> (r: Option<i64>)
    ensures
        r == spec_parse_i64(s@),
{
    let len = s.unicode_len();
    if len == 0 {
        return None;
    }
    let c0 = s.get_char(0);
    let neg = c0 == '-';
    let signed = c0 == '-' || c0 == '+';
    let start: usize = if signed {
        1
    } else {
        0
    };
    let ghost digits: Seq<char> = if signed {
        s@.drop_first()
    } else {
        s@
    };
    if len == start {
        return None;
    }
    let mut acc: u64 = 0;
    let mut i: usize = start;
    // The magnitude may not pass the most negative value of i64.
    let limit: u64 = if neg {
        9223372036854775808u64
    } else {
        9223372036854775807u64
    };
    while i < len
        invariant
            start <= i <= len,
            len == s@.len(),
            start == if signed {
                1int
            } else {
                0int
            },
            digits == if signed {
                s@.drop_first()
            } else {
                s@
            },
            all_digits(digits.take(i - start)),
            acc == dec_val(digits.take(i - start)),
            acc <= limit,
            limit == if neg {
                9223372036854775808u64
            } else {
                9223372036854775807u64
            },
        decreases len - i,
    {
        let c = s.get_char(i);
        let cv = c as u32;
        proof {
            assert(digits[i - start] == c);
        }
        if cv < 48 || cv > 57 {
            proof {
                assert(!is_digit(digits[i - start]));
                assert(!all_digits(digits));
                assert(parse_int_spec(s@) is None);
            }
            return None;
        }
        let d: u64 = (cv - 48) as u64;
        proof {
            assert(digits.take(i + 1 - start).drop_last() =~= digits.take(i - start));
            assert(digits.take(i + 1 - start).last() == c);
            assert(all_digits(digits.take(i + 1 - start))) by {
                assert(forall|j: int|
                    0 <= j < i + 1 - start ==> #[trigger] digits.take(i + 1 - start)[j]
                        == digits.take(i - start).push(c)[j]);
            }
            assert(dec_val(digits.take(i + 1 - start)) == acc * 10 + digit_val(c) as nat);
            assert(digit_val(c) == d);
        }
        if acc > (limit - d) / 10 {
            // Any longer numeral only grows: the value is out of range.
            proof {
                let li = limit as int;
                let di = d as int;
                let ai = acc as int;
                assert(ai * 10 + di > li) by (nonlinear_arith)
                    requires
                        ai > (li - di) / 10,
                        0 <= di <= 9,
                        li >= 9,
                ;
                assert(dec_val(digits.take(i + 1 - start)) > limit);
                lemma_dec_val_prefix_le(digits, i + 1 - start);
                assert(digits.take(digits.len() as int) =~= digits);
                assert(dec_val(digits) > limit);
                if parse_int_spec(s@) is Some {
                    if neg {
                        assert(parse_int_spec(s@)->0 == -(dec_val(digits) as int));
                        assert(dec_val(digits) as int > 9223372036854775808int);
                        assert(parse_int_spec(s@)->0 < i64::MIN);
                    } else {
                        assert(parse_int_spec(s@)->0 == dec_val(digits) as int);
                        assert(parse_int_spec(s@)->0 > i64::MAX);
                    }
                }
            }
            return None;
        }
        proof {
            let li = limit as int;
            let di = d as int;
            let ai = acc as int;
            assert(ai * 10 + di <= li) by (nonlinear_arith)
                requires
                    ai <= (li - di) / 10,
                    0 <= di <= 9,
                    li >= 9,
            ;
        }
        acc = acc * 10 + d;
        i = i + 1;
    }
    proof {
        assert(digits.take(len - start) =~= digits);
    }
    if neg {
        if acc == 9223372036854775808u64 {
            Some(i64::MIN)
        } else {
            Some(-(acc as i64))
        }
    } else {
        Some(acc as i64)
    }
}

/// `i32::from_str`: the same grammar with the narrower range.
pub fn parse_i32(s: &str) -> (r: Option<i32>)
    ensures
        r == spec_parse_i32(s@),
{
    match parse_i64(s) {
        Some(v) => {
            if i32::MIN as i64 <= v && v <= i32::MAX as i64 {
                Some(v as i32)
            } else {
                None
            }
        },
        None => None,
    }
}

/// `i16::from_str`: the same grammar with the narrower range.
pub fn parse_i16(s: &str) -> (r: Option<i16>)
    ensures
        r == spec_parse_i16(s@),
{
    match parse_i64(s) {
        Some(v) => {
            if i16::MIN as i64 <= v && v <= i16::MAX as i64 {
                Some(v as i16)
            } else {
                None
            }
        },
        None => None,
    }
}

} // verus!
