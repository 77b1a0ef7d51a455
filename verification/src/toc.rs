//! The table-of-contents parser: scans the archive's TOC bytes for table
//! dump directives and the data-file names that follow them.
use vstd::prelude::*;
use crate::error::OsmError;
use vstd::utf8::{valid_utf8, decode_utf8};

verus! {

/// The marker that introduces a table dump directive.
pub open spec fn copy_marker() -> Seq<u8> {
    seq![67u8, 79u8, 80u8, 89u8, 32u8]
}

/// The marker that ends the table definition and introduces the data source.
pub open spec fn from_stdin_marker() -> Seq<u8> {
    seq![32u8, 70u8, 82u8, 79u8, 77u8, 32u8, 115u8, 116u8, 100u8, 105u8, 110u8]
}

/// The file-name extension that closes a data-file reference.
pub open spec fn dotdat_marker() -> Seq<u8> {
    seq![46u8, 100u8, 97u8, 116u8]
}

pub open spec fn starts_with_at(s: Seq<u8>, i: int, pat: Seq<u8>) -> bool {
    0 <= i && i + pat.len() <= s.len() && s.subrange(i, i + pat.len()) == pat
}

/// The first position at or after `i` where the pattern begins.
pub open spec fn find_from(s: Seq<u8>, i: int, pat: Seq<u8>) -> Option<int>
    decreases s.len() - i,
{
    if i < 0 || i > s.len() {
        None
    } else if starts_with_at(s, i, pat) {
        Some(i)
    } else if i == s.len() {
        None
    } else {
        find_from(s, i + 1, pat)
    }
}

pub proof fn lemma_find_from(s: Seq<u8>, i: int, pat: Seq<u8>)
    requires
        0 <= i <= s.len(),
    ensures
        match find_from(s, i, pat) {
            Some(j) => i <= j && starts_with_at(s, j, pat) && forall|k: int|
                i <= k < j ==> !starts_with_at(s, k, pat),
            None => forall|k: int| i <= k ==> !starts_with_at(s, k, pat),
        },
    decreases s.len() - i,
{
    if starts_with_at(s, i, pat) {
    } else if i == s.len() {
        assert forall|k: int| i <= k implies !starts_with_at(s, k, pat) by {
            if k > i {
                assert(k + pat.len() > s.len());
            }
        }
    } else {
        lemma_find_from(s, i + 1, pat);
    }
}

pub open spec fn is_ascii_digit_byte(b: u8) -> bool {
    48 <= b <= 57
}

/// Mirrors the backward walk over the digit run that precedes the file-name
/// extension: the position where the walk stops.
pub open spec fn back_walk(s: Seq<u8>, p: int) -> int
    decreases p,
{
    if p > 0 && 0 <= p < s.len() && is_ascii_digit_byte(s[p]) {
        back_walk(s, p - 1)
    } else {
        p
    }
}

pub proof fn lemma_back_walk(s: Seq<u8>, p: int)
    requires
        0 <= p < s.len(),
    ensures
        0 <= back_walk(s, p) <= p,
    decreases p,
{
    if p > 0 && is_ascii_digit_byte(s[p]) {
        lemma_back_walk(s, p - 1);
    }
}

/// Every (table definition, data file name) pair the scan extracts from
/// position `i` on. A directive whose later markers never appear is
/// discarded and ends the scan.
pub open spec fn toc_pairs_from(toc: Seq<u8>, i: int) -> Seq<(Seq<u8>, Seq<u8>)>
    decreases toc.len() + 1 - i,
{
    if i < 0 || i > toc.len() {
        Seq::empty()
    } else {
        match find_from(toc, i, copy_marker()) {
            None => Seq::empty(),
            Some(c) => match find_from(toc, c + 5, from_stdin_marker()) {
                None => Seq::empty(),
                Some(e) => match find_from(toc, e + 11, dotdat_marker()) {
                    None => Seq::empty(),
                    Some(d) => {
                        if i <= c && c + 5 <= e && e + 11 <= d && d + 4 <= toc.len() {
                            let fstart = back_walk(toc, d - 1) + 1;
                            let pair = (toc.subrange(c + 5, e), toc.subrange(fstart, d + 4));
                            seq![pair] + toc_pairs_from(toc, d + 5)
                        } else {
                            Seq::empty()
                        }
                    },
                },
            },
        }
    }
}

/// The pairs of the whole table of contents.
pub open spec fn toc_pairs(toc: Seq<u8>) -> Seq<(Seq<u8>, Seq<u8>)> {
    toc_pairs_from(toc, 0)
}

fn is_copy_at(toc: &Vec<u8>, i: usize) -> (r: bool)
    requires
        i <= toc@.len(),
    ensures
        r == starts_with_at(toc@, i as int, copy_marker()),
{
    if toc.len() - i < 5 {
        return false;
    }
    let r = toc[i] == 67 && toc[i + 1] == 79 && toc[i + 2] == 80 && toc[i + 3] == 89 && toc[i + 4]
        == 32;
    proof {
        if r {
            assert(toc@.subrange(i as int, i + 5) =~= copy_marker());
        } else {
            if starts_with_at(toc@, i as int, copy_marker()) {
                assert(toc@[i as int] == copy_marker()[0]);
                assert(toc@[i + 1] == copy_marker()[1]);
                assert(toc@[i + 2] == copy_marker()[2]);
                assert(toc@[i + 3] == copy_marker()[3]);
                assert(toc@[i + 4] == copy_marker()[4]);
            }
        }
    }
    r
}

fn is_from_stdin_at(toc: &Vec<u8>, i: usize) -> (r: bool)
    requires
        i <= toc@.len(),
    ensures
        r == starts_with_at(toc@, i as int, from_stdin_marker()),
{
    if toc.len() - i < 11 {
        return false;
    }
    let r = toc[i] == 32 && toc[i + 1] == 70 && toc[i + 2] == 82 && toc[i + 3] == 79 && toc[i + 4]
        == 77 && toc[i + 5] == 32 && toc[i + 6] == 115 && toc[i + 7] == 116 && toc[i + 8] == 100
        && toc[i + 9] == 105 && toc[i + 10] == 110;
    proof {
        if r {
            assert(toc@.subrange(i as int, i + 11) =~= from_stdin_marker());
        } else {
            if starts_with_at(toc@, i as int, from_stdin_marker()) {
                assert(forall|k: int|
                    0 <= k < 11 ==> toc@[i + k] == #[trigger] from_stdin_marker()[k]);
            }
        }
    }
    r
}

fn is_dotdat_at(toc: &Vec<u8>, i: usize) -> (r: bool)
    requires
        i <= toc@.len(),
    ensures
        r == starts_with_at(toc@, i as int, dotdat_marker()),
{
    if toc.len() - i < 4 {
        return false;
    }
    let r = toc[i] == 46 && toc[i + 1] == 100 && toc[i + 2] == 97 && toc[i + 3] == 116;
    proof {
        if r {
            assert(toc@.subrange(i as int, i + 4) =~= dotdat_marker());
        } else {
            if starts_with_at(toc@, i as int, dotdat_marker()) {
                assert(forall|k: int| 0 <= k < 4 ==> toc@[i + k] == #[trigger] dotdat_marker()[k]);
            }
        }
    }
    r
}

#[verifier::loop_isolation(false)]
fn find_copy(toc: &Vec<u8>, from: usize) -> (r: Option<usize>)
    requires
        from <= toc@.len(),
    ensures
        match r {
            Some(j) => find_from(toc@, from as int, copy_marker()) == Some(j as int),
            None => find_from(toc@, from as int, copy_marker()) is None,
        },
{
    let mut i = from;
    while i < toc.len()
        invariant
            from <= i <= toc@.len(),
            find_from(toc@, from as int, copy_marker()) == find_from(toc@, i as int, copy_marker()),
        decreases toc@.len() - i,
    {
        if is_copy_at(toc, i) {
            return Some(i);
        }
        i = i + 1;
    }
    if is_copy_at(toc, i) {
        return Some(i);
    }
    None
}

#[verifier::loop_isolation(false)]
fn find_from_stdin(toc: &Vec<u8>, from: usize) -> (r: Option<usize>)
    requires
        from <= toc@.len(),
    ensures
        match r {
            Some(j) => find_from(toc@, from as int, from_stdin_marker()) == Some(j as int),
            None => find_from(toc@, from as int, from_stdin_marker()) is None,
        },
{
    let mut i = from;
    while i < toc.len()
        invariant
            from <= i <= toc@.len(),
            find_from(toc@, from as int, from_stdin_marker()) == find_from(
                toc@,
                i as int,
                from_stdin_marker(),
            ),
        decreases toc@.len() - i,
    {
        if is_from_stdin_at(toc, i) {
            return Some(i);
        }
        i = i + 1;
    }
    if is_from_stdin_at(toc, i) {
        return Some(i);
    }
    None
}

#[verifier::loop_isolation(false)]
fn find_dotdat(toc: &Vec<u8>, from: usize) -> (r: Option<usize>)
    requires
        from <= toc@.len(),
    ensures
        match r {
            Some(j) => find_from(toc@, from as int, dotdat_marker()) == Some(j as int),
            None => find_from(toc@, from as int, dotdat_marker()) is None,
        },
{
    let mut i = from;
    while i < toc.len()
        invariant
            from <= i <= toc@.len(),
            find_from(toc@, from as int, dotdat_marker()) == find_from(
                toc@,
                i as int,
                dotdat_marker(),
            ),
        decreases toc@.len() - i,
    {
        if is_dotdat_at(toc, i) {
            return Some(i);
        }
        i = i + 1;
    }
    if is_dotdat_at(toc, i) {
        return Some(i);
    }
    None
}

#[verifier::loop_isolation(false)]
fn bytes_range(toc: &Vec<u8>, a: usize, b: usize) -> (r: Vec<u8>)
    requires
        a <= b <= toc@.len(),
    ensures
        r@ == toc@.subrange(a as int, b as int),
{
    let mut out: Vec<u8> = Vec::new();
    let mut i = a;
    while i < b
        invariant
            a <= i <= b,
            out@ == toc@.subrange(a as int, i as int),
        decreases b - i,
    {
        out.push(toc[i]);
        proof {
            assert(out@ =~= toc@.subrange(a as int, i + 1));
        }
        i = i + 1;
    }
    out
}

/// Relies on String::from_utf8: it succeeds exactly on valid UTF-8 and
/// decodes the bytes to their character sequence.
#[verifier::external_body]
fn utf8_to_string(bytes: Vec<u8>) -> (r: Option<String>)
    ensures
        r is Some <==> valid_utf8(bytes@),
        r matches Some(s) ==> s@ == decode_utf8(bytes@),
{
    match String::from_utf8(bytes) {
        Ok(s) => Some(s),
        Err(_) => None,
    }
}

/// Both components of the pair decode as UTF-8.
pub open spec fn pair_utf8_ok(p: (Seq<u8>, Seq<u8>)) -> bool {
    valid_utf8(p.0) && valid_utf8(p.1)
}

/// The decoded form of an extracted pair.
pub open spec fn pair_decoded(p: (Seq<u8>, Seq<u8>)) -> (Seq<char>, Seq<char>) {
    (decode_utf8(p.0), decode_utf8(p.1))
}

/// Every extracted pair, decoded.
pub open spec fn toc_pairs_decoded(toc: Seq<u8>) -> Seq<(Seq<char>, Seq<char>)> {
    Seq::new(toc_pairs(toc).len(), |k: int| pair_decoded(toc_pairs(toc)[k]))
}

/// Scans the table of contents and returns, in order, each table definition
/// string with the name of the data file that holds the table's rows. Fails
/// only when an extracted range is not UTF-8.
#[verifier::loop_isolation(false)]
pub fn get_table_def_strings(toc: &Vec<u8>) -> (r: Result<Vec<(String, String)>, OsmError>)
    ensures
        match r {
            Ok(pairs) => {
                &&& pairs.deep_view() == toc_pairs_decoded(toc@)
                &&& forall|k: int|
                    0 <= k < toc_pairs(toc@).len() ==> pair_utf8_ok(#[trigger] toc_pairs(toc@)[k])
            },
            Err(_) => exists|k: int|
                0 <= k < toc_pairs(toc@).len() && !pair_utf8_ok(#[trigger] toc_pairs(toc@)[k]),
        },
{
    let mut out: Vec<(String, String)> = Vec::new();
    let n: usize = toc.len();
    let mut i: usize = 0;
    proof {
        assert(out.deep_view() =~= Seq::<(Seq<char>, Seq<char>)>::empty());
    }
    loop
        invariant
            i <= toc@.len(),
            out.deep_view() =~= toc_pairs_decoded(toc@).take(
                out@.len() as int,
            ),
            out@.len() <= toc_pairs(toc@).len(),
            toc_pairs(toc@) =~= toc_pairs(toc@).take(out@.len() as int) + toc_pairs_from(
                toc@,
                i as int,
            ),
            forall|k: int| 0 <= k < out@.len() ==> pair_utf8_ok(#[trigger] toc_pairs(toc@)[k]),
        decreases toc@.len() + 1 - i,
    {
        let c = match find_copy(toc, i) {
            None => {
                break ;
            },
            Some(c) => c,
        };
        proof {
            lemma_find_from(toc@, i as int, copy_marker());
            assert(c + 5 <= n);
        }
        let e = match find_from_stdin(toc, c + 5) {
            None => {
                break ;
            },
            Some(e) => e,
        };
        proof {
            lemma_find_from(toc@, c + 5, from_stdin_marker());
            assert(e + 11 <= n);
        }
        let d = match find_dotdat(toc, e + 11) {
            None => {
                break ;
            },
            Some(d) => d,
        };
        proof {
            lemma_find_from(toc@, e + 11, dotdat_marker());
            assert(d + 4 <= n);
            assert(d >= 1);
        }
        let mut fs: usize = d - 1;
        while fs > 0 && toc[fs] >= 48 && toc[fs] <= 57
            invariant
                0 <= fs <= d - 1,
                back_walk(toc@, d - 1) == back_walk(toc@, fs as int),
            decreases fs,
        {
            fs = fs - 1;
        }
        proof {
            assert(back_walk(toc@, fs as int) == fs as int);
            lemma_back_walk(toc@, d - 1);
        }
        let fstart = fs + 1;
        let td_bytes = bytes_range(toc, c + 5, e);
        let fn_bytes = bytes_range(toc, fstart, d + 4);
        let ghost pair = (toc@.subrange(c + 5, e as int), toc@.subrange(fstart as int, d + 4));
        proof {
            assert(toc_pairs_from(toc@, i as int) =~= seq![pair] + toc_pairs_from(toc@, d + 5));
            assert(toc_pairs(toc@)[out@.len() as int] == pair);
        }
        let td_string = match utf8_to_string(td_bytes) {
            Some(s) => s,
            None => {
                proof {
                    assert(!pair_utf8_ok(toc_pairs(toc@)[out@.len() as int]));
                }
                return Err(OsmError::new(String::from_str("table of contents is not text")));
            },
        };
        let fn_string = match utf8_to_string(fn_bytes) {
            Some(s) => s,
            None => {
                proof {
                    assert(!pair_utf8_ok(toc_pairs(toc@)[out@.len() as int]));
                }
                return Err(OsmError::new(String::from_str("table of contents is not text")));
            },
        };
        out.push((td_string, fn_string));
        if toc.len() - d <= 4 {
            i = toc.len();
            proof {
                assert(toc_pairs_from(toc@, d + 5) =~= Seq::<(Seq<u8>, Seq<u8>)>::empty());
                assert(toc_pairs_from(toc@, i as int) =~= Seq::<(Seq<u8>, Seq<u8>)>::empty());
            }
        } else {
            i = d + 5;
        }
        proof {
            assert(out.deep_view() =~= toc_pairs_decoded(toc@).take(
                out@.len() as int,
            ));
        }
    }
    proof {
        assert(toc_pairs_from(toc@, i as int) =~= Seq::<(Seq<u8>, Seq<u8>)>::empty());
        assert(out.deep_view() =~= toc_pairs_decoded(toc@));
    }
    Ok(out)
}

/// Index of the first occurrence of `sep`, or the length when absent.
pub open spec fn first_occurrence(s: Seq<char>, sep: char) -> int
    decreases s.len(),
{
    if s.len() == 0 {
        0
    } else if s[0] == sep {
        0
    } else {
        1 + first_occurrence(s.drop_first(), sep)
    }
}

pub proof fn lemma_first_occurrence(s: Seq<char>, sep: char)
    ensures
        0 <= first_occurrence(s, sep) <= s.len(),
        forall|j: int| 0 <= j < first_occurrence(s, sep) ==> #[trigger] s[j] != sep,
        first_occurrence(s, sep) < s.len() ==> s[first_occurrence(s, sep)] == sep,
    decreases s.len(),
{
    if s.len() > 0 && s[0] != sep {
        lemma_first_occurrence(s.drop_first(), sep);
        assert(forall|j: int| 0 <= j < s.len() - 1 ==> #[trigger] s.drop_first()[j] == s[j + 1]);
        let f = first_occurrence(s, sep);
        assert(f == 1 + first_occurrence(s.drop_first(), sep));
        assert forall|j: int| 0 <= j < f implies #[trigger] s[j] != sep by {
            if j > 0 {
                assert(s.drop_first()[j - 1] != sep);
            }
        }
        if f < s.len() {
            assert(s.drop_first()[f - 1] == sep);
        }
    }
}

/// A column token with one leading space removed, as the separator of the
/// declared list leaves it.
pub open spec fn strip_lead_space(c: Seq<char>) -> Seq<char> {
    if c.len() > 0 && c[0] == ' ' {
        c.drop_first()
    } else {
        c
    }
}

/// A table definition string taken apart: the table name up to the first
/// space, then the parenthesized column list, split at the commas.
pub open spec fn parse_table_def_spec(s: Seq<char>) -> Option<(Seq<char>, Seq<Seq<char>>)> {
    let p = first_occurrence(s, ' ');
    if 1 <= p && p + 3 <= s.len() && s[p + 1] == '(' && s.last() == ')' {
        let inner = s.subrange(p + 2, s.len() - 1);
        if inner.len() >= 1 {
            Some(
                (
                    s.take(p),
                    crate::text::split_on(inner, ',').map_values(|c: Seq<char>| strip_lead_space(c)),
                ),
            )
        } else {
            None
        }
    } else {
        None
    }
}

/// Splits a table definition string into the table name and its declared
/// column names; a string without the expected shape is an error.
#[verifier::loop_isolation(false)]
pub fn parse_table_def(s: &str) -> (r: Result<(String, Vec<String>), OsmError>)
    ensures
        match r {
            Ok(nc) => parse_table_def_spec(s@) matches Some(v) && nc.0@ == v.0
                && nc.1.deep_view() == v.1,
            Err(_) => parse_table_def_spec(s@) is None,
        },
{
    let len = s.unicode_len();
    let mut p: usize = 0;
    while p < len && s.get_char(p) != ' '
        invariant
            0 <= p <= len,
            forall|j: int| 0 <= j < p ==> s@[j] != ' ',
        decreases len - p,
    {
        p = p + 1;
    }
    proof {
        lemma_first_occurrence(s@, ' ');
        assert(first_occurrence(s@, ' ') == p as int) by {
            if first_occurrence(s@, ' ') < p {
                assert(s@[first_occurrence(s@, ' ')] == ' ');
            }
            if p < len {
                assert(s@[p as int] == ' ');
            }
        }
    }
    if p < 1 || len - p < 3 {
        return Err(OsmError::new(String::from_str("table definition malformed")));
    }
    if s.get_char(p + 1) != '(' || s.get_char(len - 1) != ')' {
        return Err(OsmError::new(String::from_str("table definition malformed")));
    }
    if p + 3 == len {
        proof {
            assert(s@.subrange(p + 2, len - 1).len() == 0);
        }
        return Err(OsmError::new(String::from_str("table definition malformed")));
    }
    let name = s.substring_char(0, p).to_owned();
    let inner = s.substring_char(p + 2, len - 1);
    proof {
        assert(inner@ == s@.subrange(p + 2, len - 1));
        assert(name@ == s@.take(p as int));
    }
    let raw_cols = crate::text::split_char(inner, ',');
    let mut cols: Vec<String> = Vec::new();
    let ghost target = crate::text::split_on(inner@, ',').map_values(
        |c: Seq<char>| strip_lead_space(c),
    );
    let mut k: usize = 0;
    proof {
        assert(raw_cols.deep_view().len() == target.len());
    }
    while k < raw_cols.len()
        invariant
            0 <= k <= raw_cols@.len(),
            raw_cols.deep_view() == crate::text::split_on(inner@, ','),
            cols.deep_view() =~= target.take(k as int),
        decreases raw_cols@.len() - k,
    {
        let col = &raw_cols[k];
        let cl = col.unicode_len();
        if cl > 0 && col.as_str().get_char(0) == ' ' {
            cols.push(col.as_str().substring_char(1, cl).to_owned());
        } else {
            cols.push(col.clone());
        }
        proof {
            assert(target[k as int] == strip_lead_space(raw_cols.deep_view()[k as int]));
            assert(cols.deep_view() =~= target.take(k + 1));
        }
        k = k + 1;
    }
    proof {
        assert(cols.deep_view() =~= target);
    }
    Ok((name, cols))
}

} // verus!
