use vstd::prelude::*;
use crate::textops::string_from_chars;

verus! {

/// The decimal digit character for `d` (0 through 9).
pub open spec fn spec_digit_char(d: int) -> char {
    if d == 0 { '0' }
    else if d == 1 { '1' }
    else if d == 2 { '2' }
    else if d == 3 { '3' }
    else if d == 4 { '4' }
    else if d == 5 { '5' }
    else if d == 6 { '6' }
    else if d == 7 { '7' }
    else if d == 8 { '8' }
    else { '9' }
}

/// Decimal text of a non-negative integer, no leading zeros
/// (a single `0` for zero).
pub open spec fn spec_udec(n: nat) -> Seq<char>
    decreases n,
{
    if n < 10 {
        seq![spec_digit_char(n as int)]
    } else {
        spec_udec(n / 10).push(spec_digit_char((n % 10) as int))
    }
}

/// Canonical decimal text of a signed integer: `-` followed by the
/// magnitude for negatives, the plain magnitude otherwise.
pub open spec fn spec_int_text(i: int) -> Seq<char> {
    if i < 0 {
        seq!['-'].add(spec_udec((-i) as nat))
    } else {
        spec_udec(i as nat)
    }
}

pub open spec fn spec_is_digit(c: char) -> bool {
    48 <= c as int && c as int <= 57
}

pub open spec fn spec_digit_val(c: char) -> int {
    c as int - 48
}

pub open spec fn spec_all_digits(s: Seq<char>) -> bool {
    forall|i: int| 0 <= i < s.len() ==> spec_is_digit(#[trigger] s[i])
}

/// The value of a digit string, most significant digit first.
pub open spec fn spec_dec_val(s: Seq<char>) -> int
    decreases s.len(),
{
    if s.len() == 0 {
        0
    } else {
        spec_dec_val(s.drop_last()) * 10 + spec_digit_val(s.last())
    }
}

/// What parsing an integer literal yields: an optional single sign,
/// then one or more digits, and the value must fit in a 64-bit
/// signed integer; anything else is rejected.
pub open spec fn spec_parse_i64(s: Seq<char>) -> Option<i64> {
    let neg = s.len() > 0 && s[0] == '-';
    let signed = s.len() > 0 && (s[0] == '-' || s[0] == '+');
    let ds = if signed { s.subrange(1, s.len() as int) } else { s };
    if ds.len() == 0 || !spec_all_digits(ds) {
        None
    } else {
        let v = if neg { -spec_dec_val(ds) } else { spec_dec_val(ds) };
        if i64::MIN <= v <= i64::MAX {
            Some(v as i64)
        } else {
            None
        }
    }
}

pub proof fn lemma_dec_val_nonneg(s: Seq<char>)
    requires
        spec_all_digits(s),
    ensures
        spec_dec_val(s) >= 0,
    decreases s.len(),
{
    if s.len() > 0 {
        assert(spec_all_digits(s.drop_last()));
        lemma_dec_val_nonneg(s.drop_last());
    }
}

pub proof fn lemma_udec_digits(n: nat)
    ensures
        spec_all_digits(spec_udec(n)),
        spec_udec(n).len() >= 1,
        spec_udec(n)[0] != '-',
        spec_udec(n)[0] != '+',
    decreases n,
{
    if n < 10 {
    } else {
        lemma_udec_digits(n / 10);
    }
}

/// Formatting then reading back is the identity on magnitudes.
pub proof fn lemma_udec_val(n: nat)
    ensures
        spec_dec_val(spec_udec(n)) == n,
    decreases n,
{
    if n < 10 {
        let s = spec_udec(n);
        assert(s.drop_last() =~= Seq::<char>::empty());
        assert(spec_digit_val(spec_digit_char(n as int)) == n);
        assert(spec_dec_val(s) == spec_dec_val(s.drop_last()) * 10 + spec_digit_val(s.last()));
    } else {
        lemma_udec_val(n / 10);
        lemma_udec_digits(n / 10);
        assert(spec_udec(n).drop_last() =~= spec_udec(n / 10));
        assert(spec_digit_val(spec_digit_char((n % 10) as int)) == n % 10);
        assert(spec_udec(n).last() == spec_digit_char((n % 10) as int));
    }
}

/// Round trip: the canonical decimal text of any 64-bit integer parses
/// back to exactly that integer.
pub proof fn lemma_int_text_round_trip(v: i64)
    ensures
        spec_parse_i64(spec_int_text(v as int)) == Some(v),
{
    if v < 0 {
        let mag = (-(v as int)) as nat;
        lemma_udec_digits(mag);
        lemma_udec_val(mag);
        let s = spec_int_text(v as int);
        assert(s[0] == '-');
        assert(s.subrange(1, s.len() as int) =~= spec_udec(mag));
    } else {
        let mag = v as nat;
        lemma_udec_digits(mag);
        lemma_udec_val(mag);
    }
}

fn digit_char(d: u64) -> (r: char)
    requires
        d < 10,
    ensures
        r == spec_digit_char(d as int),
{
    match d {
        0 => '0',
        1 => '1',
        2 => '2',
        3 => '3',
        4 => '4',
        5 => '5',
        6 => '6',
        7 => '7',
        8 => '8',
        _ => '9',
    }
}

fn udec_chars(n0: u64) -> (r: Vec<char>)
    ensures
        r@ == spec_udec(n0 as nat),
{
    let mut out: Vec<char> = Vec::new();
    let mut n: u64 = n0;
    while n >= 10
        invariant
            spec_udec(n0 as nat) == spec_udec(n as nat).add(out@),
        decreases n,
    {
        let ghost prev = out@;
        let ghost np: nat = n as nat;
        out.insert(0, digit_char(n % 10));
        n = n / 10;
        proof {
            assert(spec_udec(np) == spec_udec(np / 10).push(spec_digit_char((np % 10) as int)));
            assert(spec_udec(np / 10).push(spec_digit_char((np % 10) as int)).add(prev)
                =~= spec_udec(np / 10).add(out@));
        }
    }
    let ghost nfin = n as nat;
    out.insert(0, digit_char(n));
    proof {
        assert(seq![spec_digit_char(nfin as int)].add(out@.subrange(1, out@.len() as int)) =~= out@);
        assert(spec_udec(nfin).add(out@.subrange(1, out@.len() as int)) =~= spec_udec(n0 as nat));
    }
    out
}

/// Canonical decimal text of an unsigned 64-bit integer.
pub fn u64_to_string(v: u64) -> (r: String)
    ensures
        r@ == spec_udec(v as nat),
{
    let digits = udec_chars(v);
    string_from_chars(&digits)
}

/// Canonical decimal text of a 64-bit signed integer.
pub fn i64_to_string(v: i64) -> (r: String)
    ensures
        r@ == spec_int_text(v as int),
{
    if v >= 0 {
        let digits = udec_chars(v as u64);
        string_from_chars(&digits)
    } else {
        let mag: u64 = ((-(v + 1)) as u64) + 1;
        assert(mag as int == -(v as int));
        let mut digits = udec_chars(mag);
        digits.insert(0, '-');
        proof {
            assert(digits@ =~= seq!['-'].add(spec_udec(mag as nat)));
        }
        string_from_chars(&digits)
    }
}

fn exec_is_digit(c: char) -> (r: bool)
    ensures
        r == spec_is_digit(c),
{
    let n = c as u32;
    48 <= n && n <= 57
}

/// Whether a character is a decimal digit.
pub fn exec_is_digit_pub(c: char) -> (r: bool)
    ensures
        r == spec_is_digit(c),
{
    let n = c as u32;
    48 <= n && n <= 57
}

proof fn lemma_dec_val_snoc(s: Seq<char>, k: int)
    requires
        0 <= k < s.len(),
    ensures
        spec_dec_val(s.subrange(0, k + 1))
            == spec_dec_val(s.subrange(0, k)) * 10 + spec_digit_val(s[k]),
{
    assert(s.subrange(0, k + 1).drop_last() =~= s.subrange(0, k));
    assert(s.subrange(0, k + 1).last() == s[k]);
}

proof fn lemma_dec_val_grows(s: Seq<char>, k: int)
    requires
        spec_all_digits(s),
        0 <= k <= s.len(),
    ensures
        spec_dec_val(s) >= spec_dec_val(s.subrange(0, k)),
    decreases s.len() - k,
{
    if k == s.len() {
        assert(s.subrange(0, k) =~= s);
    } else {
        lemma_dec_val_grows(s, k + 1);
        lemma_dec_val_snoc(s, k);
        assert(spec_all_digits(s.subrange(0, k)));
        lemma_dec_val_nonneg(s.subrange(0, k));
    }
}

/// Reads a 64-bit signed integer from decimal text with an optional
/// leading sign. Returns `None` exactly when the text is not such a
/// literal or its value does not fit.
pub fn parse_i64(s: &Vec<char>) -> (r: Option<i64>)
    ensures
        r == spec_parse_i64(s@),
{
    let n = s.len();
    if n == 0 {
        return None;
    }
    let c0 = s[0];
    let neg = c0 == '-';
    let signed = c0 == '-' || c0 == '+';
    let start: usize = if signed { 1 } else { 0 };
    if start == n {
        return None;
    }
    let ghost ds = if signed { s@.subrange(1, s@.len() as int) } else { s@ };
    // The largest magnitude that still fits: one more for the negative side.
    let limit: u64 = if neg { 9223372036854775808 } else { 9223372036854775807 };
    let mut acc: u64 = 0;
    let mut i: usize = start;
    while i < n
        invariant
            start <= i <= n,
            0 < n == s@.len(),
            start < n,
            neg == (s@[0] == '-'),
            signed == (s@[0] == '-' || s@[0] == '+'),
            start == if signed { 1int } else { 0int },
            ds == if signed { s@.subrange(1, s@.len() as int) } else { s@ },
            neg ==> limit == 9223372036854775808,
            !neg ==> limit == 9223372036854775807,
            acc <= limit,
            spec_all_digits(ds.subrange(0, i - start)),
            acc as int == spec_dec_val(ds.subrange(0, i - start)),
        decreases n - i,
    {
        let c = s[i];
        if !exec_is_digit(c) {
            proof {
                assert(ds[i - start] == c);
                assert(!spec_all_digits(ds));
                assert(spec_parse_i64(s@) == None::<i64>);
            }
            return None;
        }
        let d: u64 = (c as u32 as u64) - 48;
        proof {
            lemma_dec_val_snoc(ds, i - start);
        }
        if acc > (limit - d) / 10 {
            proof {
                let k = i - start;
                let ai = acc as int;
                let da = d as int;
                let li = limit as int;
                assert(spec_all_digits(ds.subrange(0, k + 1)));
                if spec_all_digits(ds) {
                    lemma_dec_val_grows(ds, k + 1);
                    assert(spec_dec_val(ds.subrange(0, k + 1)) == ai * 10 + da);
                    assert(ai * 10 + da > li) by (nonlinear_arith)
                        requires
                            ai > (li - da) / 10,
                            0 <= da < 10,
                            10 <= li,
                    ;
                    assert(spec_dec_val(ds) > li);
                    assert(spec_parse_i64(s@) == None::<i64>);
                } else {
                    assert(spec_parse_i64(s@) == None::<i64>);
                }
            }
            return None;
        }
        acc = acc * 10 + d;
        i = i + 1;
        proof {
            assert(ds.subrange(0, i - start).drop_last() =~= ds.subrange(0, i - 1 - start));
        }
    }
    proof {
        assert(ds.subrange(0, ds.len() as int) =~= ds);
    }
    if neg {
        if acc == 9223372036854775808 {
            Some(i64::MIN)
        } else {
            Some(-(acc as i64))
        }
    } else {
        Some(acc as i64)
    }
}

} // verus!
