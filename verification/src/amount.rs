//! Exact conversion of decimal USDC amounts into six-decimal base units.

use vstd::prelude::*;

use crate::error::TaskmarketError;
use crate::text::{
    all_digits, chars_of, decimal, decimal_string, digit_char, is_digit, lemma_trim_idempotent,
    trim, trim_end, trim_start, trim_str,
};

verus! {

/// The number of base units in one USDC.
pub const BASE_UNITS_PER_USDC: u128 = 1_000_000;

/// The value of decimal digit character `c`.
pub open spec fn digit_value(c: char) -> int {
    (c as int) - ('0' as int)
}

/// The number that the digit string `s` denotes (0 for the empty string).
pub open spec fn digits_value(s: Seq<char>) -> int
    decreases s.len(),
{
    if s.len() == 0 {
        0
    } else {
        digits_value(s.drop_last()) * 10 + digit_value(s.last())
    }
}

/// The index of the first `'.'` in `s`, or -1 when there is none.
pub open spec fn first_dot(s: Seq<char>) -> int
    decreases s.len(),
{
    if s.len() == 0 {
        -1
    } else if s[0] == '.' {
        0
    } else {
        let p = first_dot(s.drop_first());
        if p < 0 {
            -1
        } else {
            p + 1
        }
    }
}

/// The text before the first `'.'` (all of `s` when there is none).
pub open spec fn whole_part(s: Seq<char>) -> Seq<char> {
    if first_dot(s) < 0 {
        s
    } else {
        s.subrange(0, first_dot(s))
    }
}

/// The text after the first `'.'` (empty when there is none).
pub open spec fn fraction_part(s: Seq<char>) -> Seq<char> {
    if first_dot(s) < 0 {
        Seq::empty()
    } else {
        s.subrange(first_dot(s) + 1, s.len() as int)
    }
}

/// `frac` padded on the right with zeros to six digits.
pub open spec fn padded_fraction(frac: Seq<char>) -> Seq<char> {
    frac + Seq::new((6 - frac.len()) as nat, |i: int| '0')
}

/// The base-unit value of an amount written `whole.frac`.
pub open spec fn base_units(whole: Seq<char>, frac: Seq<char>) -> int {
    digits_value(whole) * 1_000_000 + digits_value(padded_fraction(frac))
}

/// The amount text is a non-empty run of digits, optionally followed by a
/// point and at most six more digits.
pub open spec fn well_formed_amount(v: Seq<char>) -> bool {
    &&& whole_part(v).len() > 0
    &&& all_digits(whole_part(v))
    &&& all_digits(fraction_part(v))
    &&& fraction_part(v).len() <= 6
}

/// What converting `input` gives: the number of base units, or the message of
/// the `InvalidArgument` error that rejects it.
pub open spec fn usdc_outcome(input: Seq<char>) -> Result<int, Seq<char>> {
    let v = trim(input);
    if v.len() == 0 || v[0] == '-' || v[0] == '+' {
        Err("invalid USDC amount `"@ + v + "`"@)
    } else if !well_formed_amount(v) {
        Err("invalid USDC amount `"@ + v + "`; use at most six decimals"@)
    } else if base_units(whole_part(v), fraction_part(v)) > u128::MAX {
        Err("USDC amount `"@ + v + "` is too large"@)
    } else {
        Ok(base_units(whole_part(v), fraction_part(v)))
    }
}

proof fn lemma_first_dot(s: Seq<char>, i: int)
    requires
        0 <= i <= s.len(),
        forall|j: int| 0 <= j < i ==> s[j] != '.',
        i == s.len() || s[i] == '.',
    ensures
        first_dot(s) == (if i == s.len() {
            -1
        } else {
            i
        }),
    decreases s.len(),
{
    if s.len() > 0 && s[0] != '.' {
        assert(i > 0);
        lemma_first_dot(s.drop_first(), i - 1);
    }
}

proof fn lemma_digits_nonneg(s: Seq<char>)
    requires
        all_digits(s),
    ensures
        digits_value(s) >= 0,
    decreases s.len(),
{
    if s.len() > 0 {
        assert(is_digit(s[s.len() - 1]));
        assert(all_digits(s.drop_last()));
        lemma_digits_nonneg(s.drop_last());
    }
}

proof fn lemma_digits_prefix_le(s: Seq<char>, k: int)
    requires
        all_digits(s),
        0 <= k <= s.len(),
    ensures
        digits_value(s.take(k)) <= digits_value(s),
    decreases s.len(),
{
    if k == s.len() {
        assert(s.take(k) =~= s);
    } else {
        assert(is_digit(s[s.len() - 1]));
        assert(all_digits(s.drop_last()));
        assert(s.drop_last().take(k) =~= s.take(k));
        lemma_digits_prefix_le(s.drop_last(), k);
        lemma_digits_nonneg(s.drop_last());
    }
}

proof fn lemma_digits_step(s: Seq<char>, k: int)
    requires
        0 <= k < s.len(),
    ensures
        digits_value(s.take(k + 1)) == digits_value(s.take(k)) * 10 + digit_value(s[k]),
{
    assert(s.take(k + 1).drop_last() =~= s.take(k));
}

/// A run of digits on the given characters, from `lo` to `hi`, read as a number
/// with overflow checks; `None` when the number does not fit in a `u128`.
fn read_digits(v: &Vec<char>, lo: usize, hi: usize) -> (out: Option<u128>)
    requires
        lo <= hi <= v@.len(),
        all_digits(v@.subrange(lo as int, hi as int)),
    ensures
        match out {
            Some(n) => n == digits_value(v@.subrange(lo as int, hi as int)),
            None => digits_value(v@.subrange(lo as int, hi as int)) > u128::MAX,
        },
{
    let ghost s = v@.subrange(lo as int, hi as int);
    let mut acc: u128 = 0;
    let mut i: usize = lo;
    assert(s.take(0) =~= Seq::<char>::empty());
    while i < hi
        invariant
            lo <= i <= hi <= v@.len(),
            s == v@.subrange(lo as int, hi as int),
            all_digits(s),
            acc == digits_value(s.take(i - lo)),
        decreases hi - i,
    {
        let c = v[i];
        assert(s[i - lo] == c);
        assert(is_digit(s[i - lo]));
        let d = (c as u32 - '0' as u32) as u128;
        proof {
            lemma_digits_step(s, i - lo);
        }
        match acc.checked_mul(10) {
            Some(m) => match m.checked_add(d) {
                Some(t) => {
                    acc = t;
                },
                None => {
                    proof {
                        lemma_digits_prefix_le(s, i - lo + 1);
                    }
                    return None;
                },
            },
            None => {
                proof {
                    lemma_digits_prefix_le(s, i - lo + 1);
                    lemma_digits_nonneg(s.take(i - lo));
                }
                return None;
            },
        }
        i = i + 1;
    }
    assert(s.take(hi - lo) =~= s);
    Some(acc)
}

/// The value of the fraction digits `v[lo..hi]` padded on the right with zeros
/// to six digits.
fn read_padded_fraction(v: &Vec<char>, lo: usize, hi: usize) -> (out: u128)
    requires
        lo <= hi <= v@.len(),
        hi - lo <= 6,
        all_digits(v@.subrange(lo as int, hi as int)),
    ensures
        out == digits_value(padded_fraction(v@.subrange(lo as int, hi as int))),
        out < 1_000_000,
{
    let ghost f = v@.subrange(lo as int, hi as int);
    let ghost p = padded_fraction(f);
    assert(p.len() == 6);
    assert(p.take(0) =~= Seq::<char>::empty());
    let mut acc: u128 = 0;
    let mut k: usize = 0;
    let ghost mut bound: int = 1;
    while k < 6
        invariant
            lo <= hi <= v@.len(),
            hi - lo <= 6,
            f == v@.subrange(lo as int, hi as int),
            all_digits(f),
            p == padded_fraction(f),
            p.len() == 6,
            k <= 6,
            acc == digits_value(p.take(k as int)),
            0 <= acc < bound,
            bound == (if k == 0 { 1int } else if k == 1 { 10 } else if k == 2 { 100 } else if k == 3 { 1000 } else if k == 4 { 10000 } else if k == 5 { 100000 } else { 1000000 }),
        decreases 6 - k,
    {
        let d: u128 = if k < hi - lo {
            let c = v[lo + k];
            assert(f[k as int] == c);
            assert(is_digit(f[k as int]));
            assert(p[k as int] == c);
            (c as u32 - '0' as u32) as u128
        } else {
            assert(p[k as int] == '0');
            0
        };
        proof {
            lemma_digits_step(p, k as int);
            bound = bound * 10;
        }
        acc = acc * 10 + d;
        k = k + 1;
    }
    assert(p.take(6) =~= p);
    acc
}

/// Converts a decimal USDC amount such as `10.5` into base units (`10500000`),
/// exactly and without floating point. Surrounding white space is ignored; a
/// sign, a second point, non-digits, more than six decimals, or a value above
/// `u128::MAX` base units is rejected.
pub fn usdc_to_base_units(value: &str) -> (out: Result<String, TaskmarketError>)
    ensures
        match usdc_outcome(value@) {
            Ok(n) => out matches Ok(s) && s@ == decimal(n as nat),
            Err(msg) => out matches Err(TaskmarketError::InvalidArgument(m)) && m@ == msg,
        },
{
    let value = trim_str(value);
    let v = chars_of(value);
    let n = v.len();
    if n == 0 || v[0] == '-' || v[0] == '+' {
        let mut m = String::from_str("invalid USDC amount `");
        m.append(value);
        m.append("`");
        return Err(TaskmarketError::InvalidArgument(m));
    }
    let mut p: usize = 0;
    while p < n && v[p] != '.'
        invariant
            n == v@.len(),
            p <= n,
            forall|j: int| 0 <= j < p ==> v@[j] != '.',
        decreases n - p,
    {
        p = p + 1;
    }
    proof {
        lemma_first_dot(v@, p as int);
    }
    let frac_lo: usize = if p < n { p + 1 } else { n };
    assert(whole_part(v@) =~= v@.subrange(0, p as int));
    assert(fraction_part(v@) =~= v@.subrange(frac_lo as int, n as int));
    let mut shape_ok = p > 0 && n - frac_lo <= 6;
    let mut i: usize = 0;
    while i < n
        invariant
            n == v@.len(),
            p <= n,
            frac_lo <= n,
            i <= n,
            shape_ok ==> (p > 0 && n - frac_lo <= 6),
            shape_ok ==> forall|j: int| 0 <= j < i && j != p ==> is_digit(v@[j]),
            (forall|j: int| 0 <= j < i && j != p ==> is_digit(v@[j])) && p > 0 && n - frac_lo
                <= 6 ==> shape_ok,
        decreases n - i,
    {
        if i != p && !('0' <= v[i] && v[i] <= '9') {
            shape_ok = false;
        }
        i = i + 1;
    }
    if !shape_ok {
        assert(!well_formed_amount(v@)) by {
            if well_formed_amount(v@) {
                assert forall|j: int| 0 <= j < n && j != p implies is_digit(v@[j]) by {
                    if j < p {
                        assert(whole_part(v@)[j] == v@[j]);
                    } else {
                        assert(fraction_part(v@)[j - frac_lo] == v@[j]);
                    }
                }
            }
        }
        let mut m = String::from_str("invalid USDC amount `");
        m.append(value);
        m.append("`; use at most six decimals");
        return Err(TaskmarketError::InvalidArgument(m));
    }
    assert(all_digits(v@.subrange(0, p as int)));
    assert(all_digits(v@.subrange(frac_lo as int, n as int)));
    assert(well_formed_amount(v@));
    let ghost whole = v@.subrange(0, p as int);
    let ghost frac = v@.subrange(frac_lo as int, n as int);
    let fraction = read_padded_fraction(&v, frac_lo, n);
    match read_digits(&v, 0, p) {
        Some(w) => {
            match w.checked_mul(BASE_UNITS_PER_USDC) {
                Some(scaled) => match scaled.checked_add(fraction) {
                    Some(total) => {
                        return Ok(decimal_string(total));
                    },
                    None => {},
                },
                None => {
                    proof {
                        lemma_digits_nonneg(padded_fraction(frac));
                    }
                },
            }
        },
        None => {
            proof {
                lemma_digits_nonneg(padded_fraction(frac));
            }
        },
    }
    let mut m = String::from_str("USDC amount `");
    m.append(value);
    m.append("` is too large");
    Err(TaskmarketError::InvalidArgument(m))
}

proof fn lemma_decimal_digits(n: nat)
    ensures
        decimal(n).len() >= 1,
        all_digits(decimal(n)),
        digits_value(decimal(n)) == n,
    decreases n,
{
    let d = (n % 10) as int;
    assert(digit_value(digit_char(d)) == d);
    assert(is_digit(digit_char(d)));
    if n < 10 {
        let s = decimal(n);
        assert(d == n);
        assert(s.drop_last() =~= Seq::<char>::empty());
        assert(s.last() == digit_char(d));
        assert(digits_value(s.drop_last()) == 0);
        assert(digits_value(s) == d);
    } else {
        assert((n / 10) * 10 + n % 10 == n);
        lemma_decimal_digits(n / 10);
        let s = decimal(n);
        assert(s.drop_last() =~= decimal(n / 10));
        assert forall|i: int| 0 <= i < s.len() implies is_digit(#[trigger] s[i]) by {
            if i < s.len() - 1 {
                assert(s[i] == decimal(n / 10)[i]);
            }
        }
    }
}

proof fn lemma_zeros_value(k: nat)
    ensures
        digits_value(Seq::new(k, |i: int| '0')) == 0,
    decreases k,
{
    if k > 0 {
        assert(Seq::new(k, |i: int| '0').drop_last() =~= Seq::new((k - 1) as nat, |i: int| '0'));
        lemma_zeros_value((k - 1) as nat);
    }
}

proof fn lemma_trim_of_digits(s: Seq<char>)
    requires
        s.len() >= 1,
        all_digits(s),
    ensures
        trim(s) == s,
{
    assert(is_digit(s[0]));
    assert(is_digit(s[s.len() - 1]));
    assert(trim_start(s) == s);
    assert(trim_end(s) == s);
}

/// A whole number of USDC, written in decimal, converts to exactly a million
/// base units per USDC (when the result fits in a `u128`).
pub proof fn lemma_whole_amounts(n: nat)
    requires
        n * 1_000_000 <= u128::MAX,
    ensures
        usdc_outcome(decimal(n)) == Ok::<int, Seq<char>>((n * 1_000_000) as int),
{
    let s = decimal(n);
    lemma_decimal_digits(n);
    lemma_trim_of_digits(s);
    assert(is_digit(s[0]));
    assert forall|j: int| 0 <= j < s.len() implies s[j] != '.' by {
        assert(is_digit(s[j]));
    }
    lemma_first_dot(s, s.len() as int);
    assert(whole_part(s) == s);
    assert(fraction_part(s) =~= Seq::<char>::empty());
    assert(padded_fraction(Seq::<char>::empty()) =~= Seq::new(6, |i: int| '0'));
    lemma_zeros_value(6);
}

proof fn lemma_amount_parts(w: Seq<char>, f: Seq<char>)
    requires
        w.len() > 0,
        all_digits(w),
        all_digits(f),
    ensures
        trim(w + seq!['.'] + f) == w + seq!['.'] + f,
        whole_part(w + seq!['.'] + f) == w,
        fraction_part(w + seq!['.'] + f) == f,
{
    let a = w + seq!['.'] + f;
    assert(is_digit(w[0]));
    assert(a[0] == w[0]);
    assert(trim_start(a) == a);
    let last = a[a.len() - 1];
    assert(last == '.' || is_digit(last)) by {
        if f.len() > 0 {
            assert(last == f[f.len() - 1]);
        }
    }
    assert(trim_end(a) == a);
    assert forall|j: int| 0 <= j < w.len() implies a[j] != '.' by {
        assert(a[j] == w[j]);
        assert(is_digit(w[j]));
    }
    lemma_first_dot(a, w.len() as int);
    assert(a.subrange(0, w.len() as int) =~= w);
    assert(a.subrange((w.len() + 1) as int, a.len() as int) =~= f);
}

/// Trailing zeros after the point do not change an amount: `w.f` and `w.f0`
/// are both accepted or both rejected, and when accepted they give the same
/// number of base units.
pub proof fn lemma_trailing_zero_decimals(w: Seq<char>, f: Seq<char>)
    requires
        w.len() > 0,
        all_digits(w),
        all_digits(f),
        f.len() < 6,
    ensures
        (usdc_outcome(w + seq!['.'] + f) is Ok) == (usdc_outcome(w + seq!['.'] + f.push('0')) is Ok),
        usdc_outcome(w + seq!['.'] + f) is Ok ==> usdc_outcome(w + seq!['.'] + f)
            == usdc_outcome(w + seq!['.'] + f.push('0')),
{
    let g = f.push('0');
    assert(all_digits(g)) by {
        assert forall|i: int| 0 <= i < g.len() implies is_digit(#[trigger] g[i]) by {
            if i < f.len() {
                assert(g[i] == f[i]);
            }
        }
    }
    lemma_amount_parts(w, f);
    lemma_amount_parts(w, g);
    assert(padded_fraction(f) =~= padded_fraction(g));
    assert((w + seq!['.'] + f)[0] == w[0]);
    assert((w + seq!['.'] + g)[0] == w[0]);
    assert(is_digit(w[0]));
}

/// An amount converts the same with or without surrounding white space.
pub proof fn lemma_surrounding_white_space_ignored(value: Seq<char>)
    ensures
        usdc_outcome(trim(value)) == usdc_outcome(value),
{
    lemma_trim_idempotent(value);
}

} // verus!
