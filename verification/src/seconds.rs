//! Reading a number of seconds, written as `f64::from_str` takes it, into
//! whole milliseconds (see `scan::seconds_millis`).
use vstd::prelude::*;
use crate::scan::{
    all_digit_chars, all_digits, all_zeros, chars_are, copy_range, decimal_exact, decimal_millis,
    digit_value, digits_value, dropped_digits, exponent_value, find_char, index_of, index_of_exp,
    is_digit, lemma_digits_value_step, lemma_index_of, lower_text, millis_rounded, seconds_millis,
    shifted_digits, split_sign, zeros, ascii_lower,
};

verus! {

/// Ten to the power `n`.
pub open spec fn pow10(n: nat) -> nat
    decreases n,
{
    if n == 0 {
        1
    } else {
        10 * pow10((n - 1) as nat)
    }
}

proof fn lemma_pow10_grows(n: nat)
    requires
        n >= 10,
    ensures
        pow10(n) > u32::MAX,
    decreases n,
{
    if n > 10 {
        lemma_pow10_grows((n - 1) as nat);
    } else {
        reveal_with_fuel(pow10, 11);
    }
}

/// Zeros after the digits multiply the number by a power of ten.
proof fn lemma_digits_then_zeros(s: Seq<char>, z: nat)
    ensures
        digits_value(s + zeros(z)) == digits_value(s) * pow10(z),
    decreases z,
{
    if z == 0 {
        assert(s + zeros(0) =~= s);
        assert(pow10(0) == 1);
        assert(digits_value(s) * 1 == digits_value(s));
    } else {
        lemma_digits_then_zeros(s, (z - 1) as nat);
        let t = s + zeros(z);
        assert(t.drop_last() =~= s + zeros((z - 1) as nat));
        assert(t.last() == '0');
        assert(digit_value('0') == 0);
        assert(digits_value(t) == digits_value(s + zeros((z - 1) as nat)) * 10);
        assert(digits_value(t) == digits_value(s) * pow10((z - 1) as nat) * 10);
        assert(digits_value(s) * pow10(z) == digits_value(s) * pow10((z - 1) as nat) * 10) by (
        nonlinear_arith)
            requires
                pow10(z) == 10 * pow10((z - 1) as nat),
        ;
    }
}

/// The exponent held at `cap` either way.
pub open spec fn clamp_exponent(e: int, cap: int) -> int {
    if e > cap {
        cap
    } else if e < -cap {
        -cap
    } else {
        e
    }
}

/// Holding the exponent at the number of digits plus ten changes no
/// millisecond count below `u32::MAX`.
proof fn lemma_exponent_clamp(d: Seq<char>, int_len: nat, e: int)
    requires
        int_len <= d.len(),
        all_digits(d),
    ensures
        ({
            let cap = d.len() + 10int;
            let v = digits_value(shifted_digits(d, int_len + 3 + e));
            let vc = digits_value(shifted_digits(d, int_len + 3 + clamp_exponent(e, cap)));
            (if v <= u32::MAX {
                v
            } else {
                u32::MAX as nat
            }) == (if vc <= u32::MAX {
                vc
            } else {
                u32::MAX as nat
            })
        }),
{
    let cap = d.len() + 10int;
    if e > cap {
        let k = int_len + 3 + e;
        let kc = int_len + 3 + cap;
        lemma_digits_then_zeros(d, (k - d.len()) as nat);
        lemma_digits_then_zeros(d, (kc - d.len()) as nat);
        if digits_value(d) > 0 {
            lemma_pow10_grows((k - d.len()) as nat);
            lemma_pow10_grows((kc - d.len()) as nat);
            assert(digits_value(d) * pow10((k - d.len()) as nat) >= pow10((k - d.len()) as nat))
                by (nonlinear_arith)
                requires
                    digits_value(d) >= 1,
            ;
            assert(digits_value(d) * pow10((kc - d.len()) as nat) >= pow10((kc - d.len()) as nat))
                by (nonlinear_arith)
                requires
                    digits_value(d) >= 1,
            ;
        }
    }
}

/// The number spelled by a string of digits, held at `cap`.
pub fn capped_digits_value(v: &[char], cap: u128) -> (r: u128)
    requires
        all_digits(v@),
        cap < 0x1_0000_0000_0000_0000_0000_0000,
    ensures
        r == if digits_value(v@) <= cap {
            digits_value(v@)
        } else {
            cap as nat
        },
{
    let mut acc: u128 = 0;
    let mut i: usize = 0;
    while i < v.len()
        invariant
            i <= v@.len(),
            all_digits(v@),
            cap < 0x1_0000_0000_0000_0000_0000_0000,
            acc == if digits_value(v@.take(i as int)) <= cap {
                digits_value(v@.take(i as int))
            } else {
                cap as nat
            },
        decreases v@.len() - i,
    {
        proof {
            lemma_digits_value_step(v@, i as int);
            assert(is_digit(v@[i as int]));
        }
        let dv = (v[i] as u32 - 48) as u128;
        acc = acc * 10 + dv;
        if acc > cap {
            acc = cap;
        }
        i = i + 1;
    }
    assert(v@.take(v@.len() as int) =~= v@);
    acc
}

/// Index of the first `e` or `E`, or the length.
fn find_exp(v: &[char]) -> (k: usize)
    ensures
        k == index_of_exp(v@),
{
    let n = v.len();
    let mut k: usize = 0;
    while k < n && v[k] != 'e' && v[k] != 'E'
        invariant
            k <= n == v@.len(),
            forall|j: int| 0 <= j < k ==> #[trigger] v@[j] != 'e' && v@[j] != 'E',
        decreases n - k,
    {
        k = k + 1;
    }
    proof {
        lemma_index_of_exp_is(v@, k as nat);
    }
    k
}

pub proof fn lemma_index_of_exp_is(s: Seq<char>, k: nat)
    requires
        k <= s.len(),
        forall|j: int| 0 <= j < k ==> #[trigger] s[j] != 'e' && s[j] != 'E',
        k < s.len() ==> (s[k as int] == 'e' || s[k as int] == 'E'),
    ensures
        index_of_exp(s) == k,
    decreases s.len(),
{
    if k > 0 {
        assert(s[0] != 'e' && s[0] != 'E');
        assert forall|j: int| 0 <= j < k - 1 implies #[trigger] s.drop_first()[j] != 'e'
            && s.drop_first()[j] != 'E' by {
            assert(s.drop_first()[j] == s[j + 1]);
        }
        lemma_index_of_exp_is(s.drop_first(), (k - 1) as nat);
    }
}

/// ASCII letters in lower case.
fn lower_chars(v: &[char]) -> (r: Vec<char>)
    ensures
        r@ == lower_text(v@),
{
    let mut r: Vec<char> = Vec::new();
    let mut i: usize = 0;
    while i < v.len()
        invariant
            i <= v@.len(),
            r@ == lower_text(v@).take(i as int),
        decreases v@.len() - i,
    {
        let c = v[i];
        let l = if 'A' <= c && c <= 'Z' {
            let code: u8 = (c as u32 + 32) as u8;
            code as char
        } else {
            c
        };
        assert(l == ascii_lower(c));
        r.push(l);
        assert(r@ =~= lower_text(v@).take(i + 1));
        i = i + 1;
    }
    assert(lower_text(v@).take(v@.len() as int) =~= lower_text(v@));
    r
}

/// An exponent (an optional sign and digits), held at `cap` either way.
fn exponent_capped(t: &[char], cap: u128) -> (r: Option<i128>)
    requires
        cap < 0x1_0000_0000_0000_0000_0000_0000,
    ensures
        match exponent_value(t@) {
            None => r is None,
            Some(e) => r == Some(clamp_exponent(e, cap as int) as i128),
        },
{
    let n = t.len();
    let neg = n > 0 && t[0] == '-';
    let start: usize = if n > 0 && (t[0] == '+' || t[0] == '-') {
        1
    } else {
        0
    };
    let d = copy_range(t, start, n);
    assert(split_sign(t@) == (neg, d@));
    if d.len() == 0 || !all_digit_chars(d.as_slice()) {
        return None;
    }
    let mag = capped_digits_value(d.as_slice(), cap);
    let m = mag as i128;
    if neg {
        Some(-m)
    } else {
        Some(m)
    }
}

/// `a` followed by `b`.
fn concat_chars(a: &[char], b: &[char]) -> (r: Vec<char>)
    ensures
        r@ == a@ + b@,
{
    let mut r = copy_range(a, 0, a.len());
    assert(a@.subrange(0, a@.len() as int) =~= a@);
    let mut i: usize = 0;
    while i < b.len()
        invariant
            i <= b@.len(),
            r@ == a@ + b@.take(i as int),
        decreases b@.len() - i,
    {
        r.push(b[i]);
        assert(r@ =~= a@ + b@.take(i + 1));
        i = i + 1;
    }
    assert(b@.take(b@.len() as int) =~= b@);
    r
}

/// The first `k` digits of `d`, with zeros added past its end.
fn shift_digits(d: &[char], k: i128) -> (r: Vec<char>)
    ensures
        r@ == shifted_digits(d@, k as int),
{
    if k <= 0 {
        return Vec::new();
    }
    if k <= d.len() as i128 {
        return copy_range(d, 0, k as usize);
    }
    let mut r = copy_range(d, 0, d.len());
    assert(d@.subrange(0, d@.len() as int) =~= d@);
    let extra: u128 = (k - d.len() as i128) as u128;
    let mut i: u128 = 0;
    while i < extra
        invariant
            i <= extra,
            r@ == d@ + zeros(i as nat),
        decreases extra - i,
    {
        r.push('0');
        assert(r@ =~= d@ + zeros((i + 1) as nat));
        i = i + 1;
    }
    r
}

/// Whether the digits of `d` past the first `k` are all zeros.
fn zeros_past(d: &[char], k: i128) -> (b: bool)
    ensures
        b == all_zeros(dropped_digits(d@, k as int)),
{
    let start: usize = if k <= 0 {
        0
    } else if k <= d.len() as i128 {
        k as usize
    } else {
        d.len()
    };
    assert(dropped_digits(d@, k as int) =~= d@.skip(start as int));
    let mut i: usize = start;
    while i < d.len()
        invariant
            start <= i <= d@.len(),
            dropped_digits(d@, k as int) == d@.skip(start as int),
            forall|j: int| start <= j < i ==> #[trigger] d@[j] == '0',
        decreases d@.len() - i,
    {
        if d[i] != '0' {
            assert(d@.skip(start as int)[i - start] == d@[i as int]);
            assert(d@.skip(start as int)[i - start] != '0');
            assert(!all_zeros(d@.skip(start as int)));
            return false;
        }
        i = i + 1;
    }
    assert forall|j: int| 0 <= j < d@.skip(start as int).len() implies d@.skip(start as int)[j]
        == '0' by {
        assert(d@.skip(start as int)[j] == d@[start + j]);
    }
    true
}

/// Holding the exponent at the number of digits plus ten leaves the
/// dropped digits as they are.
proof fn lemma_exponent_clamp_dropped(d: Seq<char>, int_len: nat, e: int)
    requires
        int_len <= d.len(),
    ensures
        dropped_digits(d, int_len + 3 + e) == dropped_digits(
            d,
            int_len + 3 + clamp_exponent(e, d.len() + 10int),
        ),
{
}

/// A time in whole milliseconds and whether it is exact, rounded as
/// `millis_rounded` says and held at `u32::MAX`.
pub fn rounded_millis(floor: u32, exact: bool) -> (r: u32)
    ensures
        r == if millis_rounded(floor as nat, exact) <= u32::MAX {
            millis_rounded(floor as nat, exact)
        } else {
            u32::MAX as nat
        },
{
    if floor >= 30000 && !exact && floor < 0xffff_ffff {
        floor + 1
    } else {
        floor
    }
}

/// Whole milliseconds in an unsigned decimal number of seconds (see
/// `decimal_millis`), held at `u32::MAX`, and whether the number is a
/// whole number of milliseconds (see `decimal_exact`).
fn decimal_millis_exec(b: &[char]) -> (r: Option<(u32, bool)>)
    ensures
        match decimal_millis(b@) {
            None => r is None,
            Some(v) => r == Some(
                (
                    if v <= u32::MAX {
                        v as u32
                    } else {
                        u32::MAX
                    },
                    decimal_exact(b@),
                ),
            ),
        },
{
    let ep = find_exp(b);
    proof {
        lemma_index_of_exp(b@);
    }
    let mant = copy_range(b, 0, ep);
    assert(mant@ =~= b@.take(ep as int));
    let p = find_char(mant.as_slice(), '.');
    proof {
        lemma_index_of(mant@, '.');
    }
    let int_part = copy_range(mant.as_slice(), 0, p);
    assert(int_part@ =~= mant@.take(p as int));
    let frac_part = if p < mant.len() {
        copy_range(mant.as_slice(), p + 1, mant.len())
    } else {
        Vec::new()
    };
    proof {
        if p < mant@.len() {
            assert(frac_part@ =~= mant@.skip(p + 1 as int));
        } else {
            assert(frac_part@ =~= Seq::<char>::empty());
        }
    }
    if !all_digit_chars(int_part.as_slice()) || !all_digit_chars(frac_part.as_slice()) || (
    int_part.len() == 0 && frac_part.len() == 0) {
        return None;
    }
    let digits = concat_chars(int_part.as_slice(), frac_part.as_slice());
    let cap: u128 = digits.len() as u128 + 10;
    let e: i128 = if ep < b.len() {
        let t = copy_range(b, ep + 1, b.len());
        assert(t@ =~= b@.skip(ep + 1 as int));
        match exponent_capped(t.as_slice(), cap) {
            None => return None,
            Some(x) => x,
        }
    } else {
        0
    };
    let ghost e_real: int = if ep < b@.len() {
        exponent_value(b@.skip(ep + 1 as int))->0
    } else {
        0
    };
    assert(e as int == clamp_exponent(e_real, cap as int));
    let kept: i128 = int_part.len() as i128 + 3 + e;
    let shifted = shift_digits(digits.as_slice(), kept);
    proof {
        assert forall|i: int| 0 <= i < digits@.len() implies is_digit(#[trigger] digits@[i]) by {
            if i < int_part@.len() {
                assert(digits@[i] == int_part@[i]);
            } else {
                assert(digits@[i] == frac_part@[i - int_part@.len()]);
            }
        }
        assert forall|i: int| 0 <= i < shifted@.len() implies is_digit(#[trigger] shifted@[i]) by {
            if i < digits@.len() {
                assert(shifted@[i] == digits@[i]);
            } else {
                assert(shifted@[i] == '0');
            }
        }
        lemma_exponent_clamp(digits@, int_part@.len(), e_real);
        lemma_exponent_clamp_dropped(digits@, int_part@.len(), e_real);
    }
    let value = capped_digits_value(shifted.as_slice(), 0xffff_ffff);
    let exact = zeros_past(digits.as_slice(), kept);
    Some((value as u32, exact))
}

proof fn lemma_index_of_exp(s: Seq<char>)
    ensures
        index_of_exp(s) <= s.len(),
    decreases s.len(),
{
    if s.len() > 0 && s[0] != 'e' && s[0] != 'E' {
        lemma_index_of_exp(s.drop_first());
    }
}

/// Reads a number of seconds into milliseconds (see `seconds_millis`).
pub fn parse_seconds_millis(v: &[char]) -> (r: Option<u32>)
    ensures
        r == seconds_millis(v@),
{
    let n = v.len();
    let neg = n > 0 && v[0] == '-';
    let start: usize = if n > 0 && (v[0] == '+' || v[0] == '-') {
        1
    } else {
        0
    };
    let b = copy_range(v, start, n);
    assert(split_sign(v@) == (neg, b@));
    let lowered = lower_chars(b.as_slice());
    if chars_are(lowered.as_slice(), "inf") || chars_are(lowered.as_slice(), "infinity") {
        return Some(
            if neg {
                0
            } else {
                0xffff_ffff
            },
        );
    }
    match decimal_millis_exec(b.as_slice()) {
        None => None,
        Some((m, exact)) => Some(
            if neg {
                0
            } else {
                rounded_millis(m, exact)
            },
        ),
    }
}

} // verus!
