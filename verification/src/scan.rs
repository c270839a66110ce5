//! Scanning of configuration text: trimming Unicode whitespace, finding a
//! character, splitting into words, and reading unsigned integers, decimal
//! seconds and booleans the way Rust's `str` methods and `FromStr` do.
use vstd::prelude::*;
use crate::text::{char_is_white, chars_of, is_white};

verus! {

/// Number of whitespace characters at the start of `s`.
pub open spec fn leading_white(s: Seq<char>) -> nat
    decreases s.len(),
{
    if s.len() > 0 && is_white(s[0]) {
        1 + leading_white(s.drop_first())
    } else {
        0
    }
}

/// Number of whitespace characters at the end of `s`.
pub open spec fn trailing_white(s: Seq<char>) -> nat
    decreases s.len(),
{
    if s.len() > 0 && is_white(s.last()) {
        1 + trailing_white(s.drop_last())
    } else {
        0
    }
}

/// `s` without leading whitespace (`str::trim_start`).
pub open spec fn trim_start(s: Seq<char>) -> Seq<char> {
    s.skip(leading_white(s) as int)
}

/// `s` without trailing whitespace (`str::trim_end`).
pub open spec fn trim_end(s: Seq<char>) -> Seq<char> {
    s.take(s.len() - trailing_white(s))
}

/// `s` without leading and trailing whitespace (`str::trim`).
pub open spec fn trim(s: Seq<char>) -> Seq<char> {
    trim_end(trim_start(s))
}

/// Index of the first `c` in `s`, or the length of `s` when there is none.
pub open spec fn index_of(s: Seq<char>, c: char) -> nat
    decreases s.len(),
{
    if s.len() == 0 {
        0
    } else if s[0] == c {
        0
    } else {
        1 + index_of(s.drop_first(), c)
    }
}

/// Index of the first whitespace character in `s`, or its length.
pub open spec fn index_of_white(s: Seq<char>) -> nat
    decreases s.len(),
{
    if s.len() == 0 {
        0
    } else if is_white(s[0]) {
        0
    } else {
        1 + index_of_white(s.drop_first())
    }
}

/// The part of `s` before the first `c` (`s.split(c).next()`).
pub open spec fn before(s: Seq<char>, c: char) -> Seq<char> {
    s.take(index_of(s, c) as int)
}

/// The whitespace-separated words of `s` (`str::split_whitespace`).
pub open spec fn words(s: Seq<char>) -> Seq<Seq<char>>
    decreases s.len(),
{
    let t = trim_start(s);
    if t.len() == 0 {
        seq![]
    } else {
        proof {
            lemma_leading_white(s);
            lemma_index_of_white(t);
        }
        let k = index_of_white(t);
        seq![t.take(k as int)] + words(t.skip(k as int))
    }
}

pub open spec fn is_digit(c: char) -> bool {
    '0' <= c <= '9'
}

pub open spec fn all_digits(s: Seq<char>) -> bool {
    forall|i: int| 0 <= i < s.len() ==> is_digit(#[trigger] s[i])
}

/// The value of the digit character `c`.
pub open spec fn digit_value(c: char) -> nat {
    (c as u32 - 48) as nat
}

/// The number that a string of decimal digits spells.
pub open spec fn digits_value(s: Seq<char>) -> nat
    decreases s.len(),
{
    if s.len() == 0 {
        0
    } else {
        digits_value(s.drop_last()) * 10 + digit_value(s.last())
    }
}

/// `s` without one leading `+`.
pub open spec fn drop_plus(s: Seq<char>) -> Seq<char> {
    if s.len() > 0 && s[0] == '+' {
        s.drop_first()
    } else {
        s
    }
}

/// The value of an unsigned integer as `FromStr` reads it: an optional `+`
/// and one or more decimal digits.
pub open spec fn unsigned_value(s: Seq<char>) -> Option<nat> {
    let d = drop_plus(s);
    if d.len() > 0 && all_digits(d) {
        Some(digits_value(d))
    } else {
        None
    }
}

/// `u32::from_str`.
pub open spec fn parse_u32_spec(s: Seq<char>) -> Option<u32> {
    match unsigned_value(s) {
        Some(v) => if v <= u32::MAX {
            Some(v as u32)
        } else {
            None
        },
        None => None,
    }
}

/// `u8::from_str`.
pub open spec fn parse_u8_spec(s: Seq<char>) -> Option<u8> {
    match unsigned_value(s) {
        Some(v) => if v <= u8::MAX {
            Some(v as u8)
        } else {
            None
        },
        None => None,
    }
}

/// `bool::from_str`: exactly `true` or `false`.
pub open spec fn parse_bool_spec(s: Seq<char>) -> Option<bool> {
    if s == "true"@ {
        Some(true)
    } else if s == "false"@ {
        Some(false)
    } else {
        None
    }
}

/// `s` split into its sign (an optional `+` or `-`; true for `-`) and the
/// rest.
pub open spec fn split_sign(s: Seq<char>) -> (bool, Seq<char>) {
    if s.len() > 0 && (s[0] == '+' || s[0] == '-') {
        (s[0] == '-', s.drop_first())
    } else {
        (false, s)
    }
}

/// ASCII letters in lower case.
pub open spec fn ascii_lower(c: char) -> char {
    if 'A' <= c <= 'Z' {
        ((c as u32) + 32) as char
    } else {
        c
    }
}

pub open spec fn lower_text(s: Seq<char>) -> Seq<char> {
    Seq::new(s.len(), |i: int| ascii_lower(s[i]))
}

/// Index of the first `e` or `E` in `s`, or its length.
pub open spec fn index_of_exp(s: Seq<char>) -> nat
    decreases s.len(),
{
    if s.len() == 0 {
        0
    } else if s[0] == 'e' || s[0] == 'E' {
        0
    } else {
        1 + index_of_exp(s.drop_first())
    }
}

/// The value of an exponent: an optional sign and one or more digits.
pub open spec fn exponent_value(t: Seq<char>) -> Option<int> {
    let (neg, d) = split_sign(t);
    if d.len() > 0 && all_digits(d) {
        Some(
            if neg {
                -digits_value(d)
            } else {
                digits_value(d) as int
            },
        )
    } else {
        None
    }
}

/// `n` zero digits.
pub open spec fn zeros(n: nat) -> Seq<char> {
    Seq::new(n, |i: int| '0')
}

/// The first `k` digits of `d`, with zeros added past its end (none when
/// `k` is not positive).
pub open spec fn shifted_digits(d: Seq<char>, k: int) -> Seq<char> {
    if k <= 0 {
        Seq::<char>::empty()
    } else if k <= d.len() {
        d.take(k)
    } else {
        d + zeros((k - d.len()) as nat)
    }
}

/// Whole milliseconds in an unsigned decimal number of seconds, written as
/// `f64::from_str` takes it: digits with an optional point (at least one
/// digit in all) and an optional exponent (`e` or `E`, a sign, digits).
/// They are the digits of the number with the point moved three places
/// right, and further by the exponent, and those past the point dropped.
pub open spec fn decimal_millis(b: Seq<char>) -> Option<nat> {
    let ep = index_of_exp(b);
    let mant = b.take(ep as int);
    let p = index_of(mant, '.');
    let int_part = mant.take(p as int);
    let frac_part = if p < mant.len() {
        mant.skip(p + 1 as int)
    } else {
        Seq::<char>::empty()
    };
    let e = if ep < b.len() {
        exponent_value(b.skip(ep + 1 as int))
    } else {
        Some(0int)
    };
    if all_digits(int_part) && all_digits(frac_part) && (int_part.len() > 0 || frac_part.len()
        > 0) && e is Some {
        Some(digits_value(shifted_digits(int_part + frac_part, int_part.len() + 3 + e->0)))
    } else {
        None
    }
}

/// The digits that the point, moved `k` places into `d`, leaves behind it.
pub open spec fn dropped_digits(d: Seq<char>, k: int) -> Seq<char> {
    if k <= 0 {
        d
    } else if k <= d.len() {
        d.skip(k)
    } else {
        Seq::<char>::empty()
    }
}

/// Every character is the digit zero.
pub open spec fn all_zeros(s: Seq<char>) -> bool {
    forall|i: int| 0 <= i < s.len() ==> s[i] == '0'
}

/// Whether the number that `decimal_millis` reads is a whole number of
/// milliseconds: the digits it drops are all zeros.
pub open spec fn decimal_exact(b: Seq<char>) -> bool {
    let ep = index_of_exp(b);
    let mant = b.take(ep as int);
    let p = index_of(mant, '.');
    let int_part = mant.take(p as int);
    let frac_part = if p < mant.len() {
        mant.skip(p + 1 as int)
    } else {
        Seq::<char>::empty()
    };
    let e = if ep < b.len() {
        exponent_value(b.skip(ep + 1 as int))
    } else {
        Some(0int)
    };
    all_zeros(dropped_digits(int_part + frac_part, int_part.len() + 3 + e->0))
}

/// A time of `v` whole milliseconds and a fraction of one (none when
/// `exact`), in milliseconds: rounded down below 30 s, and up from there.
/// So the time lies within 0.5 s to 30 s, both included, exactly when the
/// result lies within 500 to 30000.
pub open spec fn millis_rounded(v: nat, exact: bool) -> nat {
    if v >= 30000 && !exact {
        v + 1
    } else {
        v
    }
}

/// A time of `v` whole milliseconds and a fraction of one (none when
/// `exact`) lies within 0.5 s to 30 s, both included, exactly when its
/// rounded milliseconds lie within 500 to 30000.
pub proof fn lemma_rounded_millis_in_range(v: nat, exact: bool)
    ensures
        (500 <= millis_rounded(v, exact) <= 30000) <==> (500 <= v && (v < 30000 || (v == 30000
            && exact))),
{
}

/// A number of seconds as `f64::from_str` reads it (an optional sign, then
/// a decimal number or `inf` / `infinity` in any case), in milliseconds
/// rounded as `millis_rounded` says: negative values are 0, values beyond
/// `u32::MAX` milliseconds are `u32::MAX`. `nan`, which stands for no
/// duration, is refused.
pub open spec fn seconds_millis(s: Seq<char>) -> Option<u32> {
    let (neg, b) = split_sign(s);
    let lb = lower_text(b);
    if lb == "inf"@ || lb == "infinity"@ {
        Some(
            if neg {
                0u32
            } else {
                u32::MAX
            },
        )
    } else {
        match decimal_millis(b) {
            None => None,
            Some(v) => {
                let w = millis_rounded(v, decimal_exact(b));
                Some(
                    if neg {
                        0u32
                    } else if w <= u32::MAX {
                        w as u32
                    } else {
                        u32::MAX
                    },
                )
            },
        }
    }
}

// ---------------------------------------------------------------------
// Characterisations of the recursive definitions.
pub proof fn lemma_leading_white(s: Seq<char>)
    ensures
        leading_white(s) <= s.len(),
        forall|j: int| 0 <= j < leading_white(s) ==> is_white(#[trigger] s[j]),
        leading_white(s) < s.len() ==> !is_white(s[leading_white(s) as int]),
    decreases s.len(),
{
    if s.len() > 0 && is_white(s[0]) {
        lemma_leading_white(s.drop_first());
        assert forall|j: int| 0 <= j < leading_white(s) implies is_white(#[trigger] s[j]) by {
            if j > 0 {
                assert(s[j] == s.drop_first()[j - 1]);
            }
        }
    }
}

pub proof fn lemma_leading_white_is(s: Seq<char>, k: nat)
    requires
        k <= s.len(),
        forall|j: int| 0 <= j < k ==> is_white(#[trigger] s[j]),
        k < s.len() ==> !is_white(s[k as int]),
    ensures
        leading_white(s) == k,
    decreases s.len(),
{
    if k > 0 {
        assert(is_white(s[0]));
        assert forall|j: int| 0 <= j < k - 1 implies is_white(#[trigger] s.drop_first()[j]) by {
            assert(s.drop_first()[j] == s[j + 1]);
        }
        lemma_leading_white_is(s.drop_first(), (k - 1) as nat);
    }
}

pub proof fn lemma_trailing_white_is(s: Seq<char>, k: nat)
    requires
        k <= s.len(),
        forall|j: int| s.len() - k <= j < s.len() ==> is_white(#[trigger] s[j]),
        k < s.len() ==> !is_white(s[s.len() - k - 1]),
    ensures
        trailing_white(s) == k,
    decreases s.len(),
{
    if k > 0 {
        assert(is_white(s[s.len() - 1]));
        let t = s.drop_last();
        assert forall|j: int| t.len() - (k - 1) <= j < t.len() implies is_white(#[trigger] t[j]) by {
            assert(t[j] == s[j]);
        }
        if k - 1 < t.len() {
            assert(t[t.len() - (k - 1) - 1] == s[s.len() - k - 1]);
        }
        lemma_trailing_white_is(t, (k - 1) as nat);
    }
}

pub proof fn lemma_index_of(s: Seq<char>, c: char)
    ensures
        index_of(s, c) <= s.len(),
        forall|j: int| 0 <= j < index_of(s, c) ==> #[trigger] s[j] != c,
        index_of(s, c) < s.len() ==> s[index_of(s, c) as int] == c,
    decreases s.len(),
{
    if s.len() > 0 && s[0] != c {
        lemma_index_of(s.drop_first(), c);
        assert forall|j: int| 0 <= j < index_of(s, c) implies #[trigger] s[j] != c by {
            if j > 0 {
                assert(s[j] == s.drop_first()[j - 1]);
            }
        }
    }
}

pub proof fn lemma_index_of_is(s: Seq<char>, c: char, k: nat)
    requires
        k <= s.len(),
        forall|j: int| 0 <= j < k ==> #[trigger] s[j] != c,
        k < s.len() ==> s[k as int] == c,
    ensures
        index_of(s, c) == k,
    decreases s.len(),
{
    if k > 0 {
        assert(s[0] != c);
        assert forall|j: int| 0 <= j < k - 1 implies #[trigger] s.drop_first()[j] != c by {
            assert(s.drop_first()[j] == s[j + 1]);
        }
        lemma_index_of_is(s.drop_first(), c, (k - 1) as nat);
    }
}

pub proof fn lemma_index_of_white(s: Seq<char>)
    ensures
        index_of_white(s) <= s.len(),
        forall|j: int| 0 <= j < index_of_white(s) ==> !is_white(#[trigger] s[j]),
        index_of_white(s) < s.len() ==> is_white(s[index_of_white(s) as int]),
    decreases s.len(),
{
    if s.len() > 0 && !is_white(s[0]) {
        lemma_index_of_white(s.drop_first());
        assert forall|j: int| 0 <= j < index_of_white(s) implies !is_white(#[trigger] s[j]) by {
            if j > 0 {
                assert(s[j] == s.drop_first()[j - 1]);
            }
        }
    }
}

pub proof fn lemma_index_of_white_is(s: Seq<char>, k: nat)
    requires
        k <= s.len(),
        forall|j: int| 0 <= j < k ==> !is_white(#[trigger] s[j]),
        k < s.len() ==> is_white(s[k as int]),
    ensures
        index_of_white(s) == k,
    decreases s.len(),
{
    if k > 0 {
        assert(!is_white(s[0]));
        assert forall|j: int| 0 <= j < k - 1 implies !is_white(#[trigger] s.drop_first()[j]) by {
            assert(s.drop_first()[j] == s[j + 1]);
        }
        lemma_index_of_white_is(s.drop_first(), (k - 1) as nat);
    }
}

/// The digits of a prefix one longer add one digit to the value.
pub proof fn lemma_digits_value_step(s: Seq<char>, i: int)
    requires
        0 <= i < s.len(),
    ensures
        digits_value(s.take(i + 1)) == digits_value(s.take(i)) * 10 + digit_value(s[i]),
{
    assert(s.take(i + 1).drop_last() =~= s.take(i));
}

// ---------------------------------------------------------------------
// Executable scanning.
/// A copy of `v[a..b]`.
pub fn copy_range(v: &[char], a: usize, b: usize) -> (r: Vec<char>)
    requires
        a <= b <= v@.len(),
    ensures
        r@ == v@.subrange(a as int, b as int),
{
    let mut r: Vec<char> = Vec::new();
    let mut i = a;
    while i < b
        invariant
            a <= i <= b <= v@.len(),
            r@ == v@.subrange(a as int, i as int),
        decreases b - i,
    {
        r.push(v[i]);
        assert(r@ =~= v@.subrange(a as int, i + 1));
        i = i + 1;
    }
    r
}

/// `str::trim` on characters.
pub fn trim_chars(v: &[char]) -> (r: Vec<char>)
    ensures
        r@ == trim(v@),
{
    let n = v.len();
    let mut a: usize = 0;
    while a < n && char_is_white(v[a])
        invariant
            a <= n == v@.len(),
            forall|j: int| 0 <= j < a ==> is_white(#[trigger] v@[j]),
        decreases n - a,
    {
        a = a + 1;
    }
    proof {
        lemma_leading_white_is(v@, a as nat);
    }
    let mut b: usize = n;
    while b > a && char_is_white(v[b - 1])
        invariant
            a <= b <= n == v@.len(),
            forall|j: int| b <= j < n ==> is_white(#[trigger] v@[j]),
        decreases b,
    {
        b = b - 1;
    }
    let ghost t = v@.skip(a as int);
    proof {
        assert forall|j: int| t.len() - (n - b) <= j < t.len() implies is_white(#[trigger] t[j]) by {
            assert(t[j] == v@[j + a]);
        }
        if n - b < t.len() {
            assert(t[t.len() - (n - b) - 1] == v@[b - 1]);
        }
        lemma_trailing_white_is(t, (n - b) as nat);
        assert(t.take(t.len() - (n - b)) =~= v@.subrange(a as int, b as int));
    }
    copy_range(v, a, b)
}

/// Index of the first `c` in `v`, or its length.
pub fn find_char(v: &[char], c: char) -> (k: usize)
    ensures
        k == index_of(v@, c),
{
    let n = v.len();
    let mut k: usize = 0;
    while k < n && v[k] != c
        invariant
            k <= n == v@.len(),
            forall|j: int| 0 <= j < k ==> #[trigger] v@[j] != c,
        decreases n - k,
    {
        k = k + 1;
    }
    proof {
        lemma_index_of_is(v@, c, k as nat);
    }
    k
}

/// `s.split(c).next()`: the characters before the first `c`.
pub fn before_char(v: &[char], c: char) -> (r: Vec<char>)
    ensures
        r@ == before(v@, c),
{
    let k = find_char(v, c);
    proof {
        lemma_index_of(v@, c);
    }
    copy_range(v, 0, k)
}

/// `str::split_whitespace` on characters.
pub fn split_words(v: &[char]) -> (r: Vec<Vec<char>>)
    ensures
        r@.len() == words(v@).len(),
        forall|i: int| 0 <= i < r@.len() ==> (#[trigger] r@[i])@ == words(v@)[i],
{
    let n = v.len();
    let mut r: Vec<Vec<char>> = Vec::new();
    let mut pos: usize = 0;
    let ghost mut done: Seq<Seq<char>> = seq![];
    assert(v@.skip(0) =~= v@);
    assert(done + words(v@) =~= words(v@));
    while pos < n
        invariant
            pos <= n == v@.len(),
            r@.len() == done.len(),
            forall|i: int| 0 <= i < r@.len() ==> (#[trigger] r@[i])@ == done[i],
            words(v@) == done + words(v@.skip(pos as int)),
        decreases n - pos,
    {
        let ghost rest = v@.skip(pos as int);
        let mut a = pos;
        while a < n && char_is_white(v[a])
            invariant
                pos <= a <= n == v@.len(),
                forall|j: int| pos <= j < a ==> is_white(#[trigger] v@[j]),
            decreases n - a,
        {
            a = a + 1;
        }
        proof {
            assert forall|j: int| 0 <= j < a - pos implies is_white(#[trigger] rest[j]) by {
                assert(rest[j] == v@[j + pos]);
            }
            if a < n {
                assert(rest[a - pos] == v@[a as int]);
            }
            lemma_leading_white_is(rest, (a - pos) as nat);
            assert(trim_start(rest) =~= v@.skip(a as int));
        }
        if a == n {
            proof {
                assert(words(rest) =~= seq![]);
                assert(done + words(rest) =~= done);
            }
            pos = n;
            proof {
                assert(v@.skip(pos as int) =~= Seq::<char>::empty());
                assert(trim_start(Seq::<char>::empty()) =~= Seq::<char>::empty());
                assert(words(v@.skip(pos as int)) =~= seq![]);
                assert(done + words(v@.skip(pos as int)) =~= done);
            }
        } else {
            let mut b = a;
            while b < n && !char_is_white(v[b])
                invariant
                    a <= b <= n == v@.len(),
                    forall|j: int| a <= j < b ==> !is_white(#[trigger] v@[j]),
                decreases n - b,
            {
                b = b + 1;
            }
            let ghost t = v@.skip(a as int);
            proof {
                assert forall|j: int| 0 <= j < b - a implies !is_white(#[trigger] t[j]) by {
                    assert(t[j] == v@[j + a]);
                }
                if b < n {
                    assert(t[b - a] == v@[b as int]);
                }
                lemma_index_of_white_is(t, (b - a) as nat);
                assert(t.take(b - a) =~= v@.subrange(a as int, b as int));
                assert(t.skip(b - a) =~= v@.skip(b as int));
            }
            let w = copy_range(v, a, b);
            r.push(w);
            proof {
                done = done.push(v@.subrange(a as int, b as int));
                assert(words(rest) == seq![v@.subrange(a as int, b as int)] + words(
                    v@.skip(b as int),
                ));
            }
            pos = b;
            proof {
                assert(words(v@) =~= done + words(v@.skip(pos as int)));
            }
        }
    }
    proof {
        assert(v@.skip(pos as int) =~= Seq::<char>::empty());
        assert(trim_start(Seq::<char>::empty()) =~= Seq::<char>::empty());
        assert(done + words(v@.skip(pos as int)) =~= done);
    }
    r
}

/// Reads an unsigned decimal integer up to `max` as `FromStr` does.
fn parse_unsigned(v: &[char], max: u64) -> (r: Option<u64>)
    requires
        max >= 9,
    ensures
        match unsigned_value(v@) {
            Some(n) => if n <= max {
                r == Some(n as u64)
            } else {
                r is None
            },
            None => r is None,
        },
{
    let n = v.len();
    let start: usize = if n > 0 && v[0] == '+' {
        1
    } else {
        0
    };
    let ghost d = drop_plus(v@);
    proof {
        assert(d =~= v@.skip(start as int));
    }
    if start == n {
        return None;
    }
    let mut acc: u64 = 0;
    let mut i = start;
    while i < n
        invariant
            start <= i <= n == v@.len(),
            d == v@.skip(start as int),
            d == drop_plus(v@),
            max >= 9,
            all_digits(d.take(i - start)),
            acc == digits_value(d.take(i - start)),
            acc <= max,
        decreases n - i,
    {
        let c = v[i];
        if c < '0' || c > '9' {
            proof {
                assert(d[i - start] == v@[i as int]);
                assert(!is_digit(d[i - start]));
                assert(!all_digits(d));
            }
            return None;
        }
        let dv = (c as u32 - 48) as u64;
        proof {
            lemma_digits_value_step(d, i - start);
            assert(d[i - start] == c);
            assert(d.take(i - start + 1) =~= d.take(i - start).push(c));
        }
        if acc > (max - dv) / 10 {
            proof {
                if all_digits(d) {
                    lemma_digits_value_prefix_grows(d, i - start + 1);
                }
            }
            return None;
        }
        acc = acc * 10 + dv;
        i = i + 1;
    }
    proof {
        assert(d.take(n - start) =~= d);
    }
    Some(acc)
}

/// A longer prefix of digits spells at least as much.
proof fn lemma_digits_value_prefix_grows(d: Seq<char>, i: int)
    requires
        0 <= i <= d.len(),
        all_digits(d),
    ensures
        digits_value(d) >= digits_value(d.take(i)),
    decreases d.len() - i,
{
    if i < d.len() {
        lemma_digits_value_step(d, i);
        lemma_digits_value_prefix_grows(d, i + 1);
    } else {
        assert(d.take(i) =~= d);
    }
}

/// `u32::from_str` on characters.
pub fn parse_u32_chars(v: &[char]) -> (r: Option<u32>)
    ensures
        r == parse_u32_spec(v@),
{
    match parse_unsigned(v, 0xffff_ffff) {
        Some(x) => Some(x as u32),
        None => None,
    }
}

/// `u8::from_str` on characters.
pub fn parse_u8_chars(v: &[char]) -> (r: Option<u8>)
    ensures
        r == parse_u8_spec(v@),
{
    match parse_unsigned(v, 0xff) {
        Some(x) => Some(x as u8),
        None => None,
    }
}

/// Whether two character sequences are equal.
pub fn chars_equal(a: &[char], b: &[char]) -> (r: bool)
    ensures
        r == (a@ == b@),
{
    if a.len() != b.len() {
        return false;
    }
    let mut i: usize = 0;
    while i < a.len()
        invariant
            i <= a@.len() == b@.len(),
            forall|j: int| 0 <= j < i ==> a@[j] == b@[j],
        decreases a@.len() - i,
    {
        if a[i] != b[i] {
            return false;
        }
        i = i + 1;
    }
    assert(a@ =~= b@);
    true
}

/// Whether `a` spells the string `s`.
pub fn chars_are(a: &[char], s: &str) -> (r: bool)
    ensures
        r == (a@ == s@),
{
    let b = chars_of(s);
    chars_equal(a, b.as_slice())
}

/// `bool::from_str` on characters.
pub fn parse_bool_chars(v: &[char]) -> (r: Option<bool>)
    ensures
        r == parse_bool_spec(v@),
{
    if chars_are(v, "true") {
        Some(true)
    } else if chars_are(v, "false") {
        Some(false)
    } else {
        None
    }
}

/// Whether every character is a decimal digit.
pub fn all_digit_chars(v: &[char]) -> (r: bool)
    ensures
        r == all_digits(v@),
{
    let mut i: usize = 0;
    while i < v.len()
        invariant
            i <= v@.len(),
            forall|j: int| 0 <= j < i ==> is_digit(#[trigger] v@[j]),
        decreases v@.len() - i,
    {
        if v[i] < '0' || v[i] > '9' {
            assert(!is_digit(v@[i as int]));
            return false;
        }
        i = i + 1;
    }
    true
}

} // verus!
