//! Text building blocks: decimal and hexadecimal renderings of numbers,
//! Unicode whitespace, and the conversion of character vectors to `String`.
use vstd::prelude::*;

verus! {

/// The ASCII digit for `d` (`d < 10`).
pub open spec fn digit_char(d: nat) -> char {
    ((48 + d) as u32) as char
}

/// The lowercase hexadecimal digit for `d` (`d < 16`).
pub open spec fn hex_char(d: nat) -> char {
    if d < 10 {
        digit_char(d)
    } else {
        ((87 + d) as u32) as char
    }
}

/// Decimal rendering of a natural number, without leading zeros
/// (as Rust's `Display` prints unsigned integers).
pub open spec fn decimal(n: nat) -> Seq<char>
    decreases n,
{
    if n < 10 {
        seq![digit_char(n)]
    } else {
        decimal(n / 10).push(digit_char(n % 10))
    }
}

/// Two lowercase hexadecimal digits of a byte (as `{:02x}` prints it).
pub open spec fn hex2(b: u8) -> Seq<char> {
    seq![hex_char((b / 16) as nat), hex_char((b % 16) as nat)]
}

/// Drops trailing `'0'` characters.
pub open spec fn strip_trailing_zeros(s: Seq<char>) -> Seq<char>
    decreases s.len(),
{
    if s.len() > 0 && s.last() == '0' {
        strip_trailing_zeros(s.drop_last())
    } else {
        s
    }
}

/// Three decimal digits of `n < 1000`, with leading zeros.
pub open spec fn three_digits(n: nat) -> Seq<char> {
    seq![digit_char(n / 100), digit_char((n / 10) % 10), digit_char(n % 10)]
}

/// A duration in milliseconds rendered in seconds, as the shortest decimal
/// text: `6000` is `6`, `10500` is `10.5`, `250` is `0.25`.
pub open spec fn seconds_text(ms: nat) -> Seq<char> {
    if ms % 1000 == 0 {
        decimal(ms / 1000)
    } else {
        decimal(ms / 1000) + seq!['.'] + strip_trailing_zeros(three_digits(ms % 1000))
    }
}

/// Unicode `White_Space`, the set that Rust's `char::is_whitespace` tests.
pub open spec fn is_white(c: char) -> bool {
    let v = c as u32;
    ||| 0x09 <= v <= 0x0d
    ||| v == 0x20
    ||| v == 0x85
    ||| v == 0xa0
    ||| v == 0x1680
    ||| 0x2000 <= v <= 0x200a
    ||| v == 0x2028
    ||| v == 0x2029
    ||| v == 0x202f
    ||| v == 0x205f
    ||| v == 0x3000
}

/// Executable `is_white`.
pub fn char_is_white(c: char) -> (b: bool)
    ensures
        b == is_white(c),
{
    let v = c as u32;
    (0x09 <= v && v <= 0x0d) || v == 0x20 || v == 0x85 || v == 0xa0 || v == 0x1680 || (0x2000
        <= v && v <= 0x200a) || v == 0x2028 || v == 0x2029 || v == 0x202f || v == 0x205f || v
        == 0x3000
}

/// The digit character for `d < 10`.
pub fn digit(d: u32) -> (c: char)
    requires
        d < 10,
    ensures
        c == digit_char(d as nat),
{
    let b: u8 = 48u8 + (d as u8);
    b as char
}

/// The lowercase hexadecimal digit character for `d < 16`.
pub fn hex_digit(d: u8) -> (c: char)
    requires
        d < 16,
    ensures
        c == hex_char(d as nat),
{
    if d < 10 {
        let b: u8 = 48u8 + d;
        b as char
    } else {
        let b: u8 = 87u8 + d;
        b as char
    }
}

/// Appends the decimal rendering of `n` to `out`.
pub fn push_decimal(out: &mut Vec<char>, n: u64)
    ensures
        final(out)@ == old(out)@ + decimal(n as nat),
    decreases n,
{
    if n < 10 {
        out.push(digit(n as u32));
    } else {
        push_decimal(out, n / 10);
        out.push(digit((n % 10) as u32));
    }
}

/// Appends two lowercase hexadecimal digits of `b` to `out`.
pub fn push_hex2(out: &mut Vec<char>, b: u8)
    ensures
        final(out)@ == old(out)@ + hex2(b),
{
    out.push(hex_digit(b / 16));
    out.push(hex_digit(b % 16));
}

/// Appends the text of `ms` milliseconds in seconds (see `seconds_text`).
pub fn push_seconds(out: &mut Vec<char>, ms: u32)
    ensures
        final(out)@ == old(out)@ + seconds_text(ms as nat),
{
    push_decimal(out, (ms / 1000) as u64);
    let frac = ms % 1000;
    if frac != 0 {
        out.push('.');
        let mut digits: Vec<char> = Vec::new();
        digits.push(digit(frac / 100));
        digits.push(digit((frac / 10) % 10));
        digits.push(digit(frac % 10));
        assert(digits@ =~= three_digits(frac as nat));
        assert(digits@.take(3) =~= digits@);
        let mut len: usize = 3;
        while len > 0 && digits[len - 1] == '0'
            invariant
                len <= 3,
                digits@ == three_digits(frac as nat),
                strip_trailing_zeros(digits@.take(len as int)) == strip_trailing_zeros(
                    three_digits(frac as nat),
                ),
            decreases len,
        {
            assert(digits@.take(len as int).drop_last() =~= digits@.take(len - 1));
            len = len - 1;
        }
        assert(strip_trailing_zeros(digits@.take(len as int)) == digits@.take(len as int));
        let ghost before = out@;
        let mut i: usize = 0;
        while i < len
            invariant
                i <= len <= 3,
                digits@.len() == 3,
                out@ == before + digits@.take(i as int),
            decreases len - i,
        {
            out.push(digits[i]);
            assert(digits@.take(i + 1) =~= digits@.take(i as int).push(digits@[i as int]));
            i = i + 1;
        }
        assert(out@ =~= old(out)@ + seconds_text(ms as nat));
    }
}

/// Copies characters into a `String` with `String::from_iter`, whose
/// documented behaviour is to collect the characters in order.
#[verifier::external_body]
pub(crate) fn string_from_chars(cs: &[char]) -> (s: String)
    ensures
        s@ == cs@,
{
    String::from_iter(cs.iter())
}

/// The characters of a string slice, in order.
pub fn chars_of(s: &str) -> (v: Vec<char>)
    ensures
        v@ == s@,
{
    broadcast use vstd::string::group_string_axioms;

    let mut v: Vec<char> = Vec::new();
    for c in it: s.chars()
        invariant
            it.seq() == s@,
            v@ == s@.take(it.index() as int),
    {
        v.push(c);
        assert(v@ =~= s@.take(it.index() + 1));
    }
    assert(v@ =~= s@);
    v
}

} // verus!
