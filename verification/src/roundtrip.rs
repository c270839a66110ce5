//! The configuration file round trip: reading back the text that
//! `MouseConfig::to_ini_string` writes gives the configuration again, or the
//! complaint that `validate` makes about it.
use vstd::prelude::*;
use crate::config::{
    apply_entry, apply_line, apply_lines, bool_text, config_check, default_config, dpi_words,
    entry_text, ini_text, join_words, line_entry, parse_dpi_words, parse_ini_spec, setting_line,
    strip_comment, MouseConfig, SECTION_GENERAL, KEY_ACTIVE_DPI,
    KEY_ANGLE_SNAP, KEY_DEEP_SLEEP_TIME, KEY_DPIS, KEY_KEY_RESPONSE_TIME, KEY_POLLING_RATE,
    KEY_RIPPLE_CONTROL, KEY_SLEEP_TIME,
};
use crate::error::ErrorView;
use crate::protocol::PollingRate;
use crate::scan::{
    all_digits, before, digit_value, digits_value, drop_plus, lower_text, shifted_digits,
    split_sign, zeros,
    is_digit, lemma_index_of_is, lemma_index_of_white_is, lemma_leading_white_is, words, lemma_trailing_white_is, parse_bool_spec,
    parse_u32_spec, parse_u8_spec, seconds_millis, trim, trim_end, trim_start, unsigned_value,
};
use crate::seconds::lemma_index_of_exp_is;
use crate::text::{decimal, digit_char, is_white, seconds_text, strip_trailing_zeros, three_digits};

verus! {

/// A character of a setting name or of `true` / `false`.
pub open spec fn word_char(c: char) -> bool {
    ('a' <= c <= 'z') || c == '_'
}

/// Every character is a `word_char`, checked from the front.
pub open spec fn all_word_chars(s: Seq<char>) -> bool
    decreases s.len(),
{
    s.len() == 0 || (word_char(s[0]) && all_word_chars(s.drop_first()))
}

proof fn lemma_all_word_chars(s: Seq<char>)
    requires
        all_word_chars(s),
    ensures
        forall|i: int| 0 <= i < s.len() ==> word_char(#[trigger] s[i]),
    decreases s.len(),
{
    if s.len() > 0 {
        lemma_all_word_chars(s.drop_first());
        assert forall|i: int| 0 <= i < s.len() implies word_char(#[trigger] s[i]) by {
            if i > 0 {
                assert(s[i] == s.drop_first()[i - 1]);
            }
        }
    }
}

/// A plain word: not empty, made of lowercase letters and `_`.
pub open spec fn plain_word(s: Seq<char>) -> bool {
    s.len() > 0 && forall|i: int| 0 <= i < s.len() ==> word_char(#[trigger] s[i])
}

proof fn lemma_plain_words()
    ensures
        plain_word(KEY_POLLING_RATE@),
        plain_word(KEY_SLEEP_TIME@),
        plain_word(KEY_DEEP_SLEEP_TIME@),
        plain_word(KEY_KEY_RESPONSE_TIME@),
        plain_word(KEY_ACTIVE_DPI@),
        plain_word(KEY_DPIS@),
        plain_word(KEY_RIPPLE_CONTROL@),
        plain_word(KEY_ANGLE_SNAP@),
        plain_word("true"@),
        plain_word("false"@),
{
    reveal_strlit("polling_rate");
    reveal_strlit("sleep_time");
    reveal_strlit("deep_sleep_time");
    reveal_strlit("key_response_time");
    reveal_strlit("active_dpi");
    reveal_strlit("dpis");
    reveal_strlit("ripple_control");
    reveal_strlit("angle_snap");
    reveal_strlit("true");
    reveal_strlit("false");
    reveal_with_fuel(all_word_chars, 20);
    assert(all_word_chars(KEY_POLLING_RATE@));
    assert(all_word_chars(KEY_SLEEP_TIME@));
    assert(all_word_chars(KEY_DEEP_SLEEP_TIME@));
    assert(all_word_chars(KEY_KEY_RESPONSE_TIME@));
    assert(all_word_chars(KEY_ACTIVE_DPI@));
    assert(all_word_chars(KEY_DPIS@));
    assert(all_word_chars(KEY_RIPPLE_CONTROL@));
    assert(all_word_chars(KEY_ANGLE_SNAP@));
    assert(all_word_chars("true"@));
    assert(all_word_chars("false"@));
    lemma_all_word_chars(KEY_POLLING_RATE@);
    lemma_all_word_chars(KEY_SLEEP_TIME@);
    lemma_all_word_chars(KEY_DEEP_SLEEP_TIME@);
    lemma_all_word_chars(KEY_KEY_RESPONSE_TIME@);
    lemma_all_word_chars(KEY_ACTIVE_DPI@);
    lemma_all_word_chars(KEY_DPIS@);
    lemma_all_word_chars(KEY_RIPPLE_CONTROL@);
    lemma_all_word_chars(KEY_ANGLE_SNAP@);
    lemma_all_word_chars("true"@);
    lemma_all_word_chars("false"@);
}

/// The setting names differ from one another, and `true` from `false`.
proof fn lemma_names_differ()
    ensures
        KEY_SLEEP_TIME@ != KEY_POLLING_RATE@,
        KEY_DEEP_SLEEP_TIME@ != KEY_POLLING_RATE@,
        KEY_DEEP_SLEEP_TIME@ != KEY_SLEEP_TIME@,
        KEY_KEY_RESPONSE_TIME@ != KEY_POLLING_RATE@,
        KEY_KEY_RESPONSE_TIME@ != KEY_SLEEP_TIME@,
        KEY_KEY_RESPONSE_TIME@ != KEY_DEEP_SLEEP_TIME@,
        KEY_DPIS@ != KEY_POLLING_RATE@,
        KEY_DPIS@ != KEY_SLEEP_TIME@,
        KEY_DPIS@ != KEY_DEEP_SLEEP_TIME@,
        KEY_DPIS@ != KEY_KEY_RESPONSE_TIME@,
        KEY_ACTIVE_DPI@ != KEY_POLLING_RATE@,
        KEY_ACTIVE_DPI@ != KEY_SLEEP_TIME@,
        KEY_ACTIVE_DPI@ != KEY_DEEP_SLEEP_TIME@,
        KEY_ACTIVE_DPI@ != KEY_KEY_RESPONSE_TIME@,
        KEY_ACTIVE_DPI@ != KEY_DPIS@,
        KEY_RIPPLE_CONTROL@ != KEY_POLLING_RATE@,
        KEY_RIPPLE_CONTROL@ != KEY_SLEEP_TIME@,
        KEY_RIPPLE_CONTROL@ != KEY_DEEP_SLEEP_TIME@,
        KEY_RIPPLE_CONTROL@ != KEY_KEY_RESPONSE_TIME@,
        KEY_RIPPLE_CONTROL@ != KEY_DPIS@,
        KEY_RIPPLE_CONTROL@ != KEY_ACTIVE_DPI@,
        KEY_ANGLE_SNAP@ != KEY_POLLING_RATE@,
        KEY_ANGLE_SNAP@ != KEY_SLEEP_TIME@,
        KEY_ANGLE_SNAP@ != KEY_DEEP_SLEEP_TIME@,
        KEY_ANGLE_SNAP@ != KEY_KEY_RESPONSE_TIME@,
        KEY_ANGLE_SNAP@ != KEY_DPIS@,
        KEY_ANGLE_SNAP@ != KEY_ACTIVE_DPI@,
        KEY_ANGLE_SNAP@ != KEY_RIPPLE_CONTROL@,
        "false"@ != "true"@,
{
    reveal_strlit("polling_rate");
    reveal_strlit("sleep_time");
    reveal_strlit("deep_sleep_time");
    reveal_strlit("key_response_time");
    reveal_strlit("active_dpi");
    reveal_strlit("dpis");
    reveal_strlit("ripple_control");
    reveal_strlit("angle_snap");
    reveal_strlit("true");
    reveal_strlit("false");
    assert(KEY_SLEEP_TIME@[0] != KEY_POLLING_RATE@[0]);
    assert(KEY_DEEP_SLEEP_TIME@[0] != KEY_POLLING_RATE@[0]);
    assert(KEY_DEEP_SLEEP_TIME@[0] != KEY_SLEEP_TIME@[0]);
    assert(KEY_KEY_RESPONSE_TIME@[0] != KEY_POLLING_RATE@[0]);
    assert(KEY_KEY_RESPONSE_TIME@[0] != KEY_SLEEP_TIME@[0]);
    assert(KEY_KEY_RESPONSE_TIME@[0] != KEY_DEEP_SLEEP_TIME@[0]);
    assert(KEY_DPIS@[0] != KEY_POLLING_RATE@[0]);
    assert(KEY_DPIS@[0] != KEY_SLEEP_TIME@[0]);
    assert(KEY_DPIS@[1] != KEY_DEEP_SLEEP_TIME@[1]);
    assert(KEY_DPIS@[0] != KEY_KEY_RESPONSE_TIME@[0]);
    assert(KEY_ACTIVE_DPI@[0] != KEY_POLLING_RATE@[0]);
    assert(KEY_ACTIVE_DPI@[0] != KEY_SLEEP_TIME@[0]);
    assert(KEY_ACTIVE_DPI@[0] != KEY_DEEP_SLEEP_TIME@[0]);
    assert(KEY_ACTIVE_DPI@[0] != KEY_KEY_RESPONSE_TIME@[0]);
    assert(KEY_ACTIVE_DPI@[0] != KEY_DPIS@[0]);
    assert(KEY_RIPPLE_CONTROL@[0] != KEY_POLLING_RATE@[0]);
    assert(KEY_RIPPLE_CONTROL@[0] != KEY_SLEEP_TIME@[0]);
    assert(KEY_RIPPLE_CONTROL@[0] != KEY_DEEP_SLEEP_TIME@[0]);
    assert(KEY_RIPPLE_CONTROL@[0] != KEY_KEY_RESPONSE_TIME@[0]);
    assert(KEY_RIPPLE_CONTROL@[0] != KEY_DPIS@[0]);
    assert(KEY_RIPPLE_CONTROL@[0] != KEY_ACTIVE_DPI@[0]);
    assert(KEY_ANGLE_SNAP@[0] != KEY_POLLING_RATE@[0]);
    assert(KEY_ANGLE_SNAP@[0] != KEY_SLEEP_TIME@[0]);
    assert(KEY_ANGLE_SNAP@[0] != KEY_DEEP_SLEEP_TIME@[0]);
    assert(KEY_ANGLE_SNAP@[0] != KEY_KEY_RESPONSE_TIME@[0]);
    assert(KEY_ANGLE_SNAP@[0] != KEY_DPIS@[0]);
    assert(KEY_ANGLE_SNAP@[1] != KEY_ACTIVE_DPI@[1]);
    assert(KEY_ANGLE_SNAP@[0] != KEY_RIPPLE_CONTROL@[0]);
    assert("false"@[0] != "true"@[0]);
}

/// Text with no whitespace at either end is its own trim.
proof fn lemma_trim_same(s: Seq<char>)
    requires
        s.len() > 0,
        !is_white(s[0]),
        !is_white(s.last()),
    ensures
        trim(s) == s,
{
    lemma_leading_white_is(s, 0);
    assert(trim_start(s) =~= s);
    lemma_trailing_white_is(s, 0);
    assert(trim_end(s) =~= s);
}

/// Text without `c` is all before its first `c`.
proof fn lemma_before_absent(s: Seq<char>, c: char)
    requires
        forall|i: int| 0 <= i < s.len() ==> #[trigger] s[i] != c,
    ensures
        before(s, c) == s,
{
    lemma_index_of_is(s, c, s.len());
    assert(s.take(s.len() as int) =~= s);
}

/// A value as written: not empty, no whitespace at either end, no comment
/// characters, no line break.
pub open spec fn plain_value(v: Seq<char>) -> bool {
    &&& v.len() > 0
    &&& !is_white(v[0])
    &&& !is_white(v.last())
    &&& forall|i: int| 0 <= i < v.len() ==> #[trigger] v[i] != '#' && v[i] != ';' && v[i] != '\n'
}

/// A `key = value` line reads back as the key and the value.
proof fn lemma_entry_reads_back(key: Seq<char>, value: Seq<char>)
    requires
        plain_word(key),
        plain_value(value),
    ensures
        line_entry(entry_text(key, value)) == Some((key, value)),
        forall|i: int| 0 <= i < entry_text(key, value).len() ==> #[trigger] entry_text(key, value)[i] != '\n',
{
    reveal_strlit(" = ");
    let line = entry_text(key, value);
    let kl = key.len() as int;
    assert(line =~= key + seq![' ', '=', ' '] + value);
    assert(line[0] == key[0]);
    assert(line.last() == value.last());
    lemma_trim_same(line);
    let t = trim(line);
    assert forall|j: int| 0 <= j < kl + 1 implies #[trigger] t[j] != '=' by {
        if j < kl {
            assert(t[j] == key[j]);
            assert(word_char(key[j]));
        } else {
            assert(t[j] == ' ');
        }
    }
    lemma_index_of_is(t, '=', (kl + 1) as nat);
    assert(t.take(kl + 1) =~= key + seq![' ']);
    lemma_leading_white_is(key + seq![' '], 0);
    assert(trim_start(key + seq![' ']) =~= key + seq![' ']);
    assert forall|j: int| (key + seq![' ']).len() - 1 <= j < (key + seq![' ']).len() implies is_white(
        #[trigger] (key + seq![' '])[j],
    ) by {}
    assert(!is_white(key.last()));
    assert((key + seq![' '])[kl - 1] == key.last());
    lemma_trailing_white_is(key + seq![' '], 1);
    assert(trim(key + seq![' ']) =~= key);
    assert(t.skip(kl + 2) =~= seq![' '] + value);
    let sv = seq![' '] + value;
    lemma_leading_white_is(sv, 1);
    assert(trim_start(sv) =~= value);
    lemma_trim_same(value);
    assert(trim(sv) == value);
    lemma_before_absent(value, '#');
    lemma_before_absent(value, ';');
    assert(strip_comment(value) == value);
    assert forall|i: int| 0 <= i < line.len() implies #[trigger] line[i] != '\n' by {
        if i < kl {
            assert(line[i] == key[i]);
            assert(word_char(key[i]));
        } else if i >= kl + 3 {
            assert(line[i] == value[i - kl - 3]);
        }
    }
}

/// Reading text that starts with a line and a line break reads the line,
/// then the rest from the next line number on.
pub(crate) proof fn lemma_lines_step(line: Seq<char>, rest: Seq<char>, n: nat, c: MouseConfig)
    requires
        forall|i: int| 0 <= i < line.len() ==> #[trigger] line[i] != '\n',
    ensures
        apply_lines((line + "\n"@) + rest, n, c) == match apply_line(c, line, n) {
            Err(e) => Err(e),
            Ok(c2) => apply_lines(rest, n + 1, c2),
        },
{
    reveal_strlit("\n");
    let s = (line + "\n"@) + rest;
    assert forall|i: int| 0 <= i < line.len() implies #[trigger] s[i] != '\n' by {
        assert(s[i] == line[i]);
    }
    lemma_index_of_is(s, '\n', line.len());
    assert(s.take(line.len() as int) =~= line);
    assert(s.skip(line.len() + 1 as int) =~= rest);
}

/// Reading nothing changes nothing.
pub(crate) proof fn lemma_lines_empty(n: nat, c: MouseConfig)
    ensures
        apply_lines(Seq::<char>::empty(), n, c) == Ok::<MouseConfig, ErrorView>(c),
{
    let e = Seq::<char>::empty();
    lemma_leading_white_is(e, 0);
    assert(trim_start(e) =~= e);
    lemma_trailing_white_is(e, 0);
    assert(trim(e) =~= e);
    assert(e.take(0) =~= e);
}

/// A digit character is a digit, with its value, and is neither
/// whitespace nor a character the reader treats specially.
proof fn lemma_digit_char(d: nat)
    requires
        d < 10,
    ensures
        is_digit(digit_char(d)),
        digit_value(digit_char(d)) == d,
        !is_white(digit_char(d)),
        digit_char(d) != '#' && digit_char(d) != ';' && digit_char(d) != '\n',
        digit_char(d) != '.' && digit_char(d) != '+',
{
}

/// The decimal text of `n` is a non-empty run of digits that spells `n`.
proof fn lemma_decimal(n: nat)
    ensures
        decimal(n).len() > 0,
        all_digits(decimal(n)),
        digits_value(decimal(n)) == n,
    decreases n,
{
    if n < 10 {
        lemma_digit_char(n);
        assert(decimal(n).drop_last() =~= Seq::<char>::empty());
        assert(digits_value(Seq::<char>::empty()) == 0);
    } else {
        lemma_decimal(n / 10);
        lemma_digit_char(n % 10);
        assert(decimal(n).drop_last() =~= decimal(n / 10));
        assert(decimal(n).last() == digit_char(n % 10));
        assert(digits_value(decimal(n)) == digits_value(decimal(n / 10)) * 10 + digit_value(
            digit_char(n % 10),
        ));
        assert forall|i: int| 0 <= i < decimal(n).len() implies is_digit(#[trigger] decimal(n)[i]) by {
            if i < decimal(n).len() - 1 {
                assert(decimal(n)[i] == decimal(n / 10)[i]);
            }
        }
    }
}

/// A non-empty run of digits is a plain value and reads as its number.
proof fn lemma_digits_plain(s: Seq<char>)
    requires
        s.len() > 0,
        all_digits(s),
    ensures
        plain_value(s),
        drop_plus(s) == s,
{
    assert(is_digit(s[0]));
    assert(is_digit(s[s.len() - 1]));
    assert forall|i: int| 0 <= i < s.len() implies #[trigger] s[i] != '#' && s[i] != ';' && s[i]
        != '\n' by {
        assert(is_digit(s[i]));
    }
}

/// `u32` and `u8` values read back from their decimal text.
proof fn lemma_unsigned_reads_back(n: nat)
    ensures
        plain_value(decimal(n)),
        unsigned_value(decimal(n)) == Some(n),
        n <= u32::MAX ==> parse_u32_spec(decimal(n)) == Some(n as u32),
        n <= u8::MAX ==> parse_u8_spec(decimal(n)) == Some(n as u8),
{
    lemma_decimal(n);
    lemma_digits_plain(decimal(n));
}

/// Dropping trailing zeros from three digits keeps a non-empty run of
/// digits, which zeros restore to the three digits.
proof fn lemma_three_digits_stripped(f: nat)
    requires
        0 < f < 1000,
    ensures
        strip_trailing_zeros(three_digits(f)).len() > 0,
        strip_trailing_zeros(three_digits(f)).len() <= 3,
        all_digits(strip_trailing_zeros(three_digits(f))),
        strip_trailing_zeros(three_digits(f)) + zeros(
            (3 - strip_trailing_zeros(three_digits(f)).len()) as nat,
        ) == three_digits(f),
{
    let t = three_digits(f);
    lemma_digit_char(f / 100);
    lemma_digit_char((f / 10) % 10);
    lemma_digit_char(f % 10);
    assert(digit_char(0) == '0');
    if f % 10 != 0 {
        assert(strip_trailing_zeros(t) == t);
        assert(t + zeros(0) =~= t);
    } else if (f / 10) % 10 != 0 {
        assert(t.drop_last() =~= seq![digit_char(f / 100), digit_char((f / 10) % 10)]);
        assert(strip_trailing_zeros(t.drop_last()) == t.drop_last());
        assert(strip_trailing_zeros(t) == t.drop_last());
        assert(t.drop_last() + zeros(1) =~= t);
    } else {
        assert(t.drop_last() =~= seq![digit_char(f / 100), digit_char((f / 10) % 10)]);
        assert(t.drop_last().drop_last() =~= seq![digit_char(f / 100)]);
        assert(f / 100 != 0);
        assert(strip_trailing_zeros(t.drop_last().drop_last()) == t.drop_last().drop_last());
        assert(strip_trailing_zeros(t.drop_last()) == t.drop_last().drop_last());
        assert(strip_trailing_zeros(t) == t.drop_last().drop_last());
        assert(t.drop_last().drop_last() + zeros(2) =~= t);
    }
}

/// Three more digits multiply by a thousand and add their value.
proof fn lemma_digits_then_three(a: Seq<char>, f: nat)
    requires
        f < 1000,
    ensures
        digits_value(a + three_digits(f)) == digits_value(a) * 1000 + f,
{
    let t = a + three_digits(f);
    lemma_digit_char(f / 100);
    lemma_digit_char((f / 10) % 10);
    lemma_digit_char(f % 10);
    let x = f / 100;
    let y = (f / 10) % 10;
    let z = f % 10;
    let t1 = a + seq![digit_char(x)];
    let t2 = a + seq![digit_char(x), digit_char(y)];
    assert(t.drop_last() =~= t2);
    assert(t2.drop_last() =~= t1);
    assert(t1.drop_last() =~= a);
    assert(digits_value(t1) == digits_value(a) * 10 + x);
    assert(digits_value(t2) == digits_value(t1) * 10 + y);
    assert(digits_value(t) == digits_value(t2) * 10 + z);
    assert(100 * x + 10 * y + z == f);
}

/// A sleep delay reads back from its text in seconds.
proof fn lemma_seconds_reads_back(ms: u32)
    ensures
        plain_value(seconds_text(ms as nat)),
        seconds_millis(seconds_text(ms as nat)) == Some(ms),
{
    let w = (ms / 1000) as nat;
    let f = (ms % 1000) as nat;
    let text = seconds_text(ms as nat);
    let d = decimal(w);
    lemma_decimal(w);
    lemma_digits_plain(d);
    reveal_strlit("inf");
    reveal_strlit("infinity");
    assert(is_digit(d[0]));
    assert(text[0] == d[0]);
    assert(split_sign(text) == (false, text));
    assert(lower_text(text)[0] == text[0]);
    assert(lower_text(text) != "inf"@);
    assert(lower_text(text) != "infinity"@);
    // The fraction as written, and the same padded to three digits.
    let fr = if f == 0 {
        Seq::<char>::empty()
    } else {
        strip_trailing_zeros(three_digits(f))
    };
    if f == 0 {
        assert(text == d);
        assert forall|j: int| 0 <= j < text.len() implies #[trigger] text[j] != '.' by {
            assert(is_digit(text[j]));
        }
        lemma_index_of_is(text, '.', text.len());
        assert(text.take(text.len() as int) =~= text);
        lemma_digit_char(0);
        assert(three_digits(0) =~= zeros(3));
        assert(d + fr =~= d);
        assert(shifted_digits(d + fr, d.len() + 3int) =~= d + three_digits(0));
    } else {
        lemma_three_digits_stripped(f);
        assert(text =~= d + seq!['.'] + fr);
        assert forall|j: int| 0 <= j < d.len() implies #[trigger] text[j] != '.' by {
            assert(text[j] == d[j]);
            assert(is_digit(d[j]));
        }
        lemma_index_of_is(text, '.', d.len());
        assert(text.take(d.len() as int) =~= d);
        assert(text.skip(d.len() + 1 as int) =~= fr);
        assert(text.last() == fr.last());
        assert(is_digit(fr[fr.len() - 1]));
        assert forall|i: int| 0 <= i < text.len() implies #[trigger] text[i] != '#' && text[i] != ';'
            && text[i] != '\n' by {
            if i < d.len() {
                assert(text[i] == d[i]);
            } else if i > d.len() {
                assert(text[i] == fr[i - d.len() - 1]);
                assert(is_digit(fr[i - d.len() - 1]));
            }
        }
        if fr.len() == 3 {
            assert(fr + zeros(0) =~= fr);
            assert(shifted_digits(d + fr, d.len() + 3int) =~= d + three_digits(f));
        } else {
            assert(shifted_digits(d + fr, d.len() + 3int) =~= d + three_digits(f));
        }
    }
    // No exponent marker in the text.
    assert forall|j: int| 0 <= j < text.len() implies #[trigger] text[j] != 'e' && text[j] != 'E' by {
        if j < d.len() {
            assert(text[j] == d[j]);
            assert(is_digit(d[j]));
        } else if f != 0 && j > d.len() {
            assert(text[j] == fr[j - d.len() - 1]);
            assert(is_digit(fr[j - d.len() - 1]));
        }
    }
    lemma_index_of_exp_is(text, text.len());
    assert(text.take(text.len() as int) =~= text);
    lemma_digits_then_three(d, f);
    assert(digits_value(shifted_digits(d + fr, d.len() + 3int)) == ms);
}

/// `true` and `false` read back.
proof fn lemma_bool_reads_back(b: bool)
    ensures
        plain_value(bool_text(b)),
        parse_bool_spec(bool_text(b)) == Some(b),
{
    lemma_plain_words();
    lemma_names_differ();
    let t = bool_text(b);
    assert(word_char(t[0]));
    assert(word_char(t[t.len() - 1]));
    assert forall|i: int| 0 <= i < t.len() implies #[trigger] t[i] != '#' && t[i] != ';' && t[i]
        != '\n' by {
        assert(word_char(t[i]));
    }
}

/// No character of `s` is `c`, checked from the front.
pub open spec fn lacks(s: Seq<char>, c: char) -> bool
    decreases s.len(),
{
    s.len() == 0 || (s[0] != c && lacks(s.drop_first(), c))
}

proof fn lemma_lacks(s: Seq<char>, c: char)
    requires
        lacks(s, c),
    ensures
        forall|i: int| 0 <= i < s.len() ==> #[trigger] s[i] != c,
    decreases s.len(),
{
    if s.len() > 0 {
        lemma_lacks(s.drop_first(), c);
        assert forall|i: int| 0 <= i < s.len() implies #[trigger] s[i] != c by {
            if i > 0 {
                assert(s[i] == s.drop_first()[i - 1]);
            }
        }
    }
}

/// The `[general]` header line changes nothing.
proof fn lemma_header_line(c: MouseConfig, n: nat)
    ensures
        apply_line(c, SECTION_GENERAL@, n) == Ok::<MouseConfig, ErrorView>(c),
        forall|i: int| 0 <= i < SECTION_GENERAL@.len() ==> #[trigger] SECTION_GENERAL@[i] != '\n',
{
    reveal_strlit("[general]");
    reveal_with_fuel(lacks, 11);
    assert(lacks(SECTION_GENERAL@, '\n'));
    lemma_lacks(SECTION_GENERAL@, '\n');
    lemma_trim_same(SECTION_GENERAL@);
}

/// Words joined by spaces split back into the same words, and the joined
/// text is a plain value.
proof fn lemma_join_words(ws: Seq<Seq<char>>)
    requires
        ws.len() > 0,
        forall|i: int| 0 <= i < ws.len() ==> (#[trigger] ws[i]).len() > 0 && all_digits(ws[i]),
    ensures
        plain_value(join_words(ws)),
        is_digit(join_words(ws)[0]),
        words(join_words(ws)) == ws,
    decreases ws.len(),
{
    reveal_strlit(" ");
    let w = ws[0];
    assert(w.len() > 0 && all_digits(w));
    lemma_digits_plain(w);
    assert forall|j: int| 0 <= j < w.len() implies !is_white(#[trigger] w[j]) by {
        assert(is_digit(w[j]));
    }
    if ws.len() == 1 {
        assert(join_words(ws) == w);
        lemma_leading_white_is(w, 0);
        assert(trim_start(w) =~= w);
        lemma_index_of_white_is(w, w.len());
        assert(w.take(w.len() as int) =~= w);
        let e = w.skip(w.len() as int);
        assert(e =~= Seq::<char>::empty());
        lemma_leading_white_is(e, 0);
        assert(trim_start(e) =~= e);
        assert(words(e) =~= Seq::<Seq<char>>::empty());
        assert(words(w) =~= seq![w]);
        assert(ws =~= seq![w]);
    } else {
        let rest = ws.drop_first();
        assert forall|i: int| 0 <= i < rest.len() implies (#[trigger] rest[i]).len() > 0 && all_digits(
            rest[i],
        ) by {
            assert(rest[i] == ws[i + 1]);
        }
        lemma_join_words(rest);
        let j = join_words(rest);
        let sj = seq![' '] + j;
        let s = w + sj;
        assert(join_words(ws) =~= s);
        assert(!is_white(j[0]));
        // `words(" " + j)` is `words(j)`.
        lemma_leading_white_is(j, 0);
        assert(trim_start(j) =~= j);
        lemma_leading_white_is(sj, 1);
        assert(trim_start(sj) =~= j);
        assert(words(sj) == words(j));
        // The first word of `s` is `w`.
        assert(s[0] == w[0]);
        lemma_leading_white_is(s, 0);
        assert(trim_start(s) =~= s);
        assert forall|q: int| 0 <= q < w.len() implies !is_white(#[trigger] s[q]) by {
            assert(s[q] == w[q]);
        }
        assert(s[w.len() as int] == ' ');
        lemma_index_of_white_is(s, w.len());
        assert(s.take(w.len() as int) =~= w);
        assert(s.skip(w.len() as int) =~= sj);
        assert(words(s) =~= seq![w] + words(j));
        assert(ws =~= seq![w] + rest);
        // The joined text is a plain value.
        assert(s.last() == j.last());
        assert forall|i: int| 0 <= i < s.len() implies #[trigger] s[i] != '#' && s[i] != ';' && s[i]
            != '\n' by {
            if i < w.len() {
                assert(s[i] == w[i]);
            } else if i > w.len() {
                assert(s[i] == j[i - w.len() - 1]);
            }
        }
    }
}

/// The decimal texts of DPI values read back as the values.
proof fn lemma_dpi_words_read_back(vs: Seq<u32>)
    ensures
        parse_dpi_words(dpi_words(vs)) == Ok::<Seq<u32>, Seq<char>>(vs),
    decreases vs.len(),
{
    if vs.len() > 0 {
        let ws = dpi_words(vs);
        assert(ws.drop_last() =~= dpi_words(vs.drop_last()));
        lemma_dpi_words_read_back(vs.drop_last());
        lemma_unsigned_reads_back(vs.last() as nat);
        assert(ws.last() == decimal(vs.last() as nat));
        assert(parse_u32_spec(ws.last()) == Some(vs.last()));
        assert(vs.drop_last().push(vs.last()) =~= vs);
        assert(parse_dpi_words(ws) == Ok::<Seq<u32>, Seq<char>>(vs.drop_last().push(vs.last())));
    } else {
        assert(dpi_words(vs) =~= Seq::<Seq<char>>::empty());
        assert(vs =~= Seq::<u32>::empty());
        assert(parse_dpi_words(dpi_words(vs)) == Ok::<Seq<u32>, Seq<char>>(Seq::<u32>::empty()));
    }
}

/// The DPI line of a configuration: a plain value that splits into the six
/// decimal texts, which read back as the six values.
proof fn lemma_dpis_text(dpis: [u32; 6])
    ensures
        plain_value(join_words(dpi_words(dpis@))),
        words(join_words(dpi_words(dpis@))) == dpi_words(dpis@),
        dpi_words(dpis@).len() == 6,
        parse_dpi_words(dpi_words(dpis@)) == Ok::<Seq<u32>, Seq<char>>(dpis@),
{
    let ws = dpi_words(dpis@);
    assert forall|i: int| 0 <= i < ws.len() implies (#[trigger] ws[i]).len() > 0 && all_digits(
        ws[i],
    ) by {
        lemma_decimal(dpis@[i] as nat);
    }
    lemma_join_words(ws);
    lemma_dpi_words_read_back(dpis@);
}

/// A `key = value` line with a plain name and value, then the rest of the
/// text: the entry, then the rest from the next line number.
proof fn lemma_setting_step(key: Seq<char>, value: Seq<char>, rest: Seq<char>, n: nat, c: MouseConfig)
    requires
        plain_word(key),
        plain_value(value),
    ensures
        apply_lines(setting_line(key, value) + rest, n, c) == match apply_entry(c, key, value, n) {
            Err(e) => Err(e),
            Ok(c2) => apply_lines(rest, n + 1, c2),
        },
{
    lemma_entry_reads_back(key, value);
    lemma_lines_step(entry_text(key, value), rest, n, c);
}

proof fn lemma_polling_entry(c: MouseConfig, r: PollingRate, n: nat)
    ensures
        apply_entry(c, KEY_POLLING_RATE@, decimal(r.spec_hz() as nat), n) == Ok::<
            MouseConfig,
            ErrorView,
        >(MouseConfig { polling_rate: r, ..c }),
{
    lemma_unsigned_reads_back(r.spec_hz() as nat);
}

proof fn lemma_sleep_entry(c: MouseConfig, ms: u32, n: nat)
    ensures
        apply_entry(c, KEY_SLEEP_TIME@, seconds_text(ms as nat), n) == Ok::<MouseConfig, ErrorView>(
            MouseConfig { sleep_time_ms: ms, ..c },
        ),
{
    lemma_names_differ();
    lemma_seconds_reads_back(ms);
}

proof fn lemma_deep_sleep_entry(c: MouseConfig, v: u8, n: nat)
    ensures
        apply_entry(c, KEY_DEEP_SLEEP_TIME@, decimal(v as nat), n) == Ok::<MouseConfig, ErrorView>(
            MouseConfig { deep_sleep_time: v, ..c },
        ),
{
    lemma_names_differ();
    lemma_unsigned_reads_back(v as nat);
}

proof fn lemma_key_response_entry(c: MouseConfig, v: u8, n: nat)
    ensures
        apply_entry(c, KEY_KEY_RESPONSE_TIME@, decimal(v as nat), n) == Ok::<MouseConfig, ErrorView>(
            MouseConfig { key_response_time: v, ..c },
        ),
{
    lemma_names_differ();
    lemma_unsigned_reads_back(v as nat);
}

proof fn lemma_dpis_entry(c: MouseConfig, dpis: [u32; 6], n: nat)
    ensures
        apply_entry(c, KEY_DPIS@, join_words(dpi_words(dpis@)), n) == Ok::<MouseConfig, ErrorView>(
            MouseConfig { dpis, ..c },
        ),
{
    lemma_names_differ();
    lemma_dpis_text(dpis);
    let vs = dpis@;
    assert([vs[0], vs[1], vs[2], vs[3], vs[4], vs[5]] == dpis);
}

proof fn lemma_active_entry(c: MouseConfig, v: u8, n: nat)
    ensures
        apply_entry(c, KEY_ACTIVE_DPI@, decimal(v as nat), n) == Ok::<MouseConfig, ErrorView>(
            MouseConfig { active_dpi: v, ..c },
        ),
{
    lemma_names_differ();
    lemma_unsigned_reads_back(v as nat);
}

proof fn lemma_ripple_entry(c: MouseConfig, b: bool, n: nat)
    ensures
        apply_entry(c, KEY_RIPPLE_CONTROL@, bool_text(b), n) == Ok::<MouseConfig, ErrorView>(
            MouseConfig { ripple_control: b, ..c },
        ),
{
    lemma_names_differ();
    lemma_bool_reads_back(b);
}

proof fn lemma_angle_entry(c: MouseConfig, b: bool, n: nat)
    ensures
        apply_entry(c, KEY_ANGLE_SNAP@, bool_text(b), n) == Ok::<MouseConfig, ErrorView>(
            MouseConfig { angle_snap: b, ..c },
        ),
{
    lemma_names_differ();
    lemma_bool_reads_back(b);
}

/// Reading the text that `to_ini_string` writes gives back the
/// configuration when it is valid, and otherwise the complaint that
/// `validate` makes about it.
pub proof fn lemma_ini_text_reads_back(c: MouseConfig)
    ensures
        parse_ini_spec(ini_text(c)) == match config_check(c) {
            Some(e) => Err(e),
            None => Ok::<MouseConfig, ErrorView>(c),
        },
{
    lemma_plain_words();
    let d = default_config();
    let v1 = decimal(c.polling_rate.spec_hz() as nat);
    let v2 = seconds_text(c.sleep_time_ms as nat);
    let v3 = decimal(c.deep_sleep_time as nat);
    let v4 = decimal(c.key_response_time as nat);
    let v5 = join_words(dpi_words(c.dpis@));
    let v6 = decimal(c.active_dpi as nat);
    let v7 = bool_text(c.ripple_control);
    let v8 = bool_text(c.angle_snap);
    lemma_unsigned_reads_back(c.polling_rate.spec_hz() as nat);
    lemma_seconds_reads_back(c.sleep_time_ms);
    lemma_unsigned_reads_back(c.deep_sleep_time as nat);
    lemma_unsigned_reads_back(c.key_response_time as nat);
    lemma_dpis_text(c.dpis);
    lemma_unsigned_reads_back(c.active_dpi as nat);
    lemma_bool_reads_back(c.ripple_control);
    lemma_bool_reads_back(c.angle_snap);
    let r8 = setting_line(KEY_ANGLE_SNAP@, v8);
    let r7 = setting_line(KEY_RIPPLE_CONTROL@, v7) + r8;
    let r6 = setting_line(KEY_ACTIVE_DPI@, v6) + r7;
    let r5 = setting_line(KEY_DPIS@, v5) + r6;
    let r4 = setting_line(KEY_KEY_RESPONSE_TIME@, v4) + r5;
    let r3 = setting_line(KEY_DEEP_SLEEP_TIME@, v3) + r4;
    let r2 = setting_line(KEY_SLEEP_TIME@, v2) + r3;
    let r1 = setting_line(KEY_POLLING_RATE@, v1) + r2;
    let c1 = MouseConfig { polling_rate: c.polling_rate, ..d };
    let c2 = MouseConfig { sleep_time_ms: c.sleep_time_ms, ..c1 };
    let c3 = MouseConfig { deep_sleep_time: c.deep_sleep_time, ..c2 };
    let c4 = MouseConfig { key_response_time: c.key_response_time, ..c3 };
    let c5 = MouseConfig { dpis: c.dpis, ..c4 };
    let c6 = MouseConfig { active_dpi: c.active_dpi, ..c5 };
    let c7 = MouseConfig { ripple_control: c.ripple_control, ..c6 };
    let c8 = MouseConfig { angle_snap: c.angle_snap, ..c7 };
    lemma_header_line(d, 1);
    lemma_lines_step(SECTION_GENERAL@, r1, 1, d);
    lemma_setting_step(KEY_POLLING_RATE@, v1, r2, 2, d);
    lemma_polling_entry(d, c.polling_rate, 2);
    lemma_setting_step(KEY_SLEEP_TIME@, v2, r3, 3, c1);
    lemma_sleep_entry(c1, c.sleep_time_ms, 3);
    lemma_setting_step(KEY_DEEP_SLEEP_TIME@, v3, r4, 4, c2);
    lemma_deep_sleep_entry(c2, c.deep_sleep_time, 4);
    lemma_setting_step(KEY_KEY_RESPONSE_TIME@, v4, r5, 5, c3);
    lemma_key_response_entry(c3, c.key_response_time, 5);
    lemma_setting_step(KEY_DPIS@, v5, r6, 6, c4);
    lemma_dpis_entry(c4, c.dpis, 6);
    lemma_setting_step(KEY_ACTIVE_DPI@, v6, r7, 7, c5);
    lemma_active_entry(c5, c.active_dpi, 7);
    lemma_setting_step(KEY_RIPPLE_CONTROL@, v7, r8, 8, c6);
    lemma_ripple_entry(c6, c.ripple_control, 8);
    assert(r8 =~= setting_line(KEY_ANGLE_SNAP@, v8) + Seq::<char>::empty());
    lemma_setting_step(KEY_ANGLE_SNAP@, v8, Seq::<char>::empty(), 9, c7);
    lemma_angle_entry(c7, c.angle_snap, 9);
    lemma_lines_empty(10, c8);
    assert(c8 == c);
    assert(ini_text(c) == (SECTION_GENERAL@ + "\n"@) + r1);
    assert(apply_lines(ini_text(c), 1, d) == Ok::<MouseConfig, ErrorView>(c));
}

} // verus!
