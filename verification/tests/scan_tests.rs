use attack_shark_r1::scan::{
    parse_bool_chars, parse_u32_chars, parse_u8_chars, split_words, trim_chars,
};
use attack_shark_r1::seconds::{parse_seconds_millis, rounded_millis};
use attack_shark_r1::text::chars_of;
use attack_shark_r1::{DriverError, MouseConfig};

fn chars(s: &str) -> Vec<char> {
    chars_of(s)
}

#[test]
fn trimming() {
    assert_eq!(trim_chars(&chars("  a b \t\n")), chars("a b"));
    assert_eq!(trim_chars(&chars("\u{2028}x\u{85}")), chars("x"));
    assert_eq!(trim_chars(&chars("   ")), chars(""));
}

#[test]
fn words() {
    let ws = split_words(&chars("  400\t800  1600 "));
    assert_eq!(ws, vec![chars("400"), chars("800"), chars("1600")]);
    assert!(split_words(&chars(" \t ")).is_empty());
}

#[test]
fn unsigned_numbers() {
    assert_eq!(parse_u32_chars(&chars("4294967295")), Some(u32::MAX));
    assert_eq!(parse_u32_chars(&chars("4294967296")), None);
    assert_eq!(parse_u32_chars(&chars("+7")), Some(7));
    assert_eq!(parse_u32_chars(&chars("+")), None);
    assert_eq!(parse_u32_chars(&chars("")), None);
    assert_eq!(parse_u32_chars(&chars("1 2")), None);
    assert_eq!(parse_u8_chars(&chars("255")), Some(255));
    assert_eq!(parse_u8_chars(&chars("256")), None);
    assert_eq!(parse_u8_chars(&chars("0009")), Some(9));
}

#[test]
fn booleans() {
    assert_eq!(parse_bool_chars(&chars("true")), Some(true));
    assert_eq!(parse_bool_chars(&chars("false")), Some(false));
    assert_eq!(parse_bool_chars(&chars("1")), None);
}

#[test]
fn seconds() {
    assert_eq!(parse_seconds_millis(&chars("6")), Some(6000));
    assert_eq!(parse_seconds_millis(&chars("10.5")), Some(10500));
    assert_eq!(parse_seconds_millis(&chars("0.0019")), Some(1));
    assert_eq!(parse_seconds_millis(&chars("+.25")), Some(250));
    assert_eq!(parse_seconds_millis(&chars("99999999")), Some(u32::MAX));
    assert_eq!(parse_seconds_millis(&chars("")), None);
    assert_eq!(parse_seconds_millis(&chars(".")), None);
    assert_eq!(parse_seconds_millis(&chars("e5")), None);
    assert_eq!(parse_seconds_millis(&chars("nan")), None);
    assert_eq!(parse_seconds_millis(&chars("1.2.3")), None);
}

#[test]
fn seconds_with_exponents_signs_and_infinity() {
    assert_eq!(parse_seconds_millis(&chars("1e1")), Some(10000));
    assert_eq!(parse_seconds_millis(&chars("2.5E-1")), Some(250));
    assert_eq!(parse_seconds_millis(&chars("25e-2")), Some(250));
    assert_eq!(parse_seconds_millis(&chars("1.e+0")), Some(1000));
    assert_eq!(parse_seconds_millis(&chars("7e-4")), Some(0));
    assert_eq!(parse_seconds_millis(&chars("0e999999999999999999999")), Some(0));
    assert_eq!(parse_seconds_millis(&chars("1e999999999999999999999")), Some(u32::MAX));
    assert_eq!(parse_seconds_millis(&chars("1e-999999999999999999999")), Some(0));
    assert_eq!(parse_seconds_millis(&chars("1e")), None);
    assert_eq!(parse_seconds_millis(&chars("1e+")), None);
    assert_eq!(parse_seconds_millis(&chars("-1")), Some(0));
    assert_eq!(parse_seconds_millis(&chars("-0.5")), Some(0));
    assert_eq!(parse_seconds_millis(&chars("inf")), Some(u32::MAX));
    assert_eq!(parse_seconds_millis(&chars("+Infinity")), Some(u32::MAX));
    assert_eq!(parse_seconds_millis(&chars("-INF")), Some(0));
}

#[test]
fn huge_sleep_time_is_refused() {
    match MouseConfig::parse_ini("sleep_time = 99999999\n") {
        Err(DriverError::InvalidSleepTime(ms)) => assert_eq!(ms, u32::MAX),
        other => panic!("unexpected {:?}", other),
    }
}

#[test]
fn negative_sleep_time_is_refused() {
    match MouseConfig::parse_ini("sleep_time = -3\n") {
        Err(DriverError::InvalidSleepTime(0)) => {}
        other => panic!("unexpected {:?}", other),
    }
    let cfg = MouseConfig::parse_ini("sleep_time = 1.5e1\n").unwrap();
    assert_eq!(cfg.sleep_time_ms, 15000);
}

#[test]
fn seconds_round_up_past_thirty() {
    assert_eq!(parse_seconds_millis(&chars("30")), Some(30000));
    assert_eq!(parse_seconds_millis(&chars("30.000")), Some(30000));
    assert_eq!(parse_seconds_millis(&chars("30.0000000")), Some(30000));
    assert_eq!(parse_seconds_millis(&chars("30.0005")), Some(30001));
    assert_eq!(parse_seconds_millis(&chars("3.00000001e1")), Some(30001));
    assert_eq!(parse_seconds_millis(&chars("29.9995")), Some(29999));
    assert_eq!(parse_seconds_millis(&chars("0.4999")), Some(499));
    assert_eq!(parse_seconds_millis(&chars("31.0005")), Some(31001));
    assert_eq!(parse_seconds_millis(&chars("4294967.2955")), Some(u32::MAX));
}

#[test]
fn rounding_of_milliseconds() {
    assert_eq!(rounded_millis(29999, false), 29999);
    assert_eq!(rounded_millis(30000, true), 30000);
    assert_eq!(rounded_millis(30000, false), 30001);
    assert_eq!(rounded_millis(500, false), 500);
    assert_eq!(rounded_millis(u32::MAX, false), u32::MAX);
}
