use attack_shark_r1::config::{config_candidates, MouseConfig};
use attack_shark_r1::{DriverError, PollingRate};

#[test]
fn test_config_parse() {
    let sample = r#"
        # Sample config
        [general]
        polling_rate = 500
        sleep_time = 10.5 ; comment
        deep_sleep_time = 20 # inline comment
        key_response_time = 8
        dpis = 400 800 1600 3200 6400 12000
        active_dpi = 4
        ripple_control = true
        angle_snap = true
        "#;

    let cfg = MouseConfig::parse_ini(sample).unwrap();
    assert_eq!(cfg.polling_rate, PollingRate::Hz500);
    assert_eq!(cfg.sleep_time_ms, 10500);
    assert_eq!(cfg.deep_sleep_time, 20);
    assert_eq!(cfg.key_response_time, 8);
    assert_eq!(cfg.dpis, [400, 800, 1600, 3200, 6400, 12000]);
    assert_eq!(cfg.active_dpi, 4);
    assert!(cfg.ripple_control);
    assert!(cfg.angle_snap);
}

fn config_error(text: &str) -> String {
    match MouseConfig::parse_ini(text) {
        Err(DriverError::Config(m)) => m,
        other => panic!("expected a configuration error, got {:?}", other),
    }
}

#[test]
fn empty_text_gives_defaults() {
    let cfg = MouseConfig::parse_ini("").unwrap();
    assert_eq!(cfg, MouseConfig::default());
    assert_eq!(cfg.polling_rate, PollingRate::Hz1000);
    assert_eq!(cfg.sleep_time_ms, 6000);
    assert_eq!(cfg.deep_sleep_time, 12);
    assert_eq!(cfg.key_response_time, 4);
    assert_eq!(cfg.dpis, [800, 1600, 3200, 4000, 5000, 12000]);
    assert_eq!(cfg.active_dpi, 3);
    assert!(!cfg.ripple_control);
    assert!(!cfg.angle_snap);
}

#[test]
fn default_config_is_valid() {
    assert!(MouseConfig::default().validate().is_ok());
}

#[test]
fn comments_headers_and_unknown_keys_are_ignored() {
    let text = "; note\n# another\n[general]\nno equals sign here\ncolour = red\n  active_dpi = 2  \n";
    let cfg = MouseConfig::parse_ini(text).unwrap();
    assert_eq!(cfg.active_dpi, 2);
    assert_eq!(cfg.polling_rate, PollingRate::Hz1000);
}

#[test]
fn later_lines_override_earlier_ones() {
    let cfg = MouseConfig::parse_ini("active_dpi = 2\nactive_dpi = 5\n").unwrap();
    assert_eq!(cfg.active_dpi, 5);
}

#[test]
fn crlf_lines_and_unicode_whitespace_are_trimmed() {
    let cfg = MouseConfig::parse_ini("polling_rate = 250\r\n\u{3000}deep_sleep_time\u{a0}=\u{2003}30\r\n").unwrap();
    assert_eq!(cfg.polling_rate, PollingRate::Hz250);
    assert_eq!(cfg.deep_sleep_time, 30);
}

#[test]
fn plus_sign_and_leading_zeros_are_read() {
    let cfg = MouseConfig::parse_ini("key_response_time = +010\nsleep_time = .5\n").unwrap();
    assert_eq!(cfg.key_response_time, 10);
    assert_eq!(cfg.sleep_time_ms, 500);
    let cfg = MouseConfig::parse_ini("sleep_time = 2.\n").unwrap();
    assert_eq!(cfg.sleep_time_ms, 2000);
}

#[test]
fn sleep_time_keeps_whole_milliseconds() {
    let cfg = MouseConfig::parse_ini("sleep_time = 1.23456\n").unwrap();
    assert_eq!(cfg.sleep_time_ms, 1234);
}

#[test]
fn invalid_polling_rate_text() {
    assert_eq!(config_error("polling_rate = fast\n"), "Invalid polling rate 'fast' at line 1");
}

#[test]
fn unsupported_polling_rate() {
    match MouseConfig::parse_ini("\npolling_rate = 333\n") {
        Err(DriverError::InvalidPollingRate(333)) => {}
        other => panic!("unexpected {:?}", other),
    }
}

#[test]
fn invalid_sleep_time_text() {
    assert_eq!(config_error("sleep_time = 1.2.3\n"), "Invalid sleep_time '1.2.3' at line 1");
    assert_eq!(config_error("sleep_time = .\n"), "Invalid sleep_time '.' at line 1");
}

#[test]
fn invalid_u8_values() {
    assert_eq!(config_error("x\ndeep_sleep_time = 300\n"), "Invalid deep_sleep_time '300' at line 2");
    assert_eq!(config_error("key_response_time = -4\n"), "Invalid key_response_time '-4' at line 1");
    assert_eq!(config_error("active_dpi = \n"), "Invalid active_dpi '' at line 1");
}

#[test]
fn invalid_booleans() {
    assert_eq!(config_error("ripple_control = yes\n"), "Invalid ripple_control 'yes' at line 1");
    assert_eq!(config_error("angle_snap = True\n"), "Invalid angle_snap 'True' at line 1");
}

#[test]
fn wrong_number_of_dpis() {
    assert_eq!(
        config_error("\n\ndpis = 400 800\n"),
        "Expected exactly 6 DPI values in 'dpis', found 2 at line 3"
    );
}

#[test]
fn invalid_dpi_number() {
    assert_eq!(
        config_error("dpis = 400 800 x 1600 y 2000\n"),
        "Invalid DPI number 'x' at line 1"
    );
}

#[test]
fn validation_errors_after_reading() {
    match MouseConfig::parse_ini("sleep_time = 31\n") {
        Err(DriverError::InvalidSleepTime(31000)) => {}
        other => panic!("unexpected {:?}", other),
    }
    match MouseConfig::parse_ini("deep_sleep_time = 0\n") {
        Err(DriverError::InvalidDeepSleepTime(0)) => {}
        other => panic!("unexpected {:?}", other),
    }
    match MouseConfig::parse_ini("key_response_time = 5\n") {
        Err(DriverError::InvalidKeyResponseTime(5)) => {}
        other => panic!("unexpected {:?}", other),
    }
    match MouseConfig::parse_ini("active_dpi = 7\n") {
        Err(DriverError::InvalidDpiStage(7)) => {}
        other => panic!("unexpected {:?}", other),
    }
    match MouseConfig::parse_ini("dpis = 400 800 1650 3200 50 12000\n") {
        Err(DriverError::InvalidDpi(1650)) => {}
        other => panic!("unexpected {:?}", other),
    }
}

#[test]
fn first_error_stops_reading() {
    assert_eq!(
        config_error("polling_rate = x\nangle_snap = maybe\n"),
        "Invalid polling rate 'x' at line 1"
    );
}

#[test]
fn ini_text_of_default() {
    let text = MouseConfig::default().to_ini_string();
    assert_eq!(
        text,
        "[general]\npolling_rate = 1000\nsleep_time = 6\ndeep_sleep_time = 12\nkey_response_time = 4\ndpis = 800 1600 3200 4000 5000 12000\nactive_dpi = 3\nripple_control = false\nangle_snap = false\n"
    );
}

#[test]
fn ini_text_reads_back() {
    let cfg = MouseConfig {
        polling_rate: PollingRate::Hz125,
        sleep_time_ms: 10250,
        deep_sleep_time: 60,
        key_response_time: 50,
        dpis: [100, 10100, 12000, 12100, 18000, 500],
        active_dpi: 6,
        ripple_control: true,
        angle_snap: false,
    };
    let text = cfg.to_ini_string();
    assert!(text.contains("sleep_time = 10.25\n"));
    assert_eq!(MouseConfig::parse_ini(&text).unwrap(), cfg);
}

#[test]
fn invalid_config_reads_back_as_its_complaint() {
    let mut cfg = MouseConfig::default();
    cfg.active_dpi = 0;
    match MouseConfig::parse_ini(&cfg.to_ini_string()) {
        Err(DriverError::InvalidDpiStage(0)) => {}
        other => panic!("unexpected {:?}", other),
    }
}

#[test]
fn config_search_order() {
    let all = config_candidates(Some("/tmp/my.ini"), Some("/xdg"), Some("/home/me/"));
    assert_eq!(
        all,
        vec![
            "/tmp/my.ini".to_string(),
            "/xdg/attack-shark-r1.ini".to_string(),
            "/home/me/.config/attack-shark-r1.ini".to_string(),
            "/etc/attack-shark-r1.ini".to_string(),
        ]
    );
    let none = config_candidates(None, None, Some(""));
    assert_eq!(
        none,
        vec![".config/attack-shark-r1.ini".to_string(), "/etc/attack-shark-r1.ini".to_string()]
    );
}

#[test]
fn reports_of_a_valid_config() {
    let reports = MouseConfig::default().hardware_reports().unwrap();
    assert_eq!(reports.polling_rate, [0x06, 0x09, 0x01, 0x01, 0xfe, 0, 0, 0, 0]);
    assert_eq!(reports.sleep[9], 12);
    assert_eq!(reports.dpi[24], 3);
}

#[test]
fn reports_of_an_invalid_config() {
    let mut cfg = MouseConfig::default();
    cfg.dpis[2] = 18100;
    match cfg.hardware_reports() {
        Err(DriverError::InvalidDpi(18100)) => {}
        Err(e) => panic!("unexpected {}", e.to_string()),
        Ok(_) => panic!("accepted an invalid DPI"),
    }
}

#[test]
fn sleep_time_just_past_thirty_seconds_is_refused() {
    match MouseConfig::parse_ini("sleep_time = 30.0005\n") {
        Err(DriverError::InvalidSleepTime(30001)) => {}
        other => panic!("unexpected {:?}", other),
    }
    let cfg = MouseConfig::parse_ini("sleep_time = 30.0000\n").unwrap();
    assert_eq!(cfg.sleep_time_ms, 30000);
    let cfg = MouseConfig::parse_ini("sleep_time = 0.5\n").unwrap();
    assert_eq!(cfg.sleep_time_ms, 500);
    match MouseConfig::parse_ini("sleep_time = 0.4999\n") {
        Err(DriverError::InvalidSleepTime(499)) => {}
        other => panic!("unexpected {:?}", other),
    }
}

#[test]
fn later_line_for_a_setting_wins() {
    let both = MouseConfig::parse_ini("polling_rate = 250\nactive_dpi = 2\npolling_rate = 500\n").unwrap();
    let last = MouseConfig::parse_ini("active_dpi = 2\npolling_rate = 500\n").unwrap();
    assert_eq!(both, last);
    assert_eq!(both.polling_rate, PollingRate::Hz500);
    assert_eq!(both.active_dpi, 2);
}

#[test]
fn a_config_that_reads_is_valid() {
    let cfg = MouseConfig::parse_ini("sleep_time = 12\ndpis = 100 200 300 400 500 18000\n").unwrap();
    assert!(cfg.validate().is_ok());
    match MouseConfig::parse_ini("dpis = 100 200 300 400 500 18100\n") {
        Err(DriverError::InvalidDpi(18100)) => {}
        other => panic!("unexpected {:?}", other),
    }
}

#[test]
fn errors_convert_from_io_and_usb() {
    let e: DriverError = std::io::Error::new(std::io::ErrorKind::NotFound, "gone").into();
    assert!(matches!(e, DriverError::Io(_)));
    let e: DriverError = attack_shark_r1::UsbError::Busy.into();
    assert!(matches!(e, DriverError::Usb(attack_shark_r1::UsbError::Busy)));
}
