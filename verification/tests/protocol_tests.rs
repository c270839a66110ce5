use attack_shark_r1::dpi::{dpi_to_byte, validate_dpi, validate_dpi_stage, DPI_STAGES_COUNT};
use attack_shark_r1::driver::{
    dpi_profile_payload, percentage_from_raw, polling_rate_payload, sleep_times_payload,
    validate_sleep_times,
};
use attack_shark_r1::protocol::{
    accept_interrupt_read, check_readable, feature_report_w_value, mouse_connection, polling_rate_from_hz,
    wired_battery_report, REG_BATTERY,
};
use attack_shark_r1::{BatteryStatus, DriverError, PollingRate, UsbError};

#[test]
fn polling_rate_hz_and_text() {
    assert_eq!(PollingRate::Hz125.as_hz(), 125);
    assert_eq!(PollingRate::Hz250.as_hz(), 250);
    assert_eq!(PollingRate::Hz500.as_hz(), 500);
    assert_eq!(PollingRate::Hz1000.as_hz(), 1000);
    assert_eq!(PollingRate::Hz1000.to_string(), "1000Hz");
    assert_eq!(PollingRate::Hz125.to_string(), "125Hz");
}

#[test]
fn polling_rate_from_hz_round_trip() {
    for rate in [PollingRate::Hz125, PollingRate::Hz250, PollingRate::Hz500, PollingRate::Hz1000] {
        assert_eq!(PollingRate::try_from(rate.as_hz()).unwrap(), rate);
    }
    match polling_rate_from_hz(300) {
        Err(DriverError::InvalidPollingRate(300)) => {}
        other => panic!("unexpected {:?}", other),
    }
}

#[test]
fn polling_rate_report() {
    assert_eq!(polling_rate_payload(PollingRate::Hz125), [0x06, 0x09, 0x01, 0x08, 0xf7, 0, 0, 0, 0]);
    assert_eq!(polling_rate_payload(PollingRate::Hz250), [0x06, 0x09, 0x01, 0x04, 0xfb, 0, 0, 0, 0]);
    assert_eq!(polling_rate_payload(PollingRate::Hz500), [0x06, 0x09, 0x01, 0x02, 0xfd, 0, 0, 0, 0]);
}

#[test]
fn w_value_of_feature_reports() {
    assert_eq!(feature_report_w_value(0x06), 0x0306);
    assert_eq!(feature_report_w_value(0x04), 0x0304);
}

#[test]
fn only_battery_register_reads() {
    assert!(check_readable(REG_BATTERY).is_ok());
    match check_readable(0x0a) {
        Err(DriverError::Protocol(m)) => assert_eq!(m, "Read not supported for register 0x0a"),
        other => panic!("unexpected {:?}", other),
    }
}

#[test]
fn interrupt_reads() {
    let buf = [3u8, 1, 2, 1, 7, 0, 0, 0, 9, 9];
    assert_eq!(accept_interrupt_read(&buf, 10, 8).unwrap(), vec![3, 1, 2, 1, 7, 0, 0, 0]);
    match accept_interrupt_read(&buf, 5, 8) {
        Err(DriverError::Protocol(m)) => assert_eq!(m, "Expected at least 8 bytes on EP 0x83, got 5"),
        other => panic!("unexpected {:?}", other),
    }
}

#[test]
fn wired_report() {
    assert_eq!(wired_battery_report(&[0u8; 8]), vec![0x03, 0x10, 0x40, 0x01, 10, 0, 0, 0]);
    assert_eq!(wired_battery_report(&[7u8; 4]), vec![7, 7, 7, 7]);
    let status = BatteryStatus::from_report(&wired_battery_report(&[0u8; 8]), true);
    assert_eq!(status.percentage, 100);
    assert!(status.is_charging);
    assert!(status.is_wired);
    assert_eq!(status.report_id, 3);
    assert_eq!(status.status_code, 0x40);
    assert_eq!(status.flags, 0x01);
}

#[test]
fn percentages() {
    assert_eq!(percentage_from_raw(0), 0);
    assert_eq!(percentage_from_raw(7), 70);
    assert_eq!(percentage_from_raw(10), 100);
    assert_eq!(percentage_from_raw(11), 11);
    assert_eq!(percentage_from_raw(85), 85);
    assert_eq!(percentage_from_raw(100), 100);
    assert_eq!(percentage_from_raw(250), 100);
}

#[test]
fn charging_flags() {
    let discharging = BatteryStatus::from_report(&[3, 0x10, 0x40, 0x01, 55, 0, 0, 0], false);
    assert_eq!(discharging.percentage, 55);
    assert!(!discharging.is_charging);
    assert_eq!(discharging.raw_charge, 55);
    for flags in [0x02u8, 0x03, 0x80] {
        assert!(BatteryStatus::from_report(&[3, 0x10, 0x40, flags, 55, 0, 0, 0], false).is_charging);
    }
    assert!(BatteryStatus::from_report(&[3, 0x10, 0x40, 0x01, 55, 0, 1, 0], false).is_charging);
    assert!(BatteryStatus::from_report(&[3, 0x10, 0x40, 0x01, 55, 0, 0, 0], true).is_charging);
}

#[test]
fn sleep_checks() {
    assert!(validate_sleep_times(500, 1, 4).is_ok());
    assert!(validate_sleep_times(30000, 60, 50).is_ok());
    match validate_sleep_times(499, 0, 3) {
        Err(DriverError::InvalidSleepTime(499)) => {}
        other => panic!("unexpected {:?}", other),
    }
    match validate_sleep_times(30001, 10, 4) {
        Err(DriverError::InvalidSleepTime(30001)) => {}
        other => panic!("unexpected {:?}", other),
    }
    match validate_sleep_times(6000, 61, 3) {
        Err(DriverError::InvalidDeepSleepTime(61)) => {}
        other => panic!("unexpected {:?}", other),
    }
    match validate_sleep_times(6000, 12, 7) {
        Err(DriverError::InvalidKeyResponseTime(7)) => {}
        other => panic!("unexpected {:?}", other),
    }
    match validate_sleep_times(6000, 12, 52) {
        Err(DriverError::InvalidKeyResponseTime(52)) => {}
        other => panic!("unexpected {:?}", other),
    }
}

#[test]
fn sleep_report() {
    // 6 s, 12 min, 4 ms: deep sleep 0x0c -> bytes 0x03 and 0xc8;
    // checksum ((12 + 0) & 0xf) << 4 = 0xc0, + 0x0a + 12 + 2 = 0xd8.
    let p = sleep_times_payload(6000, 12, 4).unwrap();
    assert_eq!(
        p,
        [0x05, 0x0f, 0x01, 0x00, 0x03, 0xc8, 0x00, 0x00, 0xff, 12, 2, 0x01, 0xd8, 0x00, 0x00]
    );
    // 10.5 s, 20 min (0x14), 8 ms: bytes 0x13, 0x48; checksum (5 << 4) + 10 + 21 + 4 = 0x73.
    let p = sleep_times_payload(10500, 20, 8).unwrap();
    assert_eq!(p[4], 0x13);
    assert_eq!(p[5], 0x48);
    assert_eq!(p[9], 21);
    assert_eq!(p[10], 4);
    assert_eq!(p[12], 0x73);
    // 30 s, 15 min (0x0f), 50 ms: checksum 0xf0 + 10 + 60 + 25 wraps to 0x4f.
    let p = sleep_times_payload(30000, 15, 50).unwrap();
    assert_eq!(p[12], 0x4f);
    assert!(sleep_times_payload(100, 12, 4).is_err());
}

#[test]
fn dpi_checks_and_codes() {
    assert_eq!(DPI_STAGES_COUNT, 6);
    assert!(validate_dpi(100).is_ok());
    assert!(validate_dpi(18000).is_ok());
    assert!(validate_dpi(0).is_err());
    assert!(validate_dpi(18100).is_err());
    assert!(validate_dpi(1250).is_err());
    assert!(validate_dpi_stage(1).is_ok());
    assert!(validate_dpi_stage(6).is_ok());
    assert!(validate_dpi_stage(0).is_err());
    assert!(validate_dpi_stage(7).is_err());
    assert_eq!(dpi_to_byte(800).unwrap(), 8);
    assert_eq!(dpi_to_byte(18000).unwrap(), 180);
    match dpi_to_byte(150) {
        Err(DriverError::InvalidDpi(150)) => {}
        other => panic!("unexpected {:?}", other),
    }
}

fn byte_sum(p: &[u8]) -> u32 {
    p[3..50].iter().map(|&b| b as u32).sum()
}

#[test]
fn dpi_profile_report() {
    let dpis = [800, 1600, 3200, 10100, 12100, 18000];
    let p = dpi_profile_payload(dpis, 4, true, false).unwrap();
    assert_eq!(p[0], 0x04);
    assert_eq!(p[3], 1);
    assert_eq!(p[4], 0);
    assert_eq!(p[6], 0b110000);
    assert_eq!(p[7], 0b110000);
    assert_eq!(&p[8..14], &[8, 16, 32, 101, 121, 180]);
    assert_eq!(&p[16..22], &[0, 0, 0, 1, 0, 0]);
    assert_eq!(p[24], 4);
    let checksum: u32 = 0x0d75 + (8 + 16 + 32 + 101 + 121 + 180) + 1 + 2 * 0b110000 + 3 + 1;
    assert_eq!(((p[50] as u32) << 8) | p[51] as u32, checksum);
    assert_eq!(byte_sum(&p) % 65536, checksum);
}

#[test]
fn dpi_profile_checksum_is_byte_sum() {
    let p = dpi_profile_payload([100, 200, 300, 400, 500, 600], 1, false, true).unwrap();
    let checksum = ((p[50] as u32) << 8) | p[51] as u32;
    assert_eq!(byte_sum(&p) % 65536, checksum);
}

#[test]
fn dpi_profile_errors() {
    match dpi_profile_payload([800; 6], 0, false, false) {
        Err(DriverError::InvalidDpiStage(0)) => {}
        other => panic!("unexpected {:?}", other.map(|_| ())),
    }
    match dpi_profile_payload([800, 850, 900, 950, 1000, 1050], 7, false, false) {
        Err(DriverError::InvalidDpiStage(7)) => {}
        other => panic!("unexpected {:?}", other.map(|_| ())),
    }
    match dpi_profile_payload([800, 850, 900, 950, 1000, 1050], 2, false, false) {
        Err(DriverError::InvalidDpi(850)) => {}
        other => panic!("unexpected {:?}", other.map(|_| ())),
    }
}

#[test]
fn error_messages() {
    assert_eq!(
        DriverError::DeviceNotFound.to_string(),
        "Attack Shark R1 mouse not found (neither wireless 0x1d57:0xfa60 nor wired 0x1d57:0xfa61)"
    );
    assert_eq!(DriverError::Usb(UsbError::Timeout).to_string(), "USB error: Operation timed out");
    assert_eq!(
        DriverError::ClaimInterface(UsbError::Busy).to_string(),
        "Failed to claim USB interface: Resource busy"
    );
    assert_eq!(
        DriverError::InvalidPollingRate(300).to_string(),
        "Invalid polling rate: 300Hz (supported: 125, 250, 500, 1000)"
    );
    assert_eq!(
        DriverError::InvalidDpi(150).to_string(),
        "Invalid DPI value: 150 (must be 100..=18000 in multiples of 100)"
    );
    assert_eq!(
        DriverError::InvalidDpiStage(9).to_string(),
        "Invalid DPI stage index: 9 (must be 1..=6)"
    );
    assert_eq!(
        DriverError::InvalidSleepTime(250).to_string(),
        "Invalid sleep time: 0.25s (must be 0.5s..=30.0s)"
    );
    assert_eq!(
        DriverError::InvalidSleepTime(31000).to_string(),
        "Invalid sleep time: 31s (must be 0.5s..=30.0s)"
    );
    assert_eq!(
        DriverError::InvalidDeepSleepTime(0).to_string(),
        "Invalid deep sleep time: 0min (must be 1min..=60min)"
    );
    assert_eq!(
        DriverError::InvalidKeyResponseTime(3).to_string(),
        "Invalid key response time: 3ms (must be an even number between 4ms and 50ms)"
    );
    assert_eq!(DriverError::Config("bad".to_string()).to_string(), "Configuration error: bad");
    assert_eq!(DriverError::Protocol("odd".to_string()).to_string(), "Device protocol error: odd");
    assert_eq!(DriverError::Timeout.to_string(), "Timeout waiting for device response");
    let io = std::io::Error::new(std::io::ErrorKind::NotFound, "gone");
    assert_eq!(DriverError::Io(io).to_string(), "IO error: gone");
}

#[test]
fn usb_error_texts() {
    let cases = [
        (UsbError::Io, "Input/Output Error"),
        (UsbError::InvalidParam, "Invalid parameter"),
        (UsbError::Access, "Access denied (insufficient permissions)"),
        (UsbError::NoDevice, "No such device (it may have been disconnected)"),
        (UsbError::NotFound, "Entity not found"),
        (UsbError::Busy, "Resource busy"),
        (UsbError::Timeout, "Operation timed out"),
        (UsbError::Overflow, "Overflow"),
        (UsbError::Pipe, "Pipe error"),
        (UsbError::Interrupted, "System call interrupted (perhaps due to signal)"),
        (UsbError::NoMem, "Insufficient memory"),
        (UsbError::NotSupported, "Operation not supported or unimplemented on this platform"),
        (UsbError::BadDescriptor, "Malformed descriptor"),
        (UsbError::Other, "Other error"),
    ];
    for (e, text) in cases {
        assert_eq!(DriverError::Usb(e).to_string(), format!("USB error: {}", text));
    }
}

#[test]
fn recognising_the_mouse() {
    assert_eq!(mouse_connection(0x1d57, 0xfa60), Some(false));
    assert_eq!(mouse_connection(0x1d57, 0xfa61), Some(true));
    assert_eq!(mouse_connection(0x1d57, 0xfa62), None);
    assert_eq!(mouse_connection(0x046d, 0xfa60), None);
}
