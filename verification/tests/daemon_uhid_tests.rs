use attack_shark_r1::daemon::{DaemonAction, DaemonEvent, DaemonState};
use attack_shark_r1::uhid::{
    answer_event, battery_report_descriptor, clamp_battery_percentage, create2_event_bytes,
    destroy_event_bytes, input2_event_bytes, ByteOrder, ReportedBattery, CREATE2_EVENT_LEN,
};
use attack_shark_r1::BatteryStatus;

#[test]
fn input_event_little_endian() {
    assert_eq!(input2_event_bytes(80, true, ByteOrder::Little), vec![12, 0, 0, 0, 4, 0, 1, 0, 80, 1]);
    assert_eq!(input2_event_bytes(150, false, ByteOrder::Little), vec![12, 0, 0, 0, 4, 0, 1, 0, 100, 0]);
}

#[test]
fn input_event_big_endian() {
    assert_eq!(input2_event_bytes(42, false, ByteOrder::Big), vec![0, 0, 0, 12, 0, 4, 1, 0, 42, 0]);
}

#[test]
fn clamping() {
    assert_eq!(clamp_battery_percentage(0), 0);
    assert_eq!(clamp_battery_percentage(100), 100);
    assert_eq!(clamp_battery_percentage(101), 100);
}

#[test]
fn destroy_event() {
    assert_eq!(destroy_event_bytes(ByteOrder::Little), vec![1, 0, 0, 0]);
    assert_eq!(destroy_event_bytes(ByteOrder::Big), vec![0, 0, 0, 1]);
}

#[test]
fn create_event_layout() {
    let e = create2_event_bytes(b"Attack Shark R1", 0x1d57, 0xfa60, ByteOrder::Little);
    assert_eq!(e.len(), CREATE2_EVENT_LEN);
    assert_eq!(&e[0..4], &[11, 0, 0, 0]);
    assert_eq!(&e[4..19], b"Attack Shark R1");
    assert!(e[19..132].iter().all(|&b| b == 0));
    assert_eq!(&e[132..152], b"uhid/attack-shark-r1");
    assert!(e[152..260].iter().all(|&b| b == 0));
    assert_eq!(&e[260..262], &[56, 0]);
    assert_eq!(&e[262..264], &[3, 0]);
    assert_eq!(&e[264..268], &[0x57, 0x1d, 0, 0]);
    assert_eq!(&e[268..272], &[0x60, 0xfa, 0, 0]);
    assert!(e[272..280].iter().all(|&b| b == 0));
    let d = battery_report_descriptor();
    assert_eq!(&e[280..336], &d[..]);
    assert!(e[336..].iter().all(|&b| b == 0));
}

#[test]
fn create_event_long_name_is_cut() {
    let name = [b'x'; 200];
    let e = create2_event_bytes(&name, 1, 2, ByteOrder::Little);
    assert!(e[4..131].iter().all(|&b| b == b'x'));
    assert_eq!(e[131], 0);
}

#[test]
fn get_report_is_answered_with_current_state() {
    let mut ev = vec![0u8; 64];
    ev[0] = 9;
    ev[4] = 0x34;
    ev[5] = 0x12;
    let reply = answer_event(&ev, 64, 77, true, ByteOrder::Little).unwrap();
    assert_eq!(reply, vec![10, 0, 0, 0, 0x34, 0x12, 0, 0, 0, 0, 4, 0, 1, 0, 77, 1]);
    // The reply carries what the last input event carried.
    let input = input2_event_bytes(77, true, ByteOrder::Little);
    assert_eq!(&reply[12..], &input[6..]);
}

#[test]
fn other_events_are_not_answered() {
    let mut ev = vec![0u8; 64];
    ev[0] = 2;
    assert!(answer_event(&ev, 64, 50, false, ByteOrder::Little).is_none());
    ev[0] = 9;
    assert!(answer_event(&ev, 9, 50, false, ByteOrder::Little).is_none());
}

#[test]
fn daemon_publishes_then_stays_quiet() {
    let mut s = DaemonState::new();
    assert_eq!(s.step(DaemonEvent::Opened), DaemonAction::StartReading { apply_config: true });
    let status = BatteryStatus::from_report(&[3, 0x10, 0x40, 0x01, 8, 0, 0, 0], false);
    let ev = DaemonState::status_event(&status);
    assert_eq!(
        s.step(ev),
        DaemonAction::Publish { percentage: 80, is_charging: false, create_device: true }
    );
    assert_eq!(s.step(DaemonEvent::DeviceCreated), DaemonAction::WaitThenRead);
    assert_eq!(s.step(ev), DaemonAction::WaitThenRead);
    assert_eq!(s.step(DaemonEvent::ReadTimedOut), DaemonAction::WaitThenRead);
    assert_eq!(
        s.step(DaemonEvent::StatusRead { percentage: 80, is_charging: true }),
        DaemonAction::Publish { percentage: 80, is_charging: true, create_device: false }
    );
}

#[test]
fn daemon_after_disconnect() {
    let mut s = DaemonState::new();
    s.step(DaemonEvent::Opened);
    s.step(DaemonEvent::StatusRead { percentage: 50, is_charging: false });
    s.step(DaemonEvent::DeviceCreated);
    assert_eq!(s.step(DaemonEvent::ReadFailed), DaemonAction::Disconnected);
    assert_eq!(s.step(DaemonEvent::Opened), DaemonAction::StartReading { apply_config: false });
    assert_eq!(
        s.step(DaemonEvent::StatusRead { percentage: 50, is_charging: false }),
        DaemonAction::Publish { percentage: 50, is_charging: false, create_device: true }
    );
    s.step(DaemonEvent::DeviceCreated);
    assert_eq!(s.step(DaemonEvent::OpenFailed), DaemonAction::WaitThenOpen { remove_device: true });
    assert_eq!(s.step(DaemonEvent::OpenFailed), DaemonAction::WaitThenOpen { remove_device: false });
    assert_eq!(s.step(DaemonEvent::Opened), DaemonAction::StartReading { apply_config: true });
}

#[test]
fn daemon_retries_creation_only_on_change() {
    let mut s = DaemonState::new();
    s.step(DaemonEvent::Opened);
    s.step(DaemonEvent::StatusRead { percentage: 50, is_charging: false });
    assert_eq!(s.step(DaemonEvent::DeviceCreationFailed), DaemonAction::WaitThenRead);
    assert_eq!(
        s.step(DaemonEvent::StatusRead { percentage: 50, is_charging: false }),
        DaemonAction::WaitThenRead
    );
    assert_eq!(
        s.step(DaemonEvent::StatusRead { percentage: 40, is_charging: false }),
        DaemonAction::Publish { percentage: 40, is_charging: false, create_device: true }
    );
}

#[test]
fn first_get_report_reports_a_full_battery() {
    let state = ReportedBattery::initial();
    assert_eq!(state, ReportedBattery { percentage: 100, charging: false });
    let mut ev = vec![0u8; 64];
    ev[0] = 9;
    ev[4] = 0x78;
    ev[5] = 0x56;
    ev[6] = 0x34;
    ev[7] = 0x12;
    let reply = state.answer(&ev, 10, ByteOrder::Little).unwrap();
    assert_eq!(reply, vec![10, 0, 0, 0, 0x78, 0x56, 0x34, 0x12, 0, 0, 4, 0, 1, 0, 100, 0]);
    let mut big = vec![0u8; 64];
    big[3] = 9;
    big[7] = 5;
    let reply = state.answer(&big, 64, ByteOrder::Big).unwrap();
    assert_eq!(reply, vec![0, 0, 0, 10, 0, 0, 0, 5, 0, 0, 0, 4, 1, 0, 100, 0]);
    ev[0] = 11;
    assert!(state.answer(&ev, 64, ByteOrder::Little).is_none());
}

#[test]
fn updated_state_holds_the_percentage_at_100() {
    assert_eq!(ReportedBattery::updated(150, true), ReportedBattery { percentage: 100, charging: true });
    assert_eq!(ReportedBattery::updated(42, false), ReportedBattery { percentage: 42, charging: false });
}
