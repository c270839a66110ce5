//! What the driver reads from and writes to the mouse: the battery status
//! decoded from the battery report, and the feature reports that set the
//! polling rate, the sleep timers and the DPI profile.
use vstd::prelude::*;
use crate::dpi::{dpi_code, dpi_to_byte, valid_dpi, valid_dpi_stage, validate_dpi_stage};
use crate::error::{DriverError, ErrorView};
use crate::protocol::{PollingRate, REG_DPI, REG_POLLING_RATE, REG_SLEEP};

verus! {

/// Offsets of the fields of the battery report.
pub const REPORT_ID_OFFSET: usize = 0;

pub const DEVICE_ID_OFFSET: usize = 1;

pub const STATUS_OFFSET: usize = 2;

pub const FLAGS_OFFSET: usize = 3;

pub const CHARGE_OFFSET: usize = 4;

pub const FLAG_1_OFFSET: usize = 5;

pub const FLAG_2_OFFSET: usize = 6;

pub const FLAG_3_OFFSET: usize = 7;

/// Mouse battery status.
#[derive(Debug, Clone, Copy, PartialEq, Eq, Structural)]
pub struct BatteryStatus {
    /// Battery charge percentage (0..=100).
    pub percentage: u8,
    /// Whether the mouse is charging.
    pub is_charging: bool,
    /// True if connected with a USB-C cable.
    pub is_wired: bool,
    /// Raw charge value from hardware.
    pub raw_charge: u8,
    /// Raw status byte.
    pub status_code: u8,
    /// Protocol flags byte.
    pub flags: u8,
    /// HID Report ID (0x03).
    pub report_id: u8,
}

/// The mouse reports its charge in tenths (0..=10) or in percent (0..=100);
/// the percentage is capped at 100.
pub open spec fn charge_percentage(raw: u8) -> u8 {
    if raw <= 10 {
        (raw * 10) as u8
    } else if raw <= 100 {
        raw
    } else {
        100
    }
}

/// A mouse on a cable charges; so does one whose flags byte is 0x02, 0x03 or
/// 0x80, or whose extra flag bytes are not all zero. Flags 0x01 is
/// discharging.
pub open spec fn charging_state(is_wired: bool, flags: u8, flag1: u8, flag2: u8, flag3: u8) -> bool {
    is_wired || flags == 0x02 || flags == 0x03 || flags == 0x80 || flag1 != 0 || flag2 != 0
        || flag3 != 0
}

/// The status that a battery report and the connection type describe.
pub open spec fn status_of_report(report: Seq<u8>, is_wired: bool) -> BatteryStatus {
    BatteryStatus {
        percentage: charge_percentage(report[4]),
        is_charging: charging_state(is_wired, report[3], report[5], report[6], report[7]),
        is_wired,
        raw_charge: report[4],
        status_code: report[2],
        flags: report[3],
        report_id: report[0],
    }
}

/// The percentage for a raw charge value.
pub fn percentage_from_raw(raw: u8) -> (p: u8)
    ensures
        p == charge_percentage(raw),
        p <= 100,
{
    if raw <= 10 {
        raw * 10
    } else if raw <= 100 {
        raw
    } else {
        100
    }
}

impl BatteryStatus {
    /// Decodes the 8-byte battery report (report id, device id, status,
    /// flags, raw charge, three more flag bytes) of a mouse connected over
    /// the dongle (`is_wired` false) or a cable.
    pub fn from_report(report: &[u8], is_wired: bool) -> (s: BatteryStatus)
        requires
            report@.len() >= 8,
        ensures
            s == status_of_report(report@, is_wired),
    {
        let raw = report[CHARGE_OFFSET];
        let flags = report[FLAGS_OFFSET];
        let is_charging = is_wired || flags == 0x02 || flags == 0x03 || flags == 0x80
            || report[FLAG_1_OFFSET] != 0 || report[FLAG_2_OFFSET] != 0 || report[FLAG_3_OFFSET]
            != 0;
        BatteryStatus {
            percentage: percentage_from_raw(raw),
            is_charging,
            is_wired,
            raw_charge: raw,
            status_code: report[STATUS_OFFSET],
            flags,
            report_id: report[REPORT_ID_OFFSET],
        }
    }
}

/// The polling-rate feature report: report id 6, command 9, sub-command 1,
/// the rate's value in little endian, then four zero bytes.
pub open spec fn polling_rate_report(rate: PollingRate) -> Seq<u8> {
    seq![
        0x06u8,
        0x09u8,
        0x01u8,
        (rate.spec_code() % 256) as u8,
        (rate.spec_code() / 256) as u8,
        0u8,
        0u8,
        0u8,
        0u8,
    ]
}

/// Builds the feature report that sets the polling rate (register 0x06).
pub fn polling_rate_payload(rate: PollingRate) -> (p: [u8; 9])
    ensures
        p@ == polling_rate_report(rate),
{
    let code = rate.code();
    let lo = (code % 256) as u8;
    let hi = (code / 256) as u8;
    let p: [u8; 9] = [REG_POLLING_RATE, 0x09, 0x01, lo, hi, 0, 0, 0, 0];
    assert(p@ =~= polling_rate_report(rate));
    p
}

/// A sleep delay of 0.5 s ..= 30 s, in milliseconds.
pub open spec fn valid_sleep_ms(ms: u32) -> bool {
    500 <= ms <= 30000
}

/// A deep-sleep delay of 1 ..= 60 minutes.
pub open spec fn valid_deep_sleep(minutes: u8) -> bool {
    1 <= minutes <= 60
}

/// A key response (debounce) time: an even number of milliseconds in 4 ..= 50.
pub open spec fn valid_key_response(ms: u8) -> bool {
    4 <= ms <= 50 && ms % 2 == 0
}

/// The first complaint about sleep settings: the sleep delay, then the deep
/// sleep delay, then the key response time.
pub open spec fn sleep_times_check(sleep_ms: u32, deep_sleep_minutes: u8, debounce_ms: u8) -> Option<ErrorView> {
    if !valid_sleep_ms(sleep_ms) {
        Some(ErrorView::InvalidSleepTime(sleep_ms))
    } else if !valid_deep_sleep(deep_sleep_minutes) {
        Some(ErrorView::InvalidDeepSleepTime(deep_sleep_minutes))
    } else if !valid_key_response(debounce_ms) {
        Some(ErrorView::InvalidKeyResponseTime(debounce_ms))
    } else {
        None
    }
}

/// Checks the sleep delay (milliseconds), deep-sleep delay (minutes) and
/// key response time (milliseconds).
pub fn validate_sleep_times(sleep_ms: u32, deep_sleep_minutes: u8, debounce_ms: u8) -> (r: Result<
    (),
    DriverError,
>)
    ensures
        match sleep_times_check(sleep_ms, deep_sleep_minutes, debounce_ms) {
            None => r is Ok,
            Some(v) => r matches Err(e) && e@ == v,
        },
{
    if sleep_ms < 500 || sleep_ms > 30000 {
        return Err(DriverError::InvalidSleepTime(sleep_ms));
    }
    if deep_sleep_minutes < 1 || deep_sleep_minutes > 60 {
        return Err(DriverError::InvalidDeepSleepTime(deep_sleep_minutes));
    }
    if debounce_ms < 4 || debounce_ms > 50 || debounce_ms % 2 != 0 {
        return Err(DriverError::InvalidKeyResponseTime(debounce_ms));
    }
    Ok(())
}

/// The sleep checksum byte: the low and high nibbles of the deep-sleep delay
/// added, the sum's low nibble shifted to the high nibble, plus 0x0a, plus
/// the sleep and debounce bytes, modulo 256.
pub open spec fn sleep_checksum(deep: u8, sleep_byte: u8, debounce_byte: u8) -> u8 {
    (((((deep % 16) + (deep / 16)) % 16) * 16 + 0x0a + sleep_byte + debounce_byte) % 256) as u8
}

/// The sleep feature report (register 0x05) for valid settings: the deep
/// sleep delay split into nibbles over bytes 4 and 5, the sleep delay in
/// half seconds at byte 9, the debounce time in units of 2 ms at byte 10,
/// and the checksum at byte 12.
pub open spec fn sleep_report(sleep_ms: u32, deep: u8, debounce_ms: u8) -> Seq<u8> {
    let sleep_byte = (sleep_ms / 500) as u8;
    let debounce_byte = debounce_ms / 2;
    seq![
        0x05u8,
        0x0fu8,
        0x01u8,
        0x00u8,
        ((deep / 16) * 16 + 3) as u8,
        ((deep % 16) * 16 + 8) as u8,
        0x00u8,
        0x00u8,
        0xffu8,
        sleep_byte,
        debounce_byte,
        0x01u8,
        sleep_checksum(deep, sleep_byte, debounce_byte),
        0x00u8,
        0x00u8,
    ]
}

/// Builds the sleep feature report, after checking the settings as
/// `validate_sleep_times` does.
pub fn sleep_times_payload(sleep_ms: u32, deep_sleep_minutes: u8, debounce_ms: u8) -> (r: Result<
    [u8; 15],
    DriverError,
>)
    ensures
        match sleep_times_check(sleep_ms, deep_sleep_minutes, debounce_ms) {
            None => r matches Ok(p) && p@ == sleep_report(sleep_ms, deep_sleep_minutes, debounce_ms),
            Some(v) => r matches Err(e) && e@ == v,
        },
{
    match validate_sleep_times(sleep_ms, deep_sleep_minutes, debounce_ms) {
        Err(e) => return Err(e),
        Ok(()) => {},
    }
    let deep = deep_sleep_minutes;
    let b4: u8 = 0x03 | (deep & 0xF0);
    let b5: u8 = 0x08 | ((deep & 0x0F) << 4);
    assert(0x03u8 | (deep & 0xF0u8) == (deep / 16) * 16 + 3 && 0x08u8 | ((deep & 0x0Fu8) << 4u8)
        == (deep % 16) * 16 + 8) by (bit_vector)
        requires
            deep <= 60,
    ;
    let sleep_byte = (sleep_ms / 500) as u8;
    let debounce_byte = debounce_ms / 2;
    let ds_low = deep & 0x0F;
    let ds_high = (deep >> 4) & 0x0F;
    assert(deep & 0x0Fu8 == deep % 16 && (deep >> 4u8) & 0x0Fu8 == deep / 16) by (bit_vector)
        requires
            deep <= 60,
    ;
    let nibble_sum: u8 = ds_low + ds_high;
    let nib = nibble_sum & 0x0F;
    let shifted = nib << 4;
    assert(nibble_sum & 0x0Fu8 == nibble_sum % 16) by (bit_vector);
    assert(nib << 4u8 == nib * 16) by (bit_vector)
        requires
            nib < 16,
    ;
    let checksum = shifted.wrapping_add(0x0a).wrapping_add(sleep_byte).wrapping_add(debounce_byte);
    let p: [u8; 15] = [
        REG_SLEEP,
        0x0f,
        0x01,
        0x00,
        b4,
        b5,
        0x00,
        0x00,
        0xff,
        sleep_byte,
        debounce_byte,
        0x01,
        checksum,
        0x00,
        0x00,
    ];
    assert(p@ =~= sleep_report(sleep_ms, deep_sleep_minutes, debounce_ms));
    Ok(p)
}

/// The DPI profile report before the stages are filled in.
pub open spec fn dpi_base_report() -> Seq<u8> {
    seq![
        0x04u8, 0x38u8, 0x01u8, 0x00u8, 0x00u8, 0x3fu8, 0x00u8, 0x00u8, 0x02u8, 0x02u8, 0x02u8,
        0x02u8, 0x02u8, 0x02u8, 0x00u8, 0x00u8, 0x00u8, 0x00u8, 0x00u8, 0x00u8, 0x00u8, 0x00u8,
        0x00u8, 0x00u8, 0x01u8, 0xffu8, 0x00u8, 0x00u8, 0x00u8, 0xffu8, 0x00u8, 0x00u8, 0x00u8,
        0xffu8, 0xffu8, 0xffu8, 0x00u8, 0x00u8, 0xffu8, 0xffu8, 0xffu8, 0x00u8, 0xffu8, 0xffu8,
        0x40u8, 0x00u8, 0xffu8, 0xffu8, 0xffu8, 0x02u8, 0x0du8, 0x75u8, 0x00u8, 0x00u8, 0x00u8,
        0x00u8,
    ]
}

/// 1 for a DPI value in 10100 ..= 12000, else 0.
pub open spec fn mid_range_flag(dpi: u32) -> u8 {
    if 10100 <= dpi <= 12000 {
        1
    } else {
        0
    }
}

/// The bit of stage `i` (counted from 0) in a stage mask.
pub open spec fn stage_bit(i: nat) -> nat {
    if i == 0 {
        1
    } else if i == 1 {
        2
    } else if i == 2 {
        4
    } else if i == 3 {
        8
    } else if i == 4 {
        16
    } else {
        32
    }
}

/// The mask of the first `n` stages whose DPI value exceeds 12000.
pub open spec fn high_range_mask(dpis: Seq<u32>, n: nat) -> nat
    decreases n,
{
    if n == 0 {
        0
    } else {
        high_range_mask(dpis, (n - 1) as nat) + if dpis[n - 1] > 12000 {
            stage_bit((n - 1) as nat)
        } else {
            0
        }
    }
}

/// The sum of the codes and mid-range flags of the first `n` stages.
pub open spec fn stage_sum(dpis: Seq<u32>, n: nat) -> nat
    decreases n,
{
    if n == 0 {
        0
    } else {
        stage_sum(dpis, (n - 1) as nat) + dpi_code(dpis[n - 1]) as nat + mid_range_flag(dpis[n - 1]) as nat
    }
}

/// The 16-bit checksum of a DPI profile: 0x0d75 plus the stage codes and
/// flags, twice the high-range mask, the active stage less one, and one each
/// for ripple control and angle snap, modulo 2^16.
pub open spec fn dpi_checksum(dpis: Seq<u32>, active_stage: u8, angle_snap: bool, ripple_control: bool) -> u16 {
    ((0x0d75 + stage_sum(dpis, 6) + 2 * high_range_mask(dpis, 6) + (active_stage - 1) + (if ripple_control {
        1int
    } else {
        0
    }) + (if angle_snap {
        1int
    } else {
        0
    })) % 65536) as u16
}

/// The DPI profile report (register 0x04): angle snap at byte 3, ripple
/// control at byte 4, the high-range mask at bytes 6 and 7, the stage codes
/// at bytes 8..14, the mid-range flags at bytes 16..22, the active stage at
/// byte 24, and the checksum in big endian at bytes 50 and 51.
pub open spec fn dpi_report(dpis: Seq<u32>, active_stage: u8, angle_snap: bool, ripple_control: bool) -> Seq<u8> {
    let mask = high_range_mask(dpis, 6) as u8;
    let checksum = dpi_checksum(dpis, active_stage, angle_snap, ripple_control);
    Seq::new(
        56,
        |j: int|
            if j == 3 {
                if angle_snap {
                    1u8
                } else {
                    0u8
                }
            } else if j == 4 {
                if ripple_control {
                    1u8
                } else {
                    0u8
                }
            } else if j == 6 || j == 7 {
                mask
            } else if 8 <= j < 14 {
                dpi_code(dpis[j - 8])
            } else if 16 <= j < 22 {
                mid_range_flag(dpis[j - 16])
            } else if j == 24 {
                active_stage
            } else if j == 50 {
                (checksum / 256) as u8
            } else if j == 51 {
                (checksum % 256) as u8
            } else {
                dpi_base_report()[j]
            },
    )
}

/// The first DPI value among the first `n` that the mouse does not accept.
pub open spec fn first_invalid_dpi(dpis: Seq<u32>, n: nat) -> Option<u32>
    decreases n,
{
    if n == 0 {
        None
    } else {
        match first_invalid_dpi(dpis, (n - 1) as nat) {
            Some(d) => Some(d),
            None => if valid_dpi(dpis[n - 1]) {
                None
            } else {
                Some(dpis[n - 1])
            },
        }
    }
}

/// The complaint about a DPI profile, if any: the stage number first, then
/// the DPI values in stage order.
pub open spec fn dpi_profile_check(dpis: Seq<u32>, active_stage: u8) -> Option<ErrorView> {
    if !valid_dpi_stage(active_stage) {
        Some(ErrorView::InvalidDpiStage(active_stage))
    } else {
        match first_invalid_dpi(dpis, 6) {
            Some(d) => Some(ErrorView::InvalidDpi(d)),
            None => None,
        }
    }
}

/// Once a DPI value among the first `n` is refused, it stays the first one
/// refused among more stages.
pub proof fn lemma_first_invalid_stays(dpis: Seq<u32>, n: nat, m: nat)
    requires
        n <= m,
        first_invalid_dpi(dpis, n) is Some,
    ensures
        first_invalid_dpi(dpis, m) == first_invalid_dpi(dpis, n),
    decreases m - n,
{
    if n < m {
        lemma_first_invalid_stays(dpis, n, (m - 1) as nat);
    }
}

/// The codes, mid-range flags, code-and-flag sum and high-range mask of six
/// DPI stages, or the first refused DPI value.
fn encode_stages(dpis: &[u32; 6]) -> (r: Result<([u8; 6], [u8; 6], u16, u8), DriverError>)
    ensures
        match first_invalid_dpi(dpis@, 6) {
            None => r matches Ok((codes, flags, sum, mask)) && (forall|k: int|
                0 <= k < 6 ==> codes@[k] == dpi_code(dpis@[k]) && flags@[k] == mid_range_flag(
                    dpis@[k],
                )) && sum == stage_sum(dpis@, 6) && mask == high_range_mask(dpis@, 6) && sum <= 1086
                && mask < 64,
            Some(d) => r matches Err(e) && e@ == ErrorView::InvalidDpi(d),
        },
{
    let mut codes: [u8; 6] = [0, 0, 0, 0, 0, 0];
    let mut flags: [u8; 6] = [0, 0, 0, 0, 0, 0];
    let mut sum: u16 = 0;
    let mut mask: u8 = 0;
    let mut bit: u8 = 1;
    let mut i: usize = 0;
    while i < 6
        invariant
            i <= 6,
            first_invalid_dpi(dpis@, i as nat) is None,
            forall|k: int| 0 <= k < i ==> codes@[k] == dpi_code(dpis@[k]),
            forall|k: int| 0 <= k < i ==> flags@[k] == mid_range_flag(dpis@[k]),
            codes@.len() == 6,
            flags@.len() == 6,
            sum == stage_sum(dpis@, i as nat),
            stage_sum(dpis@, i as nat) <= 181 * i,
            mask == high_range_mask(dpis@, i as nat),
            high_range_mask(dpis@, i as nat) < if i < 6 { stage_bit(i as nat) } else { 64 },
            i < 6 ==> bit == stage_bit(i as nat),
        decreases 6 - i,
    {
        let dpi = dpis[i];
        let code = match dpi_to_byte(dpi) {
            Ok(c) => c,
            Err(e) => {
                proof {
                    lemma_first_invalid_stays(dpis@, (i + 1) as nat, 6);
                }
                return Err(e);
            },
        };
        codes[i] = code;
        let flag: u8 = if dpi >= 10100 && dpi <= 12000 {
            1
        } else {
            0
        };
        flags[i] = flag;
        sum = sum + (code as u16) + (flag as u16);
        if dpi > 12000 {
            mask = mask + bit;
        }
        if i < 5 {
            bit = bit * 2;
        }
        i = i + 1;
    }
    Ok((codes, flags, sum, mask))
}

/// The checksum from the code-and-flag sum, the high-range mask, the
/// active stage and the two switches.
fn profile_checksum(sum: u16, mask: u8, active_stage: u8, angle_snap: bool, ripple_control: bool) -> (c: u16)
    requires
        sum <= 1086,
        mask < 64,
        1 <= active_stage <= 6,
    ensures
        c == 0x0d75 + sum + 2 * mask + (active_stage - 1) + (if ripple_control {
            1int
        } else {
            0
        }) + (if angle_snap {
            1int
        } else {
            0
        }),
{
    let mut checksum: u16 = 0x0d75 + sum;
    checksum = checksum + 2 * (mask as u16);
    checksum = checksum + ((active_stage - 1) as u16);
    if ripple_control {
        checksum = checksum + 1;
    }
    if angle_snap {
        checksum = checksum + 1;
    }
    checksum
}

/// Lays out the DPI profile report from its parts.
fn assemble_dpi_report(
    codes: &[u8; 6],
    flags: &[u8; 6],
    mask: u8,
    active_stage: u8,
    angle_snap: bool,
    ripple_control: bool,
    checksum: u16,
) -> (p: [u8; 56])
    ensures
        p@.len() == 56,
        forall|j: int|
            0 <= j < 56 ==> p@[j] == if j == 3 {
                if angle_snap {
                    1u8
                } else {
                    0u8
                }
            } else if j == 4 {
                if ripple_control {
                    1u8
                } else {
                    0u8
                }
            } else if j == 6 || j == 7 {
                mask
            } else if 8 <= j < 14 {
                codes@[j - 8]
            } else if 16 <= j < 22 {
                flags@[j - 16]
            } else if j == 24 {
                active_stage
            } else if j == 50 {
                (checksum / 256) as u8
            } else if j == 51 {
                (checksum % 256) as u8
            } else {
                dpi_base_report()[j]
            },
{
    let mut p: [u8; 56] = [
        REG_DPI, 0x38, 0x01, 0x00, 0x00, 0x3f, 0x00, 0x00, 0x02, 0x02, 0x02, 0x02, 0x02, 0x02,
        0x00, 0x00, 0x00, 0x00, 0x00, 0x00, 0x00, 0x00, 0x00, 0x00, 0x01, 0xff, 0x00, 0x00,
        0x00, 0xff, 0x00, 0x00, 0x00, 0xff, 0xff, 0xff, 0x00, 0x00, 0xff, 0xff, 0xff, 0x00,
        0xff, 0xff, 0x40, 0x00, 0xff, 0xff, 0xff, 0x02, 0x0d, 0x75, 0x00, 0x00, 0x00, 0x00,
    ];
    assert(p@ =~= dpi_base_report());
    let mut k: usize = 0;
    while k < 6
        invariant
            k <= 6,
            p@.len() == 56,
            codes@.len() == 6,
            flags@.len() == 6,
            forall|j: int|
                0 <= j < 56 ==> p@[j] == (if 8 <= j < 8 + k {
                    codes@[j - 8]
                } else if 16 <= j < 16 + k {
                    flags@[j - 16]
                } else {
                    dpi_base_report()[j]
                }),
        decreases 6 - k,
    {
        p[8 + k] = codes[k];
        p[16 + k] = flags[k];
        k = k + 1;
    }
    p[6] = mask;
    p[7] = mask;
    p[24] = active_stage;
    if ripple_control {
        p[4] = 1;
    }
    if angle_snap {
        p[3] = 1;
    }
    p[50] = (checksum / 256) as u8;
    p[51] = (checksum % 256) as u8;
    p
}

/// Builds the DPI profile report for six DPI stages, the active stage
/// (1 ..= 6), angle snap and ripple control.
pub fn dpi_profile_payload(
    dpis: [u32; 6],
    active_stage: u8,
    angle_snap: bool,
    ripple_control: bool,
) -> (r: Result<[u8; 56], DriverError>)
    ensures
        match dpi_profile_check(dpis@, active_stage) {
            None => r matches Ok(p) && p@ == dpi_report(
                dpis@,
                active_stage,
                angle_snap,
                ripple_control,
            ),
            Some(v) => r matches Err(e) && e@ == v,
        },
{
    match validate_dpi_stage(active_stage) {
        Err(e) => return Err(e),
        Ok(()) => {},
    }
    let (codes, flags, sum, mask) = match encode_stages(&dpis) {
        Ok(t) => t,
        Err(e) => return Err(e),
    };
    let checksum = profile_checksum(sum, mask, active_stage, angle_snap, ripple_control);
    proof {
        assert(checksum == dpi_checksum(dpis@, active_stage, angle_snap, ripple_control));
    }
    let p = assemble_dpi_report(&codes, &flags, mask, active_stage, angle_snap, ripple_control, checksum);
    assert(p@ =~= dpi_report(dpis@, active_stage, angle_snap, ripple_control));
    Ok(p)
}

/// The sum of the bytes `s[a..b]`.
pub open spec fn byte_sum(s: Seq<u8>, a: int, b: int) -> int
    decreases b - a,
{
    if b <= a {
        0
    } else {
        byte_sum(s, a, b - 1) + s[b - 1]
    }
}

proof fn lemma_byte_sum_split(s: Seq<u8>, a: int, m: int, b: int)
    requires
        a <= m <= b,
    ensures
        byte_sum(s, a, b) == byte_sum(s, a, m) + byte_sum(s, m, b),
    decreases b - m,
{
    if m < b {
        lemma_byte_sum_split(s, a, m, b - 1);
    }
}

proof fn lemma_byte_sum_same(s: Seq<u8>, t: Seq<u8>, a: int, b: int)
    requires
        forall|j: int| a <= j < b ==> s[j] == t[j],
    ensures
        byte_sum(s, a, b) == byte_sum(t, a, b),
    decreases b - a,
{
    if a < b {
        lemma_byte_sum_same(s, t, a, b - 1);
    }
}

proof fn lemma_base_tail_sum()
    ensures
        byte_sum(dpi_base_report(), 25, 50) == 3381,
{
    reveal_with_fuel(byte_sum, 26);
}

proof fn lemma_stage_bytes_sum(dpis: Seq<u32>, r: Seq<u8>, k: int)
    requires
        0 <= k <= 6,
        r.len() == 56,
        forall|j: int| 8 <= j < 14 ==> r[j] == dpi_code(dpis[j - 8]),
        forall|j: int| 16 <= j < 22 ==> r[j] == mid_range_flag(dpis[j - 16]),
    ensures
        byte_sum(r, 8, 8 + k) + byte_sum(r, 16, 16 + k) == stage_sum(dpis, k as nat),
    decreases k,
{
    if k > 0 {
        lemma_stage_bytes_sum(dpis, r, k - 1);
    }
}

/// The checksum of a DPI profile report is the sum of its bytes 3 to 49,
/// modulo 2^16.
pub proof fn lemma_dpi_checksum_is_byte_sum(
    dpis: Seq<u32>,
    active_stage: u8,
    angle_snap: bool,
    ripple_control: bool,
)
    ensures
        dpi_checksum(dpis, active_stage, angle_snap, ripple_control) as int == byte_sum(
            dpi_report(dpis, active_stage, angle_snap, ripple_control),
            3,
            50,
        ) % 65536,
{
    let r = dpi_report(dpis, active_stage, angle_snap, ripple_control);
    lemma_byte_sum_split(r, 3, 8, 50);
    lemma_byte_sum_split(r, 8, 14, 50);
    lemma_byte_sum_split(r, 14, 16, 50);
    lemma_byte_sum_split(r, 16, 22, 50);
    lemma_byte_sum_split(r, 22, 25, 50);
    reveal_with_fuel(byte_sum, 6);
    assert(byte_sum(r, 3, 8) == r[3] + r[4] + r[5] + r[6] + r[7]);
    assert(byte_sum(r, 14, 16) == r[14] + r[15]);
    assert(byte_sum(r, 22, 25) == r[22] + r[23] + r[24]);
    lemma_byte_sum_same(r, dpi_base_report(), 25, 50);
    lemma_base_tail_sum();
    lemma_stage_bytes_sum(dpis, r, 6);
    let mask = high_range_mask(dpis, 6);
    assert(mask < 64) by {
        lemma_high_range_mask_bound(dpis, 6);
    }
    assert(r[6] == mask);
}

proof fn lemma_high_range_mask_bound(dpis: Seq<u32>, n: nat)
    requires
        n <= 6,
    ensures
        high_range_mask(dpis, n) < if n < 6 {
            stage_bit(n)
        } else {
            64
        },
    decreases n,
{
    if n > 0 {
        lemma_high_range_mask_bound(dpis, (n - 1) as nat);
    }
}

/// The percentage of any battery report is at most 100, and a mouse on a
/// cable always counts as charging.
pub proof fn lemma_battery_status_bounds(report: Seq<u8>, is_wired: bool)
    requires
        report.len() >= 8,
    ensures
        status_of_report(report, is_wired).percentage <= 100,
        is_wired ==> status_of_report(report, is_wired).is_charging,
        status_of_report(report, is_wired).is_wired == is_wired,
{
}

/// What a mouse on a cable reports in place of a battery report reads as
/// a full, charging battery in report 3.
pub proof fn lemma_wired_report_reads_full(rest: Seq<u8>)
    requires
        rest.len() >= 3,
    ensures
        status_of_report(crate::protocol::wired_report_prefix() + rest, true).percentage == 100,
        status_of_report(crate::protocol::wired_report_prefix() + rest, true).is_charging,
        status_of_report(crate::protocol::wired_report_prefix() + rest, true).report_id == 3,
        status_of_report(crate::protocol::wired_report_prefix() + rest, true).raw_charge == 10,
{
    let r = crate::protocol::wired_report_prefix() + rest;
    assert(r[0] == 3 && r[4] == 10);
}

/// In the DPI profile report, byte 3 is 1 exactly when angle snap is on
/// and byte 4 is 1 exactly when ripple control is on (0 otherwise); each
/// switch sets only its own byte, and turning one on adds one to the
/// checksum.
pub proof fn lemma_dpi_switch_bytes(dpis: Seq<u32>, active_stage: u8, angle_snap: bool, ripple_control: bool)
    ensures
        dpi_report(dpis, active_stage, angle_snap, ripple_control).len() == 56,
        dpi_report(dpis, active_stage, angle_snap, ripple_control)[3] == (if angle_snap {
            1u8
        } else {
            0u8
        }),
        dpi_report(dpis, active_stage, angle_snap, ripple_control)[4] == (if ripple_control {
            1u8
        } else {
            0u8
        }),
        forall|j: int|
            0 <= j < 50 && j != 4 ==> #[trigger] dpi_report(dpis, active_stage, angle_snap, true)[j]
                == dpi_report(dpis, active_stage, angle_snap, false)[j],
        forall|j: int|
            0 <= j < 50 && j != 3 ==> #[trigger] dpi_report(dpis, active_stage, true, ripple_control)[j]
                == dpi_report(dpis, active_stage, false, ripple_control)[j],
        dpi_checksum(dpis, active_stage, angle_snap, true) as int == (dpi_checksum(
            dpis,
            active_stage,
            angle_snap,
            false,
        ) + 1) % 65536,
        dpi_checksum(dpis, active_stage, true, ripple_control) as int == (dpi_checksum(
            dpis,
            active_stage,
            false,
            ripple_control,
        ) + 1) % 65536,
{
    let t = 0x0d75 + stage_sum(dpis, 6) + 2 * high_range_mask(dpis, 6) + (active_stage - 1);
    let a: int = if angle_snap { 1 } else { 0 };
    let rp: int = if ripple_control { 1 } else { 0 };
    assert(dpi_checksum(dpis, active_stage, angle_snap, true) as int == (t + 1 + a) % 65536);
    assert(dpi_checksum(dpis, active_stage, angle_snap, false) as int == (t + a) % 65536);
    assert(dpi_checksum(dpis, active_stage, true, ripple_control) as int == (t + rp + 1) % 65536);
    assert(dpi_checksum(dpis, active_stage, false, ripple_control) as int == (t + rp) % 65536);
    assert(((t + a) % 65536 + 1) % 65536 == (t + 1 + a) % 65536) by (nonlinear_arith);
    assert(((t + rp) % 65536 + 1) % 65536 == (t + rp + 1) % 65536) by (nonlinear_arith);
    assert forall|j: int| 0 <= j < 50 && j != 4 implies #[trigger] dpi_report(
        dpis,
        active_stage,
        angle_snap,
        true,
    )[j] == dpi_report(dpis, active_stage, angle_snap, false)[j] by {}
    assert forall|j: int| 0 <= j < 50 && j != 3 implies #[trigger] dpi_report(
        dpis,
        active_stage,
        true,
        ripple_control,
    )[j] == dpi_report(dpis, active_stage, false, ripple_control)[j] by {}
}

/// For every stage `i` of a DPI profile: byte `8 + i` is the stage's DPI
/// value in hundreds, and byte `16 + i` is 1 exactly when the value lies in
/// 10100 ..= 12000 (0 otherwise); the active stage is byte 24.
pub proof fn lemma_dpi_stage_bytes(dpis: Seq<u32>, active_stage: u8, angle_snap: bool, ripple_control: bool, i: int)
    requires
        0 <= i < 6,
        dpis.len() == 6,
        100 <= dpis[i] <= 18000,
    ensures
        dpi_report(dpis, active_stage, angle_snap, ripple_control)[8 + i] as int == dpis[i] / 100,
        dpi_report(dpis, active_stage, angle_snap, ripple_control)[16 + i] == (if 10100 <= dpis[i]
            && dpis[i] <= 12000 {
            1u8
        } else {
            0u8
        }),
        dpi_report(dpis, active_stage, angle_snap, ripple_control)[24] == active_stage,
{
}

/// Bit `i` of the high-range mask (bytes 6 and 7 of the DPI profile report)
/// is set exactly when stage `i` is above 12000 DPI.
pub proof fn lemma_dpi_high_range_bits(dpis: Seq<u32>, active_stage: u8, angle_snap: bool, ripple_control: bool, i: u8)
    requires
        i < 6,
        dpis.len() == 6,
    ensures
        dpi_report(dpis, active_stage, angle_snap, ripple_control)[6] == dpi_report(
            dpis,
            active_stage,
            angle_snap,
            ripple_control,
        )[7],
        ((dpi_report(dpis, active_stage, angle_snap, ripple_control)[6] >> i) & 1u8 == 1u8) <==> dpis[i as int] > 12000,
{
    let r = dpi_report(dpis, active_stage, angle_snap, ripple_control);
    reveal_with_fuel(high_range_mask, 7);
    lemma_high_range_mask_bound(dpis, 6);
    let b0: u8 = if dpis[0] > 12000 { 1 } else { 0 };
    let b1: u8 = if dpis[1] > 12000 { 1 } else { 0 };
    let b2: u8 = if dpis[2] > 12000 { 1 } else { 0 };
    let b3: u8 = if dpis[3] > 12000 { 1 } else { 0 };
    let b4: u8 = if dpis[4] > 12000 { 1 } else { 0 };
    let b5: u8 = if dpis[5] > 12000 { 1 } else { 0 };
    let x: u8 = r[6];
    assert(x == b0 + 2 * b1 + 4 * b2 + 8 * b3 + 16 * b4 + 32 * b5);
    assert((x >> 0u8) & 1u8 == b0 && (x >> 1u8) & 1u8 == b1 && (x >> 2u8) & 1u8 == b2 && (x >> 3u8)
        & 1u8 == b3 && (x >> 4u8) & 1u8 == b4 && (x >> 5u8) & 1u8 == b5) by (bit_vector)
        requires
            x == b0 + 2 * b1 + 4 * b2 + 8 * b3 + 16 * b4 + 32 * b5,
            b0 <= 1,
            b1 <= 1,
            b2 <= 1,
            b3 <= 1,
            b4 <= 1,
            b5 <= 1,
    ;
}

/// For valid sleep settings, the sleep report spells the deep-sleep delay
/// `d` in the high nibbles of bytes 4 and 5 (`(byte4 >> 4) * 16 + (byte5 >>
/// 4) == d`) under the fixed low nibbles 3 and 8; byte 9 counts the whole
/// half seconds of the sleep delay, byte 10 is half the debounce time, and
/// byte 12 adds up the deep-sleep nibbles, 0x0a and bytes 9 and 10.
pub proof fn lemma_sleep_report_fields(sleep_ms: u32, deep: u8, debounce_ms: u8)
    requires
        sleep_times_check(sleep_ms, deep, debounce_ms) is None,
    ensures
        sleep_report(sleep_ms, deep, debounce_ms).len() == 15,
        (sleep_report(sleep_ms, deep, debounce_ms)[4] >> 4u8) * 16 + (sleep_report(
            sleep_ms,
            deep,
            debounce_ms,
        )[5] >> 4u8) == deep,
        sleep_report(sleep_ms, deep, debounce_ms)[4] & 0x0fu8 == 3,
        sleep_report(sleep_ms, deep, debounce_ms)[5] & 0x0fu8 == 8,
        sleep_report(sleep_ms, deep, debounce_ms)[9] * 500 <= sleep_ms < (sleep_report(
            sleep_ms,
            deep,
            debounce_ms,
        )[9] + 1) * 500,
        sleep_report(sleep_ms, deep, debounce_ms)[10] * 2 == debounce_ms,
        sleep_report(sleep_ms, deep, debounce_ms)[12] as int == ((((deep & 0x0fu8) + (deep >> 4u8))
            % 16) * 16 + 0x0a + sleep_report(sleep_ms, deep, debounce_ms)[9] + sleep_report(
            sleep_ms,
            deep,
            debounce_ms,
        )[10]) % 256,
{
    let r = sleep_report(sleep_ms, deep, debounce_ms);
    let b4: u8 = r[4];
    let b5: u8 = r[5];
    assert(b4 == (deep / 16) * 16 + 3);
    assert(b5 == (deep % 16) * 16 + 8);
    assert((b4 >> 4u8) * 16 + (b5 >> 4u8) == deep && b4 & 0x0fu8 == 3 && b5 & 0x0fu8 == 8 && (deep
        & 0x0fu8) == deep % 16 && (deep >> 4u8) == deep / 16) by (bit_vector)
        requires
            deep <= 60,
            b4 == (deep / 16) * 16 + 3,
            b5 == (deep % 16) * 16 + 8,
    ;
}

/// A battery report says the mouse charges exactly when the mouse is on a
/// cable, or its flags byte (byte 3) is 0x02, 0x03 or 0x80, or any of bytes
/// 5, 6 and 7 is not zero; its percentage is the raw charge (byte 4) in
/// tenths up to 10, in percent up to 100, and 100 above.
pub proof fn lemma_battery_status_fields(report: Seq<u8>, is_wired: bool)
    requires
        report.len() >= 8,
    ensures
        status_of_report(report, is_wired).is_charging <==> (is_wired || report[3] == 0x02
            || report[3] == 0x03 || report[3] == 0x80 || report[5] != 0 || report[6] != 0
            || report[7] != 0),
        report[4] <= 10 ==> status_of_report(report, is_wired).percentage == report[4] * 10,
        10 < report[4] <= 100 ==> status_of_report(report, is_wired).percentage == report[4],
        report[4] > 100 ==> status_of_report(report, is_wired).percentage == 100,
        status_of_report(report, is_wired).raw_charge == report[4],
        status_of_report(report, is_wired).flags == report[3],
        status_of_report(report, is_wired).status_code == report[2],
        status_of_report(report, is_wired).report_id == report[0],
{
}

/// The polling-rate report carries the rate's poll interval in
/// milliseconds (1000 / Hz) at byte 3 and its complement to 0xff at byte
/// 4, after report id 6, command 9 and sub-command 1.
pub proof fn lemma_polling_rate_report_fields(rate: PollingRate)
    ensures
        polling_rate_report(rate).len() == 9,
        polling_rate_report(rate)[0] == 6 && polling_rate_report(rate)[1] == 9
            && polling_rate_report(rate)[2] == 1,
        polling_rate_report(rate)[3] * rate.spec_hz() == 1000,
        polling_rate_report(rate)[3] + polling_rate_report(rate)[4] == 0xff,
        forall|j: int| 5 <= j < 9 ==> #[trigger] polling_rate_report(rate)[j] == 0,
{
    let r = polling_rate_report(rate);
    match rate {
        PollingRate::Hz125 => {
            assert(r[3] == 8 && rate.spec_hz() == 125);
            assert(r[3] * rate.spec_hz() == 1000) by (nonlinear_arith)
                requires
                    r[3] == 8,
                    rate.spec_hz() == 125,
            ;
        },
        PollingRate::Hz250 => {
            assert(r[3] == 4 && rate.spec_hz() == 250);
            assert(r[3] * rate.spec_hz() == 1000) by (nonlinear_arith)
                requires
                    r[3] == 4,
                    rate.spec_hz() == 250,
            ;
        },
        PollingRate::Hz500 => {
            assert(r[3] == 2 && rate.spec_hz() == 500);
            assert(r[3] * rate.spec_hz() == 1000) by (nonlinear_arith)
                requires
                    r[3] == 2,
                    rate.spec_hz() == 500,
            ;
        },
        PollingRate::Hz1000 => {
            assert(r[3] == 1 && rate.spec_hz() == 1000);
            assert(r[3] * rate.spec_hz() == 1000) by (nonlinear_arith)
                requires
                    r[3] == 1,
                    rate.spec_hz() == 1000,
            ;
        },
    }
}

} // verus!
