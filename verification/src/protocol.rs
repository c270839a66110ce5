//! USB identifiers, HID register numbers, polling rates, and the decisions
//! of the register transport (which registers can be read, what a wired
//! mouse reports, how an interrupt transfer is accepted).
use vstd::prelude::*;
use crate::error::{DriverError, ErrorView};
use crate::text::{decimal, hex2, push_decimal, push_hex2, string_from_chars};

verus! {

pub const VENDOR_ID: u16 = 0x1d57;

pub const PRODUCT_ID_WIRELESS: u16 = 0xfa60;

pub const PRODUCT_ID_WIRED: u16 = 0xfa61;

pub const INTERFACE_NUMBER: u8 = 2;

pub const ENDPOINT_INTERRUPT_IN: u8 = 0x83;

/// Register (HID report id) of the battery report, read from endpoint 0x83.
pub const REG_BATTERY: u8 = 0x03;

/// Register (feature report id) of the DPI profile.
pub const REG_DPI: u8 = 0x04;

/// Register (feature report id) of the sleep timers and debounce.
pub const REG_SLEEP: u8 = 0x05;

/// Register (feature report id) of the polling rate.
pub const REG_POLLING_RATE: u8 = 0x06;

/// Timeout of a control or interrupt transfer, in milliseconds.
pub const TRANSFER_TIMEOUT_MS: u64 = 1500;

/// Timeout of the acknowledgement read after a wireless write, in milliseconds.
pub const ACK_TIMEOUT_MS: u64 = 800;

/// Size of the buffer an interrupt transfer is read into.
pub const INTERRUPT_BUFFER_LEN: usize = 64;

/// Size of the acknowledgement read after a wireless write.
pub const ACK_LEN: usize = 5;

/// Length of the battery report.
pub const BATTERY_REPORT_LEN: usize = 8;

/// HID class request type: class, interface, host to device.
pub const SET_REPORT_REQUEST_TYPE: u8 = 0x21;

/// HID `SET_REPORT` request.
pub const SET_REPORT_REQUEST: u8 = 0x09;

/// Whether a USB device is the mouse, by its vendor and product ids, and if
/// so whether it is connected by cable (`Some(true)`) or through the
/// wireless dongle (`Some(false)`).
pub open spec fn mouse_connection_spec(vendor_id: u16, product_id: u16) -> Option<bool> {
    if vendor_id == VENDOR_ID && (product_id == PRODUCT_ID_WIRELESS || product_id
        == PRODUCT_ID_WIRED) {
        Some(product_id == PRODUCT_ID_WIRED)
    } else {
        None
    }
}

/// Recognises the mouse among USB devices (see `mouse_connection_spec`).
pub fn mouse_connection(vendor_id: u16, product_id: u16) -> (r: Option<bool>)
    ensures
        r == mouse_connection_spec(vendor_id, product_id),
{
    if vendor_id == VENDOR_ID && (product_id == PRODUCT_ID_WIRELESS || product_id
        == PRODUCT_ID_WIRED) {
        Some(product_id == PRODUCT_ID_WIRED)
    } else {
        None
    }
}

/// Mouse polling rate options.
#[derive(Debug, Clone, Copy, PartialEq, Eq, Structural)]
pub enum PollingRate {
    Hz125,
    Hz250,
    Hz500,
    Hz1000,
}

/// The rate for a frequency in Hz, if the mouse supports it.
pub open spec fn rate_from_hz(hz: u32) -> Option<PollingRate> {
    if hz == 125 {
        Some(PollingRate::Hz125)
    } else if hz == 250 {
        Some(PollingRate::Hz250)
    } else if hz == 500 {
        Some(PollingRate::Hz500)
    } else if hz == 1000 {
        Some(PollingRate::Hz1000)
    } else {
        None
    }
}

impl PollingRate {
    /// The rate in Hz.
    pub open spec fn spec_hz(self) -> u32 {
        match self {
            PollingRate::Hz125 => 125,
            PollingRate::Hz250 => 250,
            PollingRate::Hz500 => 500,
            PollingRate::Hz1000 => 1000,
        }
    }

    /// The 16-bit value the mouse takes for the rate (little endian in the report).
    pub open spec fn spec_code(self) -> u16 {
        match self {
            PollingRate::Hz125 => 0xf708,
            PollingRate::Hz250 => 0xfb04,
            PollingRate::Hz500 => 0xfd02,
            PollingRate::Hz1000 => 0xfe01,
        }
    }

    /// Returns the rate in Hz.
    pub fn as_hz(&self) -> (hz: u32)
        ensures
            hz == self.spec_hz(),
    {
        match self {
            PollingRate::Hz125 => 125,
            PollingRate::Hz250 => 250,
            PollingRate::Hz500 => 500,
            PollingRate::Hz1000 => 1000,
        }
    }

    /// Returns the value the mouse takes for the rate.
    pub fn code(&self) -> (c: u16)
        ensures
            c == self.spec_code(),
    {
        match self {
            PollingRate::Hz125 => 0xf708,
            PollingRate::Hz250 => 0xfb04,
            PollingRate::Hz500 => 0xfd02,
            PollingRate::Hz1000 => 0xfe01,
        }
    }

    /// The rate as text, such as `1000Hz`.
    pub fn to_string(&self) -> (s: String)
        ensures
            s@ == decimal(self.spec_hz() as nat) + "Hz"@,
    {
        let mut digits: Vec<char> = Vec::new();
        push_decimal(&mut digits, self.as_hz() as u64);
        assert(digits@ =~= decimal(self.spec_hz() as nat));
        let mut s = string_from_chars(digits.as_slice());
        s.append("Hz");
        s
    }
}

impl TryFrom<u32> for PollingRate {
    type Error = DriverError;

    /// The rate for `val` Hz; `InvalidPollingRate(val)` unless `val` is
    /// 125, 250, 500 or 1000.
    fn try_from(val: u32) -> (r: Result<Self, Self::Error>) {
        match val {
            125 => Ok(PollingRate::Hz125),
            250 => Ok(PollingRate::Hz250),
            500 => Ok(PollingRate::Hz500),
            1000 => Ok(PollingRate::Hz1000),
            other => Err(DriverError::InvalidPollingRate(other)),
        }
    }
}

impl vstd::std_specs::convert::TryFromSpecImpl<u32> for PollingRate {
    open spec fn obeys_try_from_spec() -> bool {
        true
    }

    open spec fn try_from_spec(val: u32) -> Result<Self, Self::Error> {
        match rate_from_hz(val) {
            Some(r) => Ok(r),
            None => Err(DriverError::InvalidPollingRate(val)),
        }
    }
}

/// The rate for `hz`, or `InvalidPollingRate(hz)`.
pub fn polling_rate_from_hz(hz: u32) -> (r: Result<PollingRate, DriverError>)
    ensures
        match rate_from_hz(hz) {
            Some(rate) => r == Ok::<PollingRate, DriverError>(rate),
            None => r matches Err(e) && e@ == ErrorView::InvalidPollingRate(hz),
        },
{
    PollingRate::try_from(hz)
}

/// `wValue` of a HID `SET_REPORT` request for a feature report:
/// report type Feature (3) in the high byte, the report id in the low byte.
pub fn feature_report_w_value(address: u8) -> (v: u16)
    ensures
        v == 0x0300 + address,
{
    let a = address as u16;
    assert(0x0300u16 | a == 0x0300 + a) by (bit_vector)
        requires
            a < 256,
    ;
    0x0300u16 | a
}

/// The message for a read of a register that cannot be read.
pub open spec fn unreadable_message(address: u8) -> Seq<char> {
    "Read not supported for register 0x"@ + hex2(address)
}

/// Only the battery register can be read; any other register is a
/// protocol error.
pub fn check_readable(address: u8) -> (r: Result<(), DriverError>)
    ensures
        address == REG_BATTERY ==> r is Ok,
        address != REG_BATTERY ==> (r matches Err(e) && e@ == ErrorView::Protocol(
            unreadable_message(address),
        )),
{
    if address == REG_BATTERY {
        Ok(())
    } else {
        let mut hex: Vec<char> = Vec::new();
        push_hex2(&mut hex, address);
        assert(hex@ =~= hex2(address));
        let mut s = String::from_str("Read not supported for register 0x");
        s.append(string_from_chars(hex.as_slice()).as_str());
        Err(DriverError::Protocol(s))
    }
}

/// What a mouse on a USB cable reports in place of a battery report: report
/// id 3, device 0x10, status 0x40, flags 0x01, charge 10 (tenths, full).
pub open spec fn wired_report_prefix() -> Seq<u8> {
    seq![0x03u8, 0x10u8, 0x40u8, 0x01u8, 10u8]
}

/// The battery register as read over a cable: a buffer of five bytes or
/// more starts with `wired_report_prefix` and keeps the rest; a shorter
/// buffer is left as it was.
pub fn wired_battery_report(data: &[u8]) -> (r: Vec<u8>)
    ensures
        data@.len() >= 5 ==> r@ == wired_report_prefix() + data@.skip(5),
        data@.len() < 5 ==> r@ == data@,
{
    let mut r: Vec<u8> = Vec::new();
    let n = data.len();
    let mut i: usize = 0;
    while i < n
        invariant
            n == data@.len(),
            i <= n,
            r@.len() == i,
            forall|j: int|
                0 <= j < i ==> r@[j] == (if n >= 5 && j < 5 {
                    wired_report_prefix()[j]
                } else {
                    data@[j]
                }),
        decreases n - i,
    {
        let b = if n >= 5 && i < 5 {
            if i == 0 {
                0x03u8
            } else if i == 1 {
                0x10u8
            } else if i == 2 {
                0x40u8
            } else if i == 3 {
                0x01u8
            } else {
                10u8
            }
        } else {
            data[i]
        };
        r.push(b);
        i = i + 1;
    }
    if n >= 5 {
        assert(r@ =~= wired_report_prefix() + data@.skip(5));
    } else {
        assert(r@ =~= data@);
    }
    r
}

/// The message for an interrupt transfer shorter than the register.
pub open spec fn short_read_message(wanted: nat, got: nat) -> Seq<char> {
    "Expected at least "@ + decimal(wanted) + " bytes on EP 0x83, got "@ + decimal(got)
}

/// Accepts an interrupt transfer of `read_len` bytes into `buf` as the
/// contents of a register of `wanted` bytes: its first `wanted` bytes, or a
/// protocol error when fewer bytes came.
pub fn accept_interrupt_read(buf: &[u8], read_len: usize, wanted: usize) -> (r: Result<
    Vec<u8>,
    DriverError,
>)
    requires
        read_len <= buf@.len(),
    ensures
        read_len >= wanted ==> (r matches Ok(v) && v@ == buf@.take(wanted as int)),
        read_len < wanted ==> (r matches Err(e) && e@ == ErrorView::Protocol(
            short_read_message(wanted as nat, read_len as nat),
        )),
{
    if read_len >= wanted {
        let mut v: Vec<u8> = Vec::new();
        let mut i: usize = 0;
        while i < wanted
            invariant
                i <= wanted <= read_len <= buf@.len(),
                v@ == buf@.take(i as int),
            decreases wanted - i,
        {
            v.push(buf[i]);
            assert(v@ =~= buf@.take(i + 1));
            i = i + 1;
        }
        Ok(v)
    } else {
        let mut text: Vec<char> = Vec::new();
        push_decimal(&mut text, wanted as u64);
        assert(text@ =~= decimal(wanted as nat));
        let mut got: Vec<char> = Vec::new();
        push_decimal(&mut got, read_len as u64);
        assert(got@ =~= decimal(read_len as nat));
        let mut s = String::from_str("Expected at least ");
        s.append(string_from_chars(text.as_slice()).as_str());
        s.append(" bytes on EP 0x83, got ");
        s.append(string_from_chars(got.as_slice()).as_str());
        Err(DriverError::Protocol(s))
    }
}

/// A rate reads back from its frequency, and a frequency that reads as a
/// rate is that rate's frequency.
pub proof fn lemma_polling_rate_hz_round_trip(r: PollingRate, hz: u32)
    ensures
        rate_from_hz(r.spec_hz()) == Some(r),
        rate_from_hz(hz) matches Some(q) ==> q.spec_hz() == hz,
{
}

} // verus!
