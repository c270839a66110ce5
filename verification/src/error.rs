//! Errors of the driver, with their messages.
use vstd::prelude::*;
use crate::text::{decimal, seconds_text, push_decimal, push_seconds, string_from_chars};

verus! {

/// `std::io::Error` travels through the library unopened.
#[verifier::external_type_specification]
#[verifier::external_body]
pub struct ExIoError(std::io::Error);

/// A libusb failure, one variant per variant of `rusb::Error`.
#[derive(Debug, Clone, Copy, PartialEq, Eq, Structural)]
pub enum UsbError {
    Io,
    InvalidParam,
    Access,
    NoDevice,
    NotFound,
    Busy,
    Timeout,
    Overflow,
    Pipe,
    Interrupted,
    NoMem,
    NotSupported,
    BadDescriptor,
    Other,
}

/// What `rusb::Error`'s `Display` writes for each variant.
pub open spec fn usb_error_description(e: UsbError) -> Seq<char> {
    match e {
        UsbError::Io => "Input/Output Error"@,
        UsbError::InvalidParam => "Invalid parameter"@,
        UsbError::Access => "Access denied (insufficient permissions)"@,
        UsbError::NoDevice => "No such device (it may have been disconnected)"@,
        UsbError::NotFound => "Entity not found"@,
        UsbError::Busy => "Resource busy"@,
        UsbError::Timeout => "Operation timed out"@,
        UsbError::Overflow => "Overflow"@,
        UsbError::Pipe => "Pipe error"@,
        UsbError::Interrupted => "System call interrupted (perhaps due to signal)"@,
        UsbError::NoMem => "Insufficient memory"@,
        UsbError::NotSupported => "Operation not supported or unimplemented on this platform"@,
        UsbError::BadDescriptor => "Malformed descriptor"@,
        UsbError::Other => "Other error"@,
    }
}

/// The text of `rusb::Error`'s `Display` impl (`to_string`). Claimed: it is
/// the fixed text of `usb_error_description`, one per variant, as rusb's
/// source writes it.
#[verifier::external_body]
fn usb_error_text(e: UsbError) -> (s: String)
    ensures
        s@ == usb_error_description(e),
{
    let err = match e {
        UsbError::Io => rusb::Error::Io, UsbError::InvalidParam => rusb::Error::InvalidParam,
        UsbError::Access => rusb::Error::Access, UsbError::NoDevice => rusb::Error::NoDevice,
        UsbError::NotFound => rusb::Error::NotFound, UsbError::Busy => rusb::Error::Busy,
        UsbError::Timeout => rusb::Error::Timeout, UsbError::Overflow => rusb::Error::Overflow,
        UsbError::Pipe => rusb::Error::Pipe, UsbError::Interrupted => rusb::Error::Interrupted,
        UsbError::NoMem => rusb::Error::NoMem, UsbError::NotSupported => rusb::Error::NotSupported,
        UsbError::BadDescriptor => rusb::Error::BadDescriptor, UsbError::Other => rusb::Error::Other,
    };
    err.to_string()
}

/// The text of `std::io::Error`'s `Display`. Nothing is claimed of it: for
/// an error of the operating system it is the system's message, which
/// depends on the machine and its locale.
#[verifier::external_body]
fn io_error_text(e: &std::io::Error) -> (s: String) {
    e.to_string()
}

/// Errors of the driver.
#[derive(Debug)]
pub enum DriverError {
    DeviceNotFound,
    Usb(UsbError),
    ClaimInterface(UsbError),
    InvalidPollingRate(u32),
    InvalidDpi(u32),
    InvalidDpiStage(u8),
    /// A sleep delay outside 0.5 s ..= 30 s, in milliseconds.
    InvalidSleepTime(u32),
    InvalidDeepSleepTime(u8),
    InvalidKeyResponseTime(u8),
    Config(String),
    Io(std::io::Error),
    Protocol(String),
    Timeout,
}

/// An I/O failure is an `Io` error.
impl From<std::io::Error> for DriverError {
    fn from(e: std::io::Error) -> (r: DriverError) {
        DriverError::Io(e)
    }
}

impl vstd::std_specs::convert::FromSpecImpl<std::io::Error> for DriverError {
    open spec fn obeys_from_spec() -> bool {
        true
    }

    open spec fn from_spec(v: std::io::Error) -> DriverError {
        DriverError::Io(v)
    }
}

/// A libusb failure is a `Usb` error.
impl From<UsbError> for DriverError {
    fn from(e: UsbError) -> (r: DriverError) {
        DriverError::Usb(e)
    }
}

impl vstd::std_specs::convert::FromSpecImpl<UsbError> for DriverError {
    open spec fn obeys_from_spec() -> bool {
        true
    }

    open spec fn from_spec(v: UsbError) -> DriverError {
        DriverError::Usb(v)
    }
}

/// A `DriverError` seen as a mathematical value: texts as character sequences.
pub enum ErrorView {
    DeviceNotFound,
    Usb(UsbError),
    ClaimInterface(UsbError),
    InvalidPollingRate(u32),
    InvalidDpi(u32),
    InvalidDpiStage(u8),
    InvalidSleepTime(u32),
    InvalidDeepSleepTime(u8),
    InvalidKeyResponseTime(u8),
    Config(Seq<char>),
    Io(std::io::Error),
    Protocol(Seq<char>),
    Timeout,
}

impl View for DriverError {
    type V = ErrorView;

    open spec fn view(&self) -> ErrorView {
        match self {
            DriverError::DeviceNotFound => ErrorView::DeviceNotFound,
            DriverError::Usb(e) => ErrorView::Usb(*e),
            DriverError::ClaimInterface(e) => ErrorView::ClaimInterface(*e),
            DriverError::InvalidPollingRate(r) => ErrorView::InvalidPollingRate(*r),
            DriverError::InvalidDpi(d) => ErrorView::InvalidDpi(*d),
            DriverError::InvalidDpiStage(s) => ErrorView::InvalidDpiStage(*s),
            DriverError::InvalidSleepTime(t) => ErrorView::InvalidSleepTime(*t),
            DriverError::InvalidDeepSleepTime(t) => ErrorView::InvalidDeepSleepTime(*t),
            DriverError::InvalidKeyResponseTime(t) => ErrorView::InvalidKeyResponseTime(*t),
            DriverError::Config(m) => ErrorView::Config(m@),
            DriverError::Io(e) => ErrorView::Io(*e),
            DriverError::Protocol(m) => ErrorView::Protocol(m@),
            DriverError::Timeout => ErrorView::Timeout,
        }
    }
}

/// A result with its error seen through `ErrorView`.
pub open spec fn result_view<T>(r: Result<T, DriverError>) -> Result<T, ErrorView> {
    match r {
        Ok(v) => Ok(v),
        Err(e) => Err(e@),
    }
}

/// The message of an error other than `Io` (whose text comes from the
/// operating system).
pub open spec fn error_message(e: ErrorView) -> Seq<char> {
    match e {
        ErrorView::DeviceNotFound => "Attack Shark R1 mouse not found (neither wireless 0x1d57:0xfa60 nor wired 0x1d57:0xfa61)"@,
        ErrorView::Usb(u) => "USB error: "@ + usb_error_description(u),
        ErrorView::ClaimInterface(u) => "Failed to claim USB interface: "@ + usb_error_description(u),
        ErrorView::InvalidPollingRate(r) => "Invalid polling rate: "@ + decimal(r as nat)
            + "Hz (supported: 125, 250, 500, 1000)"@,
        ErrorView::InvalidDpi(d) => "Invalid DPI value: "@ + decimal(d as nat)
            + " (must be 100..=18000 in multiples of 100)"@,
        ErrorView::InvalidDpiStage(s) => "Invalid DPI stage index: "@ + decimal(s as nat)
            + " (must be 1..=6)"@,
        ErrorView::InvalidSleepTime(t) => "Invalid sleep time: "@ + seconds_text(t as nat)
            + "s (must be 0.5s..=30.0s)"@,
        ErrorView::InvalidDeepSleepTime(t) => "Invalid deep sleep time: "@ + decimal(t as nat)
            + "min (must be 1min..=60min)"@,
        ErrorView::InvalidKeyResponseTime(t) => "Invalid key response time: "@ + decimal(t as nat)
            + "ms (must be an even number between 4ms and 50ms)"@,
        ErrorView::Config(m) => "Configuration error: "@ + m,
        ErrorView::Io(_) => "IO error: "@,
        ErrorView::Protocol(m) => "Device protocol error: "@ + m,
        ErrorView::Timeout => "Timeout waiting for device response"@,
    }
}

/// `prefix`, the decimal text of `n`, then `suffix`.
fn number_message(prefix: &str, n: u64, suffix: &str) -> (s: String)
    ensures
        s@ == prefix@ + decimal(n as nat) + suffix@,
{
    let mut digits: Vec<char> = Vec::new();
    push_decimal(&mut digits, n);
    assert(digits@ =~= decimal(n as nat));
    let mut s = String::from_str(prefix);
    s.append(string_from_chars(digits.as_slice()).as_str());
    s.append(suffix);
    s
}

impl DriverError {
    /// The human-readable message of the error. For `Io` it is
    /// `"IO error: "` followed by the operating system's text.
    pub fn to_string(&self) -> (s: String)
        ensures
            !(self@ is Io) ==> s@ == error_message(self@),
            self@ is Io ==> s@.len() >= error_message(self@).len() && s@.take(
                error_message(self@).len() as int,
            ) == error_message(self@),
    {
        match self {
            DriverError::DeviceNotFound => String::from_str(
                "Attack Shark R1 mouse not found (neither wireless 0x1d57:0xfa60 nor wired 0x1d57:0xfa61)",
            ),
            DriverError::Usb(e) => {
                let mut s = String::from_str("USB error: ");
                s.append(usb_error_text(*e).as_str());
                s
            },
            DriverError::ClaimInterface(e) => {
                let mut s = String::from_str("Failed to claim USB interface: ");
                s.append(usb_error_text(*e).as_str());
                s
            },
            DriverError::InvalidPollingRate(r) => number_message(
                "Invalid polling rate: ",
                *r as u64,
                "Hz (supported: 125, 250, 500, 1000)",
            ),
            DriverError::InvalidDpi(d) => number_message(
                "Invalid DPI value: ",
                *d as u64,
                " (must be 100..=18000 in multiples of 100)",
            ),
            DriverError::InvalidDpiStage(st) => number_message(
                "Invalid DPI stage index: ",
                *st as u64,
                " (must be 1..=6)",
            ),
            DriverError::InvalidSleepTime(t) => {
                let mut text: Vec<char> = Vec::new();
                push_seconds(&mut text, *t);
                assert(text@ =~= seconds_text(*t as nat));
                let mut s = String::from_str("Invalid sleep time: ");
                s.append(string_from_chars(text.as_slice()).as_str());
                s.append("s (must be 0.5s..=30.0s)");
                s
            },
            DriverError::InvalidDeepSleepTime(t) => number_message(
                "Invalid deep sleep time: ",
                *t as u64,
                "min (must be 1min..=60min)",
            ),
            DriverError::InvalidKeyResponseTime(t) => number_message(
                "Invalid key response time: ",
                *t as u64,
                "ms (must be an even number between 4ms and 50ms)",
            ),
            DriverError::Config(m) => {
                let mut s = String::from_str("Configuration error: ");
                s.append(m.as_str());
                s
            },
            DriverError::Io(e) => {
                let mut s = String::from_str("IO error: ");
                let ghost head = s@;
                s.append(io_error_text(e).as_str());
                assert(s@.take(head.len() as int) =~= head);
                s
            },
            DriverError::Protocol(m) => {
                let mut s = String::from_str("Device protocol error: ");
                s.append(m.as_str());
                s
            },
            DriverError::Timeout => String::from_str("Timeout waiting for device response"),
        }
    }
}

} // verus!
