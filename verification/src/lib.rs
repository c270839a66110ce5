//! Verified logic of the Attack Shark R1 mouse driver: the battery report,
//! the feature reports that tune the mouse, the INI configuration file, the
//! `/dev/uhid` events of the virtual battery, and the battery daemon's
//! decisions.
#[allow(unused_imports)]
use vstd::prelude::*;

pub mod config;
pub mod daemon;
pub mod dpi;
pub mod driver;
pub mod error;
pub mod protocol;
pub mod reading;
pub mod roundtrip;
pub mod scan;
pub mod seconds;
pub mod text;
pub mod uhid;

pub use config::MouseConfig;
pub use dpi::dpi_to_byte;
pub use driver::BatteryStatus;
pub use error::{DriverError, UsbError};
pub use protocol::PollingRate;
