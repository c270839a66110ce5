//! DPI stages: the values the mouse accepts and their one-byte codes.
use vstd::prelude::*;
use crate::error::{DriverError, ErrorView};

verus! {

/// Number of DPI stages of the mouse.
pub const DPI_STAGES_COUNT: usize = 6;

/// Lowest DPI value.
pub const DPI_MIN: u32 = 100;

/// Highest DPI value.
pub const DPI_MAX: u32 = 18000;

/// Step between DPI values.
pub const DPI_STEP: u32 = 100;

/// A DPI value the mouse accepts: 100 ..= 18000 in steps of 100.
pub open spec fn valid_dpi(dpi: u32) -> bool {
    100 <= dpi <= 18000 && dpi % 100 == 0
}

/// A stage number: 1 ..= 6.
pub open spec fn valid_dpi_stage(stage: u8) -> bool {
    1 <= stage <= 6
}

/// The code of a DPI value in the profile report: the value in hundreds.
pub open spec fn dpi_code(dpi: u32) -> u8 {
    (dpi / 100) as u8
}

/// Checks a DPI value; `InvalidDpi(dpi)` when it is not accepted.
pub fn validate_dpi(dpi: u32) -> (r: Result<(), DriverError>)
    ensures
        valid_dpi(dpi) ==> r is Ok,
        !valid_dpi(dpi) ==> (r matches Err(e) && e@ == ErrorView::InvalidDpi(dpi)),
{
    if dpi >= DPI_MIN && dpi <= DPI_MAX && dpi % DPI_STEP == 0 {
        Ok(())
    } else {
        Err(DriverError::InvalidDpi(dpi))
    }
}

/// Checks a stage number; `InvalidDpiStage(stage)` when it is not 1 ..= 6.
pub fn validate_dpi_stage(stage: u8) -> (r: Result<(), DriverError>)
    ensures
        valid_dpi_stage(stage) ==> r is Ok,
        !valid_dpi_stage(stage) ==> (r matches Err(e) && e@ == ErrorView::InvalidDpiStage(stage)),
{
    if stage >= 1 && stage <= 6 {
        Ok(())
    } else {
        Err(DriverError::InvalidDpiStage(stage))
    }
}

/// The one-byte code of a DPI value, or `InvalidDpi(dpi)`.
pub fn dpi_to_byte(dpi: u32) -> (r: Result<u8, DriverError>)
    ensures
        valid_dpi(dpi) ==> r == Ok::<u8, DriverError>(dpi_code(dpi)),
        !valid_dpi(dpi) ==> (r matches Err(e) && e@ == ErrorView::InvalidDpi(dpi)),
{
    match validate_dpi(dpi) {
        Ok(()) => Ok((dpi / DPI_STEP) as u8),
        Err(e) => Err(e),
    }
}

} // verus!
