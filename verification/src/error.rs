//! The error taxonomy shared by the codec and both transports.

use vstd::prelude::*;

verus! {

/// Everything that can go wrong while talking to the device.
///
/// `Unknown` is never the expected outcome of a documented operation; it
/// marks an unclassified internal fault.
#[derive(Debug, PartialEq, Eq)]
pub enum FlipperError {
    /// No radio adapter is present on the host.
    AdapterUnavailable,
    /// Fetching the Bluetooth adapter list failed; carries the cause.
    BTAdapterError(String),
    /// A generic Bluetooth-layer failure; carries the cause.
    BTFailure(String),
    /// A required GATT characteristic is missing after service discovery.
    BTNoCharacteristics,
    /// A serial or radio I/O call failed; carries the cause.
    IOFailure(String),
    /// A frame body, or a decoded length prefix, exceeds the maximum frame
    /// length; carries the offending length.
    DataTooLarge(usize),
    /// An adapter index was out of range.
    OutOfBounds,
    /// An unclassified internal fault.
    Unknown,
}

impl FlipperError {
    /// A short human-readable description of the error kind.
    pub fn message(&self) -> (r: &'static str)
        ensures
            self is AdapterUnavailable ==> r@ == "no radio adapter present"@,
            self is BTAdapterError ==> r@ == "failed to fetch adapter list"@,
            self is BTFailure ==> r@ == "generic BT error"@,
            self is BTNoCharacteristics ==> r@
                == "BT characteristics do not exist; maybe an invalid device?"@,
            self is IOFailure ==> r@ == "failed to do I/O"@,
            self is DataTooLarge ==> r@ == "data too large to process"@,
            self is OutOfBounds ==> r@ == "index out of bounds"@,
            self is Unknown ==> r@ == "unknown internal error"@,
    {
        match self {
            FlipperError::AdapterUnavailable => "no radio adapter present",
            FlipperError::BTAdapterError(_) => "failed to fetch adapter list",
            FlipperError::BTFailure(_) => "generic BT error",
            FlipperError::BTNoCharacteristics => {
                "BT characteristics do not exist; maybe an invalid device?"
            },
            FlipperError::IOFailure(_) => "failed to do I/O",
            FlipperError::DataTooLarge(_) => "data too large to process",
            FlipperError::OutOfBounds => "index out of bounds",
            FlipperError::Unknown => "unknown internal error",
        }
    }
}

} // verus!
