//! What can go wrong while talking to a device.

use vstd::prelude::*;

use crate::wire::KisPortal;

verus! {

/// Why an operation on a device failed. `E` is the transport's own error: what
/// the exchange of a request and its reply failed with.
#[derive(Debug, PartialEq, Eq)]
pub enum DebugUsbError<E> {
    /// No DebugUSB device is attached.
    DeviceNotFound,
    /// The endpoint of the portal is not known for devices of the version.
    MissingEndpoint(KisPortal, u16),
    /// The exchange failed; its error is passed on as it is.
    Request(E),
    /// The exchange failed; its error is the cause of an I/O error.
    Io(E),
    /// The device did not perform the read.
    Read,
    /// The data is neither a whole number of words nor at most one word.
    Alignment,
    /// None of the guessed addresses answers.
    UnknownBase,
}

} // verus!
