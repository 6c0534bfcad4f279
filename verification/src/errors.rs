//! Error kinds of the bridge and the accumulator.

use vstd::prelude::*;

verus! {

/// The failures a caller can observe.
///
/// `OpenFailed` comes from `Serial::connect` when the device could not be
/// opened; `NotConnected` from operations on a handle whose liveness flag is
/// false or whose device handle is absent; `LockFailure` from a poisoned
/// shared-state primitive; `DecodeFailure` from a text codec that could not
/// decode a captured chunk.
#[derive(Clone, Copy, Debug, PartialEq, Eq, Structural)]
pub enum SpError {
    OpenFailed,
    NotConnected,
    LockFailure,
    DecodeFailure,
}

impl SpError {
    /// A short description of the error, one fixed string per variant.
    pub fn message(&self) -> (r: &'static str)
        ensures
            *self is OpenFailed ==> r@ == "failed to open the serial port"@,
            *self is NotConnected ==> r@ == "serial port not connected"@,
            *self is LockFailure ==> r@ == "shared connection state is poisoned"@,
            *self is DecodeFailure ==> r@ == "could not decode bytes with the configured codec"@,
    {
        match self {
            SpError::OpenFailed => "failed to open the serial port",
            SpError::NotConnected => "serial port not connected",
            SpError::LockFailure => "shared connection state is poisoned",
            SpError::DecodeFailure => "could not decode bytes with the configured codec",
        }
    }
}

} // verus!
