//! Error taxonomy of the session layer.
//!
//! Every transport failure a control transfer can report is classified
//! into one of three tags, so that fatality decisions are exhaustive
//! matches rather than ad hoc kind tests. A timeout on a log poll means
//! "no data right now"; a disconnect always ends the session; anything
//! else depends on which mode saw it.

use vstd::prelude::*;

verus! {

/// A failed control transfer, reduced to what the session layer decides on.
#[derive(Clone, Copy, PartialEq, Eq, Structural, Debug)]
pub enum TransportError {
    /// The transfer's own timeout elapsed. On a log poll this is the
    /// expected "nothing to report now" outcome, not a failure.
    Timeout,
    /// Broken pipe, connection aborted, not connected: the device is gone
    /// or the interface was invalidated. Always fatal.
    Disconnected,
    /// Any other transfer failure, such as a one-off stall.
    Other,
}

/// How a session ended: the operator asked to leave, or a transport
/// failure made the stream untrustworthy.
#[derive(Clone, Copy, PartialEq, Eq, Structural, Debug)]
pub enum SessionEnd {
    Clean,
    Fatal(TransportError),
}

/// Whether a failed log poll ends the Log Console session. Only a
/// timeout is survivable there: the stream cannot be trusted to
/// resynchronise after any other failure.
pub fn log_error_is_fatal(e: &TransportError) -> (r: bool)
    ensures
        r == !(e is Timeout),
{
    match e {
        TransportError::Timeout => false,
        TransportError::Disconnected => true,
        TransportError::Other => true,
    }
}

/// Whether a failed register request ends the Register Shell session.
/// Only a disconnect is fatal; any other failure is reported to the
/// operator and the shell carries on with the next command.
pub fn shell_error_is_fatal(e: &TransportError) -> (r: bool)
    ensures
        r == (e is Disconnected),
{
    match e {
        TransportError::Timeout => false,
        TransportError::Disconnected => true,
        TransportError::Other => false,
    }
}

} // verus!
