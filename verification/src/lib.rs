//! Session-protocol layer for an interactive USB debug client.
//!
//! The device is a microcontroller reached through vendor-defined control
//! transfers. This library holds the verified core of the client: the
//! encoding of the vendor requests, the echo-suppression decoder for the
//! streamed log, the hexadecimal parser and the register-shell command
//! grammar, the error taxonomy that decides which failures end a session,
//! and the reconnect supervisor's state machine. The transfers themselves,
//! and all other I/O, live outside the library.

pub mod console;
pub mod descriptor;
pub mod echo;
pub mod errors;
pub mod hex;
pub mod protocol;
pub mod shell;
pub mod supervisor;

use vstd::prelude::*;

verus! {

/// Vendor and product identity used to discover the device.
///
/// Defaults are the client's canonical target; both can be overridden on
/// the command line.
pub struct DeviceAddress {
    pub vendor_id: u16,
    pub product_id: u16,
}

/// The canonical vendor id the client looks for when none is given.
pub const DEFAULT_VENDOR_ID: u16 = 0x343c;

/// The canonical product id the client looks for when none is given.
pub const DEFAULT_PRODUCT_ID: u16 = 0x5361;

impl DeviceAddress {
    /// The address discovered when no command-line override is present.
    pub fn default_target() -> (r: DeviceAddress)
        ensures
            r.vendor_id == DEFAULT_VENDOR_ID,
            r.product_id == DEFAULT_PRODUCT_ID,
    {
        DeviceAddress { vendor_id: DEFAULT_VENDOR_ID, product_id: DEFAULT_PRODUCT_ID }
    }
}

} // verus!
