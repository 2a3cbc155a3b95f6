//! What a raw Ethernet device reports when it fails.
use vstd::prelude::*;

verus! {

#[derive(Debug, Clone, Copy, PartialEq, Eq, Structural)]
pub enum DeviceError {
    /// The device itself failed.
    Device,
    /// The function handed to the device failed.
    Function,
}

} // verus!
