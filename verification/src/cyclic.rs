//! Handles of cyclic units and the EEPROM header registers.
use vstd::prelude::*;

pub mod sii;
pub mod sii_reader;

pub use crate::socket::EtherCatSystemTime;

verus! {

/// Names a unit's slot.
#[derive(Debug, Clone, Copy)]
pub struct UnitHandle(usize);

impl View for UnitHandle {
    type V = usize;

    closed spec fn view(&self) -> usize {
        self.0
    }
}

impl From<UnitHandle> for usize {
    fn from(handle: UnitHandle) -> (r: usize) {
        handle.0
    }
}

impl vstd::std_specs::convert::FromSpecImpl<UnitHandle> for usize {
    open spec fn obeys_from_spec() -> bool {
        true
    }

    open spec fn from_spec(handle: UnitHandle) -> usize {
        handle@
    }
}

} // verus!
