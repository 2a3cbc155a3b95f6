//! The cyclic tasks: each drives one datagram per cycle through a socket.
use vstd::prelude::*;

pub mod logical_process_data;
pub mod rx_error_checker;
pub mod al_state_reader;

pub mod dc_drift_comp;
pub mod al_state_transfer;
pub mod sii_reader;
pub mod mailbox;
pub mod mailbox_reader;
pub mod mailbox_writer;
pub mod ram_access_unit;

verus! {

/// `x + 1`, staying at the maximum.
pub open spec fn inc_sat(x: usize) -> usize {
    if x < usize::MAX {
        (x + 1) as usize
    } else {
        x
    }
}

pub fn saturating_inc(x: usize) -> (r: usize)
    ensures
        r == inc_sat(x),
{
    if x < usize::MAX {
        x + 1
    } else {
        x
    }
}

} // verus!
