//! Configuration records of the master.
use crate::al_state::AlState;
use vstd::prelude::*;

verus! {

pub struct EtherCATCommand {}

pub struct MailboxCommand {}

/// An SDO access done on a state transition.
pub struct CoECommand {
    transition: AlState,
    timeout_ns: u32,
    command_type: CoECommnadType,
    index: u16,
    sub_index: u8,
    data: [u8; 4],
}

pub enum CoECommnadType {
    SDOUpload,
    SDODownload,
}

/// A process data entry: its logical address and bit length.
pub struct EntryConfig {
    address: u32,
    bit_length: u32,
}

pub struct MailboxConfig {
    coe: Option<CoEConfig>,
}

pub struct CoEConfig {}

pub struct DCConfig {
    sync0_cycle_time_ns: Option<u32>,
}

} // verus!
