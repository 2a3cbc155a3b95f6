//! Datagram commands and slave addressing.
use crate::frame::{command_type_code, CommandType};
use vstd::prelude::*;

verus! {

/// Errors of the command interface.
#[derive(Debug, Clone, Copy, PartialEq, Eq, Structural)]
pub enum CommandInterfaceError {
    TxError,
    RxError,
    Busy,
    TooLargeData,
    NotEnoughCapacityLeft,
    TxTimeout,
    RxTimeout,
}

/// Auto-increment address of the slave at ring position `n`: each slave
/// increments the address, so the slave at position `n` sees zero when the
/// datagram carries `-n` (modulo 2^16).
pub open spec fn get_ap_adp_spec(n: u16) -> u16 {
    if n == 0 {
        0
    } else {
        (0x1_0000 - n) as u16
    }
}

pub fn get_ap_adp(slave_number: u16) -> (adp: u16)
    ensures
        adp == get_ap_adp_spec(slave_number),
{
    if slave_number == 0 {
        0
    } else {
        0xFFFF - (slave_number - 1)
    }
}

/// The auto-increment address is the position's negation modulo 2^16, so
/// different positions get different addresses.
pub proof fn lemma_ap_adp_negation(n: u16, m: u16)
    ensures
        (get_ap_adp_spec(n) + n) % 0x1_0000 == 0,
        get_ap_adp_spec(n) == get_ap_adp_spec(m) ==> n == m,
{
}

/// A slave addressed by its configured station address or by its position
/// in the ring.
#[derive(Debug, Clone, Copy, PartialEq, Eq, Structural)]
pub enum SlaveAddress {
    StationAddress(u16),
    SlavePosition(u16),
}

impl SlaveAddress {
    pub open spec fn ado_spec(self) -> u16 {
        match self {
            SlaveAddress::StationAddress(a) => a,
            SlaveAddress::SlavePosition(p) => p,
        }
    }

    /// The number carried by the address, whichever kind it is.
    pub fn get_ado(&self) -> (r: u16)
        ensures
            r == self.ado_spec(),
    {
        match self {
            SlaveAddress::StationAddress(addr) => *addr,
            SlaveAddress::SlavePosition(pos) => *pos,
        }
    }

    pub fn default() -> (r: Self)
        ensures
            r == SlaveAddress::SlavePosition(0),
    {
        SlaveAddress::SlavePosition(0)
    }
}

/// One slave, or all slaves of a network of the given size.
#[derive(Debug, Clone, Copy, PartialEq, Eq, Structural)]
pub enum TargetSlave {
    Single(SlaveAddress),
    All(u16),
}

impl TargetSlave {
    pub open spec fn num_targets_spec(self) -> u16 {
        match self {
            TargetSlave::All(n) => n,
            TargetSlave::Single(_) => 1,
        }
    }

    /// How many slaves answer a datagram to this target.
    pub fn num_targets(&self) -> (r: u16)
        ensures
            r == self.num_targets_spec(),
    {
        if let TargetSlave::All(num) = self {
            *num
        } else {
            1
        }
    }

    pub fn from_address(address: SlaveAddress) -> (r: Self)
        ensures
            r == TargetSlave::Single(address),
    {
        TargetSlave::Single(address)
    }

    pub fn default() -> (r: Self)
        ensures
            r == TargetSlave::Single(SlaveAddress::SlavePosition(0)),
    {
        TargetSlave::Single(SlaveAddress::SlavePosition(0))
    }
}

/// A datagram's command and its two address fields.
#[derive(Debug, Clone, Copy, PartialEq, Eq, Structural)]
pub struct Command {
    pub c_type: CommandType,
    pub adp: u16,
    pub ado: u16,
}

/// The read command for a target: auto-increment, configured-address or
/// broadcast read.
pub open spec fn read_command_spec(target: TargetSlave, ado: u16) -> Command {
    match target {
        TargetSlave::Single(SlaveAddress::SlavePosition(p)) => Command {
            c_type: CommandType::APRD,
            adp: get_ap_adp_spec(p),
            ado,
        },
        TargetSlave::Single(SlaveAddress::StationAddress(a)) => Command {
            c_type: CommandType::FPRD,
            adp: a,
            ado,
        },
        TargetSlave::All(_) => Command { c_type: CommandType::BRD, adp: 0, ado },
    }
}

/// The write command for a target: auto-increment, configured-address or
/// broadcast write.
pub open spec fn write_command_spec(target: TargetSlave, ado: u16) -> Command {
    match target {
        TargetSlave::Single(SlaveAddress::SlavePosition(p)) => Command {
            c_type: CommandType::APWR,
            adp: get_ap_adp_spec(p),
            ado,
        },
        TargetSlave::Single(SlaveAddress::StationAddress(a)) => Command {
            c_type: CommandType::FPWR,
            adp: a,
            ado,
        },
        TargetSlave::All(_) => Command { c_type: CommandType::BWR, adp: 0, ado },
    }
}

impl Command {
    pub fn new(c_type: CommandType, adp: u16, ado: u16) -> (r: Self)
        ensures
            r == (Command { c_type, adp, ado }),
    {
        Command { c_type, adp, ado }
    }

    pub fn default() -> (r: Self)
        ensures
            r == (Command { c_type: CommandType::APRD, adp: 0, ado: 0 }),
    {
        Command::new(CommandType::APRD, 0, 0)
    }

    pub fn new_read(slave_address: TargetSlave, ado: u16) -> (r: Self)
        ensures
            r == read_command_spec(slave_address, ado),
    {
        let (c_type, adp) = match slave_address {
            TargetSlave::Single(addr) => match addr {
                SlaveAddress::SlavePosition(adp) => (CommandType::APRD, get_ap_adp(adp)),
                SlaveAddress::StationAddress(adp) => (CommandType::FPRD, adp),
            },
            TargetSlave::All(_) => (CommandType::BRD, 0),
        };
        Command { c_type, adp, ado }
    }

    pub fn new_write(slave_address: TargetSlave, ado: u16) -> (r: Self)
        ensures
            r == write_command_spec(slave_address, ado),
    {
        let (c_type, adp) = match slave_address {
            TargetSlave::Single(addr) => match addr {
                SlaveAddress::SlavePosition(adp) => (CommandType::APWR, get_ap_adp(adp)),
                SlaveAddress::StationAddress(adp) => (CommandType::FPWR, adp),
            },
            TargetSlave::All(_) => (CommandType::BWR, 0),
        };
        Command { c_type, adp, ado }
    }

    /// A logical read-write command: the low half of the address goes in
    /// `adp`, the high half in `ado`.
    pub fn new_logical_read_write(logical_address: u32) -> (r: Self)
        ensures
            r.c_type == CommandType::LRW,
            r.adp == logical_address % 65536,
            r.ado == logical_address / 65536,
            r.adp + 65536 * r.ado == logical_address,
    {
        assert(logical_address & 0x0000_ffff == logical_address % 65536) by (bit_vector);
        assert(logical_address >> 16u32 == logical_address / 65536) by (bit_vector);
        assert(logical_address / 65536 < 65536) by (bit_vector);
        let adp = (logical_address & 0x0000_ffff) as u16;
        let ado = (logical_address >> 16u32) as u16;
        Command { c_type: CommandType::LRW, adp, ado }
    }
}

/// A read and a write command for the same target and register differ only
/// in their command type, whose code is one more for the write.
pub proof fn lemma_read_write_same_target(target: TargetSlave, ado: u16)
    ensures
        read_command_spec(target, ado).adp == write_command_spec(target, ado).adp,
        read_command_spec(target, ado).ado == ado,
        write_command_spec(target, ado).ado == ado,
        command_type_code(write_command_spec(target, ado).c_type) == command_type_code(
            read_command_spec(target, ado).c_type,
        ) + 1,
{
}

} // verus!
