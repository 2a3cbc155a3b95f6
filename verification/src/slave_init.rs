//! Bringing one slave from power-up to a known Init state and learning what
//! it is: its ports, features and RAM, its identity and mailboxes from the
//! EEPROM, its mailbox sync managers, its station address and its clock
//! registers, one access at a time.
use crate::al_state::AlState;
use crate::bytes::{le16, read_le16};
use crate::command::{read_command_spec, write_command_spec, Command, SlaveAddress, TargetSlave};
use crate::error::EcError;
use crate::tasks::al_state_transfer;
use crate::tasks::sii_reader::SiiTaskError;
use crate::cyclic::sii_reader::sii_reg;
use crate::process_data::{process_data_ram, process_data_ram_ok, set_process_data_sm_size_offset};
use crate::register::{
    bit_of, read_bit, CyclicOperationStartTime, DcActivation, DlControl, DlInformation, DlStatus,
    DlUserWatchDog, FixedStationAddress, FmmuRegister, PdiControl, RxErrorCounter, Sync0CycleTime,
    Sync1CycleTime, SyncManagerActivation, SyncManagerChannelWatchDog, SyncManagerControl,
    SyncManagerStatus, WatchDogDivider,
};
use vstd::prelude::*;

verus! {

/// What a sync manager of the slave is used for.
#[derive(Debug, Clone, Copy, PartialEq, Eq, Structural)]
pub enum SyncManager {
    MailboxRx { start_address: u16, size: u16 },
    MailboxTx { start_address: u16, size: u16 },
    ProcessDataRx,
    ProcessDataTx,
}

/// What the initialization learns of a slave.
#[derive(Debug, Clone, Copy)]
pub struct SlaveInfo {
    pub al_state: AlState,
    /// Ports 0 to 3 communicate.
    pub linked_ports: (bool, bool, bool, bool),
    /// The two-bit types of ports 0 to 3 (not implemented, not configured,
    /// EBUS, MII).
    pub port_types: (u8, u8, u8, u8),
    pub support_dc: bool,
    pub is_dc_range_64bits: bool,
    pub support_fmmu_bit_operation: bool,
    pub support_lrw: bool,
    pub support_rw: bool,
    pub ram_size_kb: u8,
    pub number_of_fmmu: u8,
    pub number_of_sm: u8,
    pub vender_id: u16,
    pub product_code: u16,
    pub revision_number: u16,
    pub support_coe: bool,
    pub sm0: Option<SyncManager>,
    pub sm1: Option<SyncManager>,
    pub sm2: Option<SyncManager>,
    pub sm3: Option<SyncManager>,
    pub pdo_start_address: Option<u16>,
    pub pdo_ram_size: u16,
    pub strict_al_control: bool,
    pub configured_address: u16,
}

impl SlaveInfo {
    pub open spec fn default_spec() -> SlaveInfo {
        SlaveInfo {
            al_state: AlState::Init,
            linked_ports: (false, false, false, false),
            port_types: (0, 0, 0, 0),
            support_dc: false,
            is_dc_range_64bits: false,
            support_fmmu_bit_operation: false,
            support_lrw: false,
            support_rw: false,
            ram_size_kb: 0,
            number_of_fmmu: 0,
            number_of_sm: 0,
            vender_id: 0,
            product_code: 0,
            revision_number: 0,
            support_coe: false,
            sm0: None,
            sm1: None,
            sm2: None,
            sm3: None,
            pdo_start_address: None,
            pdo_ram_size: 0,
            strict_al_control: false,
            configured_address: 0,
        }
    }

    /// A slave that nothing is known of yet.
    pub fn default() -> (r: Self)
        ensures
            r == Self::default_spec(),
    {
        SlaveInfo {
            al_state: AlState::Init,
            linked_ports: (false, false, false, false),
            port_types: (0, 0, 0, 0),
            support_dc: false,
            is_dc_range_64bits: false,
            support_fmmu_bit_operation: false,
            support_lrw: false,
            support_rw: false,
            ram_size_kb: 0,
            number_of_fmmu: 0,
            number_of_sm: 0,
            vender_id: 0,
            product_code: 0,
            revision_number: 0,
            support_coe: false,
            sm0: None,
            sm1: None,
            sm2: None,
            sm3: None,
            pdo_start_address: None,
            pdo_ram_size: 0,
            strict_al_control: false,
            configured_address: 0,
        }
    }
}

/// Why the initialization of a slave failed.
#[derive(Debug, Clone, Copy, PartialEq, Eq, Structural)]
pub enum SlaveInitError {
    /// The transfer to Init failed.
    AlStateTransition(al_state_transfer::Error),
    /// Reading the EEPROM failed.
    SiiRead(SiiTaskError),
    /// The slave's PDI is not operational: its EEPROM was not loaded.
    FailedToLoadEEPROM,
}

/// Where the initialization stands.
#[derive(Debug, Clone, Copy, PartialEq, Eq, Structural)]
pub enum SlaveInitStep {
    Idle,
    SetLoopPort,
    RequestInitState,
    ResetErrorCount,
    SetWatchDogDivider,
    DisableDlWatchDog,
    DisableSmWatchDog,
    CheckDlStatus,
    CheckDlInfo,
    ClearFmmu(u16),
    ClearSm(u16),
    GetVenderID,
    GetProductCode,
    GetRevision,
    GetProtocol,
    GetRxMailboxSize,
    GetRxMailboxOffset,
    GetTxMailboxSize,
    GetTxMailboxOffset,
    SetSm0Control,
    SetSm0Activation,
    SetSm1Control,
    SetSm1Activation,
    SetStationAddress,
    CheckPdiControl,
    ClearDcActivation,
    ClearCyclicOperationStartTime,
    ClearSync0CycleTime,
    ClearSync1CycleTime,
    Complete,
    Failed(EcError<SlaveInitError>),
}

/// One thing to do for the slave: a register write or read, the transfer
/// of its AL state to Init, or the read of an EEPROM word.
#[derive(Debug)]
pub enum InitAccess {
    WriteRegister { address: u16, data: Vec<u8> },
    ReadRegister { address: u16, size: usize },
    TransferToInit,
    ReadSii { address: u16 },
    Done,
}

/// An access, its data taken as a sequence.
pub enum InitAccessModel {
    WriteRegister { address: u16, data: Seq<u8> },
    ReadRegister { address: u16, size: usize },
    TransferToInit,
    ReadSii { address: u16 },
    Done,
}

impl View for InitAccess {
    type V = InitAccessModel;

    open spec fn view(&self) -> InitAccessModel {
        match self {
            InitAccess::WriteRegister { address, data } => InitAccessModel::WriteRegister {
                address: *address,
                data: data@,
            },
            InitAccess::ReadRegister { address, size } => InitAccessModel::ReadRegister {
                address: *address,
                size: *size,
            },
            InitAccess::TransferToInit => InitAccessModel::TransferToInit,
            InitAccess::ReadSii { address } => InitAccessModel::ReadSii { address: *address },
            InitAccess::Done => InitAccessModel::Done,
        }
    }
}

/// The steps that make a register access.
pub open spec fn is_register_step(step: SlaveInitStep) -> bool {
    !(step is Idle || step is RequestInitState || is_sii_step(step) || step is Complete || step is Failed)
}

/// The steps that read an EEPROM word.
pub open spec fn is_sii_step(step: SlaveInitStep) -> bool {
    ||| step is GetVenderID
    ||| step is GetProductCode
    ||| step is GetRevision
    ||| step is GetProtocol
    ||| step is GetRxMailboxSize
    ||| step is GetRxMailboxOffset
    ||| step is GetTxMailboxSize
    ||| step is GetTxMailboxOffset
}

/// An error of the transfer to Init, as the initialization reports it.
pub open spec fn transfer_error(e: EcError<al_state_transfer::Error>) -> EcError<SlaveInitError> {
    match e {
        EcError::TaskSpecific(t) => EcError::TaskSpecific(SlaveInitError::AlStateTransition(t)),
        EcError::UnexpectedCommand => EcError::UnexpectedCommand,
        EcError::LostPacket => EcError::LostPacket,
        EcError::UnexpectedWkc(w) => EcError::UnexpectedWkc(w),
        EcError::Interface(i) => EcError::Interface(i),
        EcError::Timeout => EcError::Timeout,
    }
}

/// An error of an EEPROM read, as the initialization reports it.
pub open spec fn sii_error(e: EcError<SiiTaskError>) -> EcError<SlaveInitError> {
    match e {
        EcError::TaskSpecific(t) => EcError::TaskSpecific(SlaveInitError::SiiRead(t)),
        EcError::UnexpectedCommand => EcError::UnexpectedCommand,
        EcError::LostPacket => EcError::LostPacket,
        EcError::UnexpectedWkc(w) => EcError::UnexpectedWkc(w),
        EcError::Interface(i) => EcError::Interface(i),
        EcError::Timeout => EcError::Timeout,
    }
}

/// What a step gives back: the error it ended with, or nothing.
pub open spec fn step_result(step: SlaveInitStep) -> Result<(), EcError<SlaveInitError>> {
    match step {
        SlaveInitStep::Failed(e) => Err(e),
        _ => Ok(()),
    }
}

/// Initializes one slave, addressed by its position.
#[derive(Debug, Clone, Copy)]
pub struct SlaveInitializer {
    pub slave_address: SlaveAddress,
    pub step: SlaveInitStep,
    pub slave_info: SlaveInfo,
}

/// `n` zero bytes.
pub open spec fn zeros(n: nat) -> Seq<u8> {
    Seq::new(n, |i: int| 0u8)
}

/// `n` zero bytes.
pub fn zero_vec(n: usize) -> (r: Vec<u8>)
    ensures
        r@ == zeros(n as nat),
{
    let mut v: Vec<u8> = Vec::new();
    let mut k: usize = 0;
    while k < n
        invariant
            k <= n,
            v@ == zeros(k as nat),
        decreases n - k,
    {
        v.push(0);
        k = k + 1;
        assert(v@ =~= zeros(k as nat));
    }
    v
}

/// The station address the slave is given: its position plus one, or the
/// station address it is addressed by.
pub open spec fn station_address(a: SlaveAddress) -> u16 {
    match a {
        SlaveAddress::SlavePosition(p) => (p + 1) as u16,
        SlaveAddress::StationAddress(s) => s,
    }
}

/// The sync manager channel of a mailbox: the start and size of the
/// mailbox, the mailbox mode, the direction (`control` holds both and the
/// DLS-user event); zeros for anything else.
pub open spec fn mailbox_sm_control(sm: Option<SyncManager>, rx: bool) -> Seq<u8> {
    match sm {
        Some(SyncManager::MailboxRx { start_address, size }) if rx => seq![
            (start_address % 256) as u8,
            (start_address / 256) as u8,
            (size % 256) as u8,
            (size / 256) as u8,
            0x26u8,
        ],
        Some(SyncManager::MailboxTx { start_address, size }) if !rx => seq![
            (start_address % 256) as u8,
            (start_address / 256) as u8,
            (size % 256) as u8,
            (size / 256) as u8,
            0x22u8,
        ],
        _ => zeros(SyncManagerControl::SIZE as nat),
    }
}

/// The activation of a mailbox sync manager: enabled where the slave has
/// that mailbox.
pub open spec fn mailbox_sm_activation(sm: Option<SyncManager>, rx: bool) -> Seq<u8> {
    match sm {
        Some(SyncManager::MailboxRx { .. }) if rx => seq![1u8],
        Some(SyncManager::MailboxTx { .. }) if !rx => seq![1u8],
        _ => seq![0u8],
    }
}

/// The access that the initialization makes at its current step.
pub open spec fn init_access_spec(c: SlaveInitializer) -> InitAccessModel {
    match c.step {
        SlaveInitStep::SetLoopPort => InitAccessModel::WriteRegister {
            address: DlControl::ADDRESS,
            data: seq![0x01u8, 0x00u8, 0x07u8, 0x00u8],
        },
        SlaveInitStep::RequestInitState => InitAccessModel::TransferToInit,
        SlaveInitStep::ResetErrorCount => InitAccessModel::WriteRegister {
            address: RxErrorCounter::ADDRESS,
            data: zeros(RxErrorCounter::SIZE as nat),
        },
        SlaveInitStep::SetWatchDogDivider => InitAccessModel::WriteRegister {
            address: WatchDogDivider::ADDRESS,
            data: seq![0xC2u8, 0x09u8],
        },
        SlaveInitStep::DisableDlWatchDog => InitAccessModel::WriteRegister {
            address: DlUserWatchDog::ADDRESS,
            data: zeros(DlUserWatchDog::SIZE as nat),
        },
        SlaveInitStep::DisableSmWatchDog => InitAccessModel::WriteRegister {
            address: SyncManagerChannelWatchDog::ADDRESS,
            data: zeros(SyncManagerChannelWatchDog::SIZE as nat),
        },
        SlaveInitStep::CheckDlStatus => InitAccessModel::ReadRegister {
            address: DlStatus::ADDRESS,
            size: DlStatus::SIZE,
        },
        SlaveInitStep::CheckDlInfo => InitAccessModel::ReadRegister {
            address: DlInformation::ADDRESS,
            size: DlInformation::SIZE,
        },
        SlaveInitStep::ClearFmmu(n) => InitAccessModel::WriteRegister {
            address: (FmmuRegister::ADDRESS + n * 0x10) as u16,
            data: zeros(FmmuRegister::SIZE as nat),
        },
        SlaveInitStep::ClearSm(n) => InitAccessModel::WriteRegister {
            address: (SyncManagerControl::ADDRESS + n * 0x08) as u16,
            data: zeros((SyncManagerControl::SIZE + SyncManagerStatus::SIZE + SyncManagerActivation::SIZE) as nat),
        },
        SlaveInitStep::GetVenderID => InitAccessModel::ReadSii { address: sii_reg::VenderID::ADDRESS },
        SlaveInitStep::GetProductCode => InitAccessModel::ReadSii { address: sii_reg::ProductCode::ADDRESS },
        SlaveInitStep::GetRevision => InitAccessModel::ReadSii { address: sii_reg::RevisionNumber::ADDRESS },
        SlaveInitStep::GetProtocol => InitAccessModel::ReadSii { address: sii_reg::MailboxProtocol::ADDRESS },
        SlaveInitStep::GetRxMailboxSize => InitAccessModel::ReadSii {
            address: sii_reg::StandardRxMailboxSize::ADDRESS,
        },
        SlaveInitStep::GetRxMailboxOffset => InitAccessModel::ReadSii {
            address: sii_reg::StandardRxMailboxOffset::ADDRESS,
        },
        SlaveInitStep::GetTxMailboxSize => InitAccessModel::ReadSii {
            address: sii_reg::StandardTxMailboxSize::ADDRESS,
        },
        SlaveInitStep::GetTxMailboxOffset => InitAccessModel::ReadSii {
            address: sii_reg::StandardTxMailboxOffset::ADDRESS,
        },
        SlaveInitStep::SetSm0Control => InitAccessModel::WriteRegister {
            address: SyncManagerControl::ADDRESS,
            data: mailbox_sm_control(c.slave_info.sm0, true),
        },
        SlaveInitStep::SetSm0Activation => InitAccessModel::WriteRegister {
            address: SyncManagerActivation::ADDRESS,
            data: mailbox_sm_activation(c.slave_info.sm0, true),
        },
        SlaveInitStep::SetSm1Control => InitAccessModel::WriteRegister {
            address: (SyncManagerControl::ADDRESS + 0x08) as u16,
            data: mailbox_sm_control(c.slave_info.sm1, false),
        },
        SlaveInitStep::SetSm1Activation => InitAccessModel::WriteRegister {
            address: (SyncManagerActivation::ADDRESS + 0x08) as u16,
            data: mailbox_sm_activation(c.slave_info.sm1, false),
        },
        SlaveInitStep::SetStationAddress => {
            let a = station_address(c.slave_address);
            InitAccessModel::WriteRegister {
                address: FixedStationAddress::ADDRESS,
                data: seq![(a % 256) as u8, (a / 256) as u8],
            }
        },
        SlaveInitStep::CheckPdiControl => InitAccessModel::ReadRegister {
            address: PdiControl::ADDRESS,
            size: PdiControl::SIZE,
        },
        SlaveInitStep::ClearDcActivation => InitAccessModel::WriteRegister {
            address: DcActivation::ADDRESS,
            data: zeros(DcActivation::SIZE as nat),
        },
        SlaveInitStep::ClearCyclicOperationStartTime => InitAccessModel::WriteRegister {
            address: CyclicOperationStartTime::ADDRESS,
            data: zeros(CyclicOperationStartTime::SIZE as nat),
        },
        SlaveInitStep::ClearSync0CycleTime => InitAccessModel::WriteRegister {
            address: Sync0CycleTime::ADDRESS,
            data: zeros(Sync0CycleTime::SIZE as nat),
        },
        SlaveInitStep::ClearSync1CycleTime => InitAccessModel::WriteRegister {
            address: Sync1CycleTime::ADDRESS,
            data: zeros(Sync1CycleTime::SIZE as nat),
        },
        _ => InitAccessModel::Done,
    }
}

/// The command of the register access of the current step: a write or a
/// read of the slave at its address.
pub open spec fn init_command_spec(c: SlaveInitializer) -> Option<Command> {
    match init_access_spec(c) {
        InitAccessModel::WriteRegister { address, .. } => Some(
            write_command_spec(TargetSlave::Single(c.slave_address), address),
        ),
        InitAccessModel::ReadRegister { address, .. } => Some(
            read_command_spec(TargetSlave::Single(c.slave_address), address),
        ),
        _ => None,
    }
}

/// The reply carries the command of the current register access (its type
/// and register).
pub open spec fn command_matches(c: SlaveInitializer, cmd: Command) -> bool {
    init_command_spec(c) matches Some(e) && cmd.c_type == e.c_type && cmd.ado == e.ado
}

/// The slave info with the process data RAM placed around the mailboxes:
/// where both mailboxes are there, the larger free block; else none.
pub open spec fn with_process_data_ram(i: SlaveInfo) -> SlaveInfo {
    match (i.sm0, i.sm1) {
        (
            Some(SyncManager::MailboxRx { start_address: a0, size: s0 }),
            Some(SyncManager::MailboxTx { start_address: a1, size: s1 }),
        ) => {
            let (start, size) = process_data_ram(a0 as int, s0 as int, a1 as int, s1 as int, i.ram_size_kb as int);
            SlaveInfo { pdo_start_address: Some(start as u16), pdo_ram_size: size as u16, ..i }
        },
        _ => SlaveInfo { pdo_start_address: None, ..i },
    }
}

/// What a reply at the current step must hold: enough bytes, and mailboxes
/// and RAM whose addresses stay inside 16 bits when the process data RAM
/// is placed.
pub open spec fn init_reply_ok(c: SlaveInitializer, reply: Seq<u8>) -> bool {
    match c.step {
        SlaveInitStep::CheckDlStatus | SlaveInitStep::CheckPdiControl => reply.len() >= 2,
        SlaveInitStep::CheckDlInfo => reply.len() >= DlInformation::SIZE,
        SlaveInitStep::GetProtocol => reply.len() >= 1,
        SlaveInitStep::GetVenderID | SlaveInitStep::GetProductCode | SlaveInitStep::GetRevision
        | SlaveInitStep::GetRxMailboxSize | SlaveInitStep::GetRxMailboxOffset
        | SlaveInitStep::GetTxMailboxSize => reply.len() >= 2,
        SlaveInitStep::GetTxMailboxOffset => reply.len() >= 2 && {
            let i = c.slave_info;
            let sm1 = match i.sm1 {
                Some(SyncManager::MailboxTx { size, .. }) => Some(
                    SyncManager::MailboxTx { start_address: le16(reply, 0) as u16, size },
                ),
                other => other,
            };
            match (i.sm0, sm1) {
                (
                    Some(SyncManager::MailboxRx { start_address: a0, size: s0 }),
                    Some(SyncManager::MailboxTx { start_address: a1, size: s1 }),
                ) => process_data_ram_ok(a0, s0, a1, s1, i.ram_size_kb),
                _ => true,
            }
        },
        _ => true,
    }
}

/// The slave info after the data link information `r`.
pub open spec fn with_dl_info(i: SlaveInfo, r: Seq<u8>) -> SlaveInfo {
    SlaveInfo {
        port_types: (r[7] % 4, (r[7] / 4) % 4, (r[7] / 16) % 4, r[7] / 64),
        support_dc: bit_of(r, 8, 2),
        is_dc_range_64bits: bit_of(r, 8, 3),
        support_fmmu_bit_operation: !bit_of(r, 8, 0),
        support_lrw: !bit_of(r, 9, 1),
        support_rw: !bit_of(r, 9, 2),
        ram_size_kb: r[6],
        number_of_fmmu: r[4],
        number_of_sm: r[5],
        ..i
    }
}

/// The initialization after a successful access with reply `reply` (the
/// data read, or anything for a write or the transfer to Init).
pub open spec fn init_step_spec(c: SlaveInitializer, reply: Seq<u8>) -> SlaveInitializer {
    let i = c.slave_info;
    match c.step {
        SlaveInitStep::SetLoopPort => SlaveInitializer { step: SlaveInitStep::RequestInitState, ..c },
        SlaveInitStep::RequestInitState => SlaveInitializer {
            step: SlaveInitStep::ResetErrorCount,
            slave_info: SlaveInfo { al_state: AlState::Init, ..i },
            ..c
        },
        SlaveInitStep::ResetErrorCount => SlaveInitializer { step: SlaveInitStep::SetWatchDogDivider, ..c },
        SlaveInitStep::SetWatchDogDivider => SlaveInitializer { step: SlaveInitStep::DisableDlWatchDog, ..c },
        SlaveInitStep::DisableDlWatchDog => SlaveInitializer { step: SlaveInitStep::DisableSmWatchDog, ..c },
        SlaveInitStep::DisableSmWatchDog => SlaveInitializer { step: SlaveInitStep::CheckDlStatus, ..c },
        SlaveInitStep::CheckDlStatus => if !bit_of(reply, 0, 0) {
            SlaveInitializer {
                step: SlaveInitStep::Failed(EcError::TaskSpecific(SlaveInitError::FailedToLoadEEPROM)),
                ..c
            }
        } else {
            SlaveInitializer {
                step: SlaveInitStep::CheckDlInfo,
                slave_info: SlaveInfo {
                    linked_ports: (bit_of(reply, 1, 1), bit_of(reply, 1, 3), bit_of(reply, 1, 5), bit_of(reply, 1, 7)),
                    ..i
                },
                ..c
            }
        },
        SlaveInitStep::CheckDlInfo => SlaveInitializer {
            step: SlaveInitStep::ClearFmmu(0),
            slave_info: with_dl_info(i, reply),
            ..c
        },
        SlaveInitStep::ClearFmmu(n) => SlaveInitializer {
            step: if n < 1 {
                SlaveInitStep::ClearFmmu((n + 1) as u16)
            } else {
                SlaveInitStep::ClearSm(0)
            },
            ..c
        },
        SlaveInitStep::ClearSm(n) => SlaveInitializer {
            step: if n < 4 {
                SlaveInitStep::ClearSm((n + 1) as u16)
            } else {
                SlaveInitStep::GetVenderID
            },
            ..c
        },
        SlaveInitStep::GetVenderID => SlaveInitializer {
            step: SlaveInitStep::GetProductCode,
            slave_info: SlaveInfo { vender_id: le16(reply, 0) as u16, ..i },
            ..c
        },
        SlaveInitStep::GetProductCode => SlaveInitializer {
            step: SlaveInitStep::GetRevision,
            slave_info: SlaveInfo { product_code: le16(reply, 0) as u16, ..i },
            ..c
        },
        SlaveInitStep::GetRevision => SlaveInitializer {
            step: SlaveInitStep::GetProtocol,
            slave_info: SlaveInfo { revision_number: le16(reply, 0) as u16, ..i },
            ..c
        },
        SlaveInitStep::GetProtocol => SlaveInitializer {
            step: SlaveInitStep::GetRxMailboxSize,
            slave_info: SlaveInfo { support_coe: bit_of(reply, 0, 2), ..i },
            ..c
        },
        SlaveInitStep::GetRxMailboxSize => {
            let v = le16(reply, 0) as u16;
            SlaveInitializer {
                step: SlaveInitStep::GetRxMailboxOffset,
                slave_info: if i.number_of_sm >= 4 && v != 0 {
                    SlaveInfo {
                        sm0: Some(SyncManager::MailboxRx { size: v, start_address: 0 }),
                        sm2: Some(SyncManager::ProcessDataRx),
                        ..i
                    }
                } else if i.number_of_sm >= 2 {
                    SlaveInfo { sm0: Some(SyncManager::ProcessDataRx), ..i }
                } else {
                    i
                },
                ..c
            }
        },
        SlaveInitStep::GetRxMailboxOffset => SlaveInitializer {
            step: SlaveInitStep::GetTxMailboxSize,
            slave_info: match i.sm0 {
                Some(SyncManager::MailboxRx { size, .. }) => SlaveInfo {
                    sm0: Some(SyncManager::MailboxRx { start_address: le16(reply, 0) as u16, size }),
                    ..i
                },
                _ => i,
            },
            ..c
        },
        SlaveInitStep::GetTxMailboxSize => {
            let v = le16(reply, 0) as u16;
            SlaveInitializer {
                step: SlaveInitStep::GetTxMailboxOffset,
                slave_info: if i.number_of_sm >= 4 && v != 0 {
                    SlaveInfo { sm1: Some(SyncManager::MailboxTx { size: v, start_address: 0 }), ..i }
                } else if i.number_of_sm >= 4 {
                    SlaveInfo { sm3: Some(SyncManager::ProcessDataTx), ..i }
                } else {
                    i
                },
                ..c
            }
        },
        SlaveInitStep::GetTxMailboxOffset => {
            let with_start = match i.sm1 {
                Some(SyncManager::MailboxTx { size, .. }) => SlaveInfo {
                    sm1: Some(SyncManager::MailboxTx { start_address: le16(reply, 0) as u16, size }),
                    ..i
                },
                _ => i,
            };
            SlaveInitializer {
                step: SlaveInitStep::SetSm0Control,
                slave_info: with_process_data_ram(with_start),
                ..c
            }
        },
        SlaveInitStep::SetSm0Control => SlaveInitializer { step: SlaveInitStep::SetSm0Activation, ..c },
        SlaveInitStep::SetSm0Activation => SlaveInitializer { step: SlaveInitStep::SetSm1Control, ..c },
        SlaveInitStep::SetSm1Control => SlaveInitializer { step: SlaveInitStep::SetSm1Activation, ..c },
        SlaveInitStep::SetSm1Activation => SlaveInitializer { step: SlaveInitStep::SetStationAddress, ..c },
        SlaveInitStep::SetStationAddress => SlaveInitializer {
            step: SlaveInitStep::CheckPdiControl,
            slave_info: SlaveInfo { configured_address: station_address(c.slave_address), ..i },
            ..c
        },
        SlaveInitStep::CheckPdiControl => SlaveInitializer {
            step: if i.support_dc {
                SlaveInitStep::ClearDcActivation
            } else {
                SlaveInitStep::Complete
            },
            slave_info: SlaveInfo { strict_al_control: bit_of(reply, 1, 0), ..i },
            ..c
        },
        SlaveInitStep::ClearDcActivation => SlaveInitializer {
            step: SlaveInitStep::ClearCyclicOperationStartTime,
            ..c
        },
        SlaveInitStep::ClearCyclicOperationStartTime => SlaveInitializer {
            step: SlaveInitStep::ClearSync0CycleTime,
            ..c
        },
        SlaveInitStep::ClearSync0CycleTime => SlaveInitializer { step: SlaveInitStep::ClearSync1CycleTime, ..c },
        SlaveInitStep::ClearSync1CycleTime => SlaveInitializer { step: SlaveInitStep::Complete, ..c },
        _ => c,
    }
}

/// The addressed position leaves room for the station address after it,
/// and the sync managers that are cleared lie where the registers are.
pub open spec fn init_wf(c: SlaveInitializer) -> bool {
    &&& c.slave_address matches SlaveAddress::SlavePosition(p) ==> p < 0xFFFF
    &&& c.step matches SlaveInitStep::ClearFmmu(n) ==> n <= 1
    &&& c.step matches SlaveInitStep::ClearSm(n) ==> n <= 4
}

impl SlaveInitializer {
    /// An initializer that has not started.
    pub fn new() -> (r: Self)
        ensures
            r.step == SlaveInitStep::Idle,
            r.slave_address == SlaveAddress::SlavePosition(0),
            r.slave_info == SlaveInfo::default_spec(),
    {
        SlaveInitializer {
            slave_address: SlaveAddress::SlavePosition(0),
            step: SlaveInitStep::Idle,
            slave_info: SlaveInfo::default(),
        }
    }

    /// Starts the initialization of the slave at `slave_position`, with
    /// nothing known of it.
    pub fn start(&mut self, slave_position: u16)
        requires
            slave_position < 0xFFFF,
        ensures
            final(self).slave_address == SlaveAddress::SlavePosition(slave_position),
            final(self).step == SlaveInitStep::SetLoopPort,
            final(self).slave_info == SlaveInfo::default_spec(),
            init_wf(*final(self)),
    {
        self.slave_address = SlaveAddress::SlavePosition(slave_position);
        self.step = SlaveInitStep::SetLoopPort;
        self.slave_info = SlaveInfo::default();
    }

    /// The slave info once done, the error once failed; `None` before.
    pub fn wait(&self) -> (r: Option<Result<SlaveInfo, EcError<SlaveInitError>>>)
        ensures
            self.step == SlaveInitStep::Complete ==> r == Some(
                Ok::<SlaveInfo, EcError<SlaveInitError>>(self.slave_info),
            ),
            self.step matches SlaveInitStep::Failed(e) ==> r == Some(Err::<SlaveInfo, EcError<SlaveInitError>>(e)),
            !(self.step == SlaveInitStep::Complete || self.step is Failed) ==> r is None,
    {
        match self.step {
            SlaveInitStep::Complete => Some(Ok(self.slave_info)),
            SlaveInitStep::Failed(e) => Some(Err(e)),
            _ => None,
        }
    }

    fn mailbox_control(sm: Option<SyncManager>, rx: bool) -> (r: Vec<u8>)
        ensures
            r@ == mailbox_sm_control(sm, rx),
    {
        match sm {
            Some(SyncManager::MailboxRx { start_address, size }) if rx => {
                let r = vec![
                    (start_address % 256) as u8,
                    (start_address / 256) as u8,
                    (size % 256) as u8,
                    (size / 256) as u8,
                    0x26,
                ];
                assert(r@ =~= mailbox_sm_control(sm, rx));
                r
            },
            Some(SyncManager::MailboxTx { start_address, size }) if !rx => {
                let r = vec![
                    (start_address % 256) as u8,
                    (start_address / 256) as u8,
                    (size % 256) as u8,
                    (size / 256) as u8,
                    0x22,
                ];
                assert(r@ =~= mailbox_sm_control(sm, rx));
                r
            },
            _ => zero_vec(SyncManagerControl::SIZE),
        }
    }

    fn mailbox_activation(sm: Option<SyncManager>, rx: bool) -> (r: Vec<u8>)
        ensures
            r@ == mailbox_sm_activation(sm, rx),
    {
        let b: u8 = match sm {
            Some(SyncManager::MailboxRx { .. }) if rx => 1,
            Some(SyncManager::MailboxTx { .. }) if !rx => 1,
            _ => 0,
        };
        let r = vec![b];
        assert(r@ =~= mailbox_sm_activation(sm, rx));
        r
    }

    /// The access to make next.
    pub fn next_access(&self) -> (r: InitAccess)
        requires
            init_wf(*self),
        ensures
            r@ == init_access_spec(*self),
    {
        match self.step {
            SlaveInitStep::SetLoopPort => {
                let data = vec![0x01, 0x00, 0x07, 0x00];
                assert(data@ =~= seq![0x01u8, 0x00u8, 0x07u8, 0x00u8]);
                InitAccess::WriteRegister { address: DlControl::ADDRESS, data }
            },
            SlaveInitStep::RequestInitState => InitAccess::TransferToInit,
            SlaveInitStep::ResetErrorCount => InitAccess::WriteRegister {
                address: RxErrorCounter::ADDRESS,
                data: zero_vec(RxErrorCounter::SIZE),
            },
            SlaveInitStep::SetWatchDogDivider => {
                let data = vec![0xC2, 0x09];
                assert(data@ =~= seq![0xC2u8, 0x09u8]);
                InitAccess::WriteRegister { address: WatchDogDivider::ADDRESS, data }
            },
            SlaveInitStep::DisableDlWatchDog => InitAccess::WriteRegister {
                address: DlUserWatchDog::ADDRESS,
                data: zero_vec(DlUserWatchDog::SIZE),
            },
            SlaveInitStep::DisableSmWatchDog => InitAccess::WriteRegister {
                address: SyncManagerChannelWatchDog::ADDRESS,
                data: zero_vec(SyncManagerChannelWatchDog::SIZE),
            },
            SlaveInitStep::CheckDlStatus => InitAccess::ReadRegister {
                address: DlStatus::ADDRESS,
                size: DlStatus::SIZE,
            },
            SlaveInitStep::CheckDlInfo => InitAccess::ReadRegister {
                address: DlInformation::ADDRESS,
                size: DlInformation::SIZE,
            },
            SlaveInitStep::ClearFmmu(n) => InitAccess::WriteRegister {
                address: FmmuRegister::ADDRESS + n * 0x10,
                data: zero_vec(FmmuRegister::SIZE),
            },
            SlaveInitStep::ClearSm(n) => InitAccess::WriteRegister {
                address: SyncManagerControl::ADDRESS + n * 0x08,
                data: zero_vec(SyncManagerControl::SIZE + SyncManagerStatus::SIZE + SyncManagerActivation::SIZE),
            },
            SlaveInitStep::GetVenderID => InitAccess::ReadSii { address: sii_reg::VenderID::ADDRESS },
            SlaveInitStep::GetProductCode => InitAccess::ReadSii { address: sii_reg::ProductCode::ADDRESS },
            SlaveInitStep::GetRevision => InitAccess::ReadSii { address: sii_reg::RevisionNumber::ADDRESS },
            SlaveInitStep::GetProtocol => InitAccess::ReadSii { address: sii_reg::MailboxProtocol::ADDRESS },
            SlaveInitStep::GetRxMailboxSize => InitAccess::ReadSii {
                address: sii_reg::StandardRxMailboxSize::ADDRESS,
            },
            SlaveInitStep::GetRxMailboxOffset => InitAccess::ReadSii {
                address: sii_reg::StandardRxMailboxOffset::ADDRESS,
            },
            SlaveInitStep::GetTxMailboxSize => InitAccess::ReadSii {
                address: sii_reg::StandardTxMailboxSize::ADDRESS,
            },
            SlaveInitStep::GetTxMailboxOffset => InitAccess::ReadSii {
                address: sii_reg::StandardTxMailboxOffset::ADDRESS,
            },
            SlaveInitStep::SetSm0Control => InitAccess::WriteRegister {
                address: SyncManagerControl::ADDRESS,
                data: Self::mailbox_control(self.slave_info.sm0, true),
            },
            SlaveInitStep::SetSm0Activation => InitAccess::WriteRegister {
                address: SyncManagerActivation::ADDRESS,
                data: Self::mailbox_activation(self.slave_info.sm0, true),
            },
            SlaveInitStep::SetSm1Control => InitAccess::WriteRegister {
                address: SyncManagerControl::ADDRESS + 0x08,
                data: Self::mailbox_control(self.slave_info.sm1, false),
            },
            SlaveInitStep::SetSm1Activation => InitAccess::WriteRegister {
                address: SyncManagerActivation::ADDRESS + 0x08,
                data: Self::mailbox_activation(self.slave_info.sm1, false),
            },
            SlaveInitStep::SetStationAddress => {
                let a: u16 = match self.slave_address {
                    SlaveAddress::SlavePosition(p) => p + 1,
                    SlaveAddress::StationAddress(s) => s,
                };
                let data = vec![(a % 256) as u8, (a / 256) as u8];
                assert(data@ =~= seq![(a % 256) as u8, (a / 256) as u8]);
                InitAccess::WriteRegister { address: FixedStationAddress::ADDRESS, data }
            },
            SlaveInitStep::CheckPdiControl => InitAccess::ReadRegister {
                address: PdiControl::ADDRESS,
                size: PdiControl::SIZE,
            },
            SlaveInitStep::ClearDcActivation => InitAccess::WriteRegister {
                address: DcActivation::ADDRESS,
                data: zero_vec(DcActivation::SIZE),
            },
            SlaveInitStep::ClearCyclicOperationStartTime => InitAccess::WriteRegister {
                address: CyclicOperationStartTime::ADDRESS,
                data: zero_vec(CyclicOperationStartTime::SIZE),
            },
            SlaveInitStep::ClearSync0CycleTime => InitAccess::WriteRegister {
                address: Sync0CycleTime::ADDRESS,
                data: zero_vec(Sync0CycleTime::SIZE),
            },
            SlaveInitStep::ClearSync1CycleTime => InitAccess::WriteRegister {
                address: Sync1CycleTime::ADDRESS,
                data: zero_vec(Sync1CycleTime::SIZE),
            },
            _ => InitAccess::Done,
        }
    }

    fn on_dl_info(&mut self, reply: &[u8])
        requires
            old(self).step == SlaveInitStep::CheckDlInfo,
            init_reply_ok(*old(self), reply@),
        ensures
            *final(self) == init_step_spec(*old(self), reply@),
    {
        let p = reply[7];
        self.slave_info.port_types = (p % 4, (p / 4) % 4, (p / 16) % 4, p / 64);
        self.slave_info.support_dc = read_bit(reply, 8, 2);
        self.slave_info.is_dc_range_64bits = read_bit(reply, 8, 3);
        self.slave_info.support_fmmu_bit_operation = !read_bit(reply, 8, 0);
        self.slave_info.support_lrw = !read_bit(reply, 9, 1);
        self.slave_info.support_rw = !read_bit(reply, 9, 2);
        self.slave_info.ram_size_kb = reply[6];
        self.slave_info.number_of_fmmu = reply[4];
        self.slave_info.number_of_sm = reply[5];
        self.step = SlaveInitStep::ClearFmmu(0);
    }

    fn on_mailbox_word(&mut self, reply: &[u8])
        requires
            old(self).step == SlaveInitStep::GetRxMailboxSize || old(self).step == SlaveInitStep::GetRxMailboxOffset
                || old(self).step == SlaveInitStep::GetTxMailboxSize,
            init_reply_ok(*old(self), reply@),
        ensures
            *final(self) == init_step_spec(*old(self), reply@),
    {
        let i = self.slave_info;
        let v = read_le16(reply, 0);
        match self.step {
            SlaveInitStep::GetRxMailboxSize => {
                if i.number_of_sm >= 4 && v != 0 {
                    self.slave_info.sm0 = Some(SyncManager::MailboxRx { size: v, start_address: 0 });
                    self.slave_info.sm2 = Some(SyncManager::ProcessDataRx);
                } else if i.number_of_sm >= 2 {
                    self.slave_info.sm0 = Some(SyncManager::ProcessDataRx);
                }
                self.step = SlaveInitStep::GetRxMailboxOffset;
            },
            SlaveInitStep::GetRxMailboxOffset => {
                if let Some(SyncManager::MailboxRx { size, .. }) = i.sm0 {
                    self.slave_info.sm0 = Some(SyncManager::MailboxRx { start_address: v, size });
                }
                self.step = SlaveInitStep::GetTxMailboxSize;
            },
            _ => {
                if i.number_of_sm >= 4 && v != 0 {
                    self.slave_info.sm1 = Some(SyncManager::MailboxTx { size: v, start_address: 0 });
                } else if i.number_of_sm >= 4 {
                    self.slave_info.sm3 = Some(SyncManager::ProcessDataTx);
                }
                self.step = SlaveInitStep::GetTxMailboxOffset;
            },
        }
    }

    fn on_tx_mailbox_offset(&mut self, reply: &[u8])
        requires
            old(self).step == SlaveInitStep::GetTxMailboxOffset,
            init_reply_ok(*old(self), reply@),
        ensures
            *final(self) == init_step_spec(*old(self), reply@),
    {
        let i = self.slave_info;
        let v = read_le16(reply, 0);
        if let Some(SyncManager::MailboxTx { size, .. }) = i.sm1 {
            self.slave_info.sm1 = Some(SyncManager::MailboxTx { start_address: v, size });
        }
        proof {
            assert(v as int == le16(reply@, 0));
            assert(self.slave_info.sm1 == match i.sm1 {
                Some(SyncManager::MailboxTx { size, .. }) => Some(
                    SyncManager::MailboxTx { start_address: le16(reply@, 0) as u16, size },
                ),
                other => other,
            });
        }
        let sm0 = match self.slave_info.sm0 {
            Some(SyncManager::MailboxRx { start_address, size }) => Some((start_address, size)),
            _ => None,
        };
        let sm1 = match self.slave_info.sm1 {
            Some(SyncManager::MailboxTx { start_address, size }) => Some((start_address, size)),
            _ => None,
        };
        proof {
            match (sm0, sm1) {
                (Some((a0, s0)), Some((a1, s1))) => {
                    assert(i.sm0 == Some(SyncManager::MailboxRx { start_address: a0, size: s0 }));
                    assert(self.slave_info.sm1 == Some(SyncManager::MailboxTx { start_address: a1, size: s1 }));
                    assert(init_reply_ok(*old(self), reply@));
                    assert(process_data_ram_ok(a0, s0, a1, s1, i.ram_size_kb));
                },
                _ => {},
            }
        }
        let kb = i.ram_size_kb;
        match set_process_data_sm_size_offset(sm0, sm1, kb) {
            Some((start, size)) => {
                self.slave_info.pdo_start_address = Some(start);
                self.slave_info.pdo_ram_size = size;
            },
            None => {
                self.slave_info.pdo_start_address = None;
            },
        }
        self.step = SlaveInitStep::SetSm0Control;
    }

    /// Moves on with the data of a successful access: the bytes read (the
    /// EEPROM word for an EEPROM read), or anything for a write or the
    /// transfer to Init. A slave whose EEPROM was not loaded ends it with an
    /// error.
    #[verifier::rlimit(50)]
    fn advance(&mut self, reply: &[u8])
        requires
            init_wf(*old(self)),
            init_reply_ok(*old(self), reply@),
        ensures
            *final(self) == init_step_spec(*old(self), reply@),
            init_wf(*final(self)),
    {
        let i = self.slave_info;
        match self.step {
            SlaveInitStep::SetLoopPort => {
                self.step = SlaveInitStep::RequestInitState;
            },
            SlaveInitStep::RequestInitState => {
                self.slave_info.al_state = AlState::Init;
                self.step = SlaveInitStep::ResetErrorCount;
            },
            SlaveInitStep::ResetErrorCount => {
                self.step = SlaveInitStep::SetWatchDogDivider;
            },
            SlaveInitStep::SetWatchDogDivider => {
                self.step = SlaveInitStep::DisableDlWatchDog;
            },
            SlaveInitStep::DisableDlWatchDog => {
                self.step = SlaveInitStep::DisableSmWatchDog;
            },
            SlaveInitStep::DisableSmWatchDog => {
                self.step = SlaveInitStep::CheckDlStatus;
            },
            SlaveInitStep::CheckDlStatus => {
                if !read_bit(reply, 0, 0) {
                    self.step = SlaveInitStep::Failed(EcError::TaskSpecific(SlaveInitError::FailedToLoadEEPROM));
                } else {
                    self.slave_info.linked_ports = (
                        read_bit(reply, 1, 1),
                        read_bit(reply, 1, 3),
                        read_bit(reply, 1, 5),
                        read_bit(reply, 1, 7),
                    );
                    self.step = SlaveInitStep::CheckDlInfo;
                }
            },
            SlaveInitStep::CheckDlInfo => {
                self.on_dl_info(reply);
            },
            SlaveInitStep::ClearFmmu(n) => {
                self.step = if n < 1 {
                    SlaveInitStep::ClearFmmu(n + 1)
                } else {
                    SlaveInitStep::ClearSm(0)
                };
            },
            SlaveInitStep::ClearSm(n) => {
                self.step = if n < 4 {
                    SlaveInitStep::ClearSm(n + 1)
                } else {
                    SlaveInitStep::GetVenderID
                };
            },
            SlaveInitStep::GetVenderID => {
                self.slave_info.vender_id = read_le16(reply, 0);
                self.step = SlaveInitStep::GetProductCode;
            },
            SlaveInitStep::GetProductCode => {
                self.slave_info.product_code = read_le16(reply, 0);
                self.step = SlaveInitStep::GetRevision;
            },
            SlaveInitStep::GetRevision => {
                self.slave_info.revision_number = read_le16(reply, 0);
                self.step = SlaveInitStep::GetProtocol;
            },
            SlaveInitStep::GetProtocol => {
                self.slave_info.support_coe = read_bit(reply, 0, 2);
                self.step = SlaveInitStep::GetRxMailboxSize;
            },
            SlaveInitStep::GetRxMailboxSize | SlaveInitStep::GetRxMailboxOffset | SlaveInitStep::GetTxMailboxSize => {
                self.on_mailbox_word(reply);
            },
            SlaveInitStep::GetTxMailboxOffset => {
                self.on_tx_mailbox_offset(reply);
            },
            SlaveInitStep::SetSm0Control => {
                self.step = SlaveInitStep::SetSm0Activation;
            },
            SlaveInitStep::SetSm0Activation => {
                self.step = SlaveInitStep::SetSm1Control;
            },
            SlaveInitStep::SetSm1Control => {
                self.step = SlaveInitStep::SetSm1Activation;
            },
            SlaveInitStep::SetSm1Activation => {
                self.step = SlaveInitStep::SetStationAddress;
            },
            SlaveInitStep::SetStationAddress => {
                self.slave_info.configured_address = match self.slave_address {
                    SlaveAddress::SlavePosition(p) => p + 1,
                    SlaveAddress::StationAddress(s) => s,
                };
                self.step = SlaveInitStep::CheckPdiControl;
            },
            SlaveInitStep::CheckPdiControl => {
                self.slave_info.strict_al_control = read_bit(reply, 1, 0);
                self.step = if i.support_dc {
                    SlaveInitStep::ClearDcActivation
                } else {
                    SlaveInitStep::Complete
                };
            },
            SlaveInitStep::ClearDcActivation => {
                self.step = SlaveInitStep::ClearCyclicOperationStartTime;
            },
            SlaveInitStep::ClearCyclicOperationStartTime => {
                self.step = SlaveInitStep::ClearSync0CycleTime;
            },
            SlaveInitStep::ClearSync0CycleTime => {
                self.step = SlaveInitStep::ClearSync1CycleTime;
            },
            SlaveInitStep::ClearSync1CycleTime => {
                self.step = SlaveInitStep::Complete;
            },
            _ => {},
        }
    }

    /// The command of the register access to make next, `None` where the
    /// next step is no register access.
    pub fn register_command(&self) -> (r: Option<Command>)
        requires
            init_wf(*self),
        ensures
            r == init_command_spec(*self),
    {
        match self.next_access() {
            InitAccess::WriteRegister { address, .. } => Some(
                Command::new_write(TargetSlave::Single(self.slave_address), address),
            ),
            InitAccess::ReadRegister { address, .. } => Some(
                Command::new_read(TargetSlave::Single(self.slave_address), address),
            ),
            _ => None,
        }
    }

    /// Takes the reply to the register access of the current step, or
    /// `None` where it was lost. A lost reply, a working counter other than
    /// 1, or a reply to another command (type or register) end the
    /// initialization with that error; else it moves on with the data.
    pub fn on_reply(&mut self, reply: Option<(Command, &[u8], u16)>) -> (r: Result<(), EcError<SlaveInitError>>)
        requires
            init_wf(*old(self)),
            is_register_step(old(self).step),
            reply matches Some((cmd, data, wkc)) ==> (wkc == 1 && command_matches(*old(self), cmd)
                ==> init_reply_ok(*old(self), data@)),
        ensures
            init_wf(*final(self)),
            final(self).slave_address == old(self).slave_address,
            reply is None ==> final(self).step == SlaveInitStep::Failed(EcError::LostPacket)
                && final(self).slave_info == old(self).slave_info,
            reply matches Some((cmd, data, wkc)) ==> if wkc != 1 {
                final(self).step == SlaveInitStep::Failed(EcError::UnexpectedWkc(wkc))
                    && final(self).slave_info == old(self).slave_info
            } else if !command_matches(*old(self), cmd) {
                final(self).step == SlaveInitStep::Failed(EcError::UnexpectedCommand)
                    && final(self).slave_info == old(self).slave_info
            } else {
                *final(self) == init_step_spec(*old(self), data@)
            },
            r == step_result(final(self).step),
    {
        let expected = self.register_command();
        match reply {
            None => {
                self.step = SlaveInitStep::Failed(EcError::LostPacket);
            },
            Some((cmd, data, wkc)) => {
                let matches = match expected {
                    Some(c) => cmd.c_type == c.c_type && cmd.ado == c.ado,
                    None => false,
                };
                if wkc != 1 {
                    self.step = SlaveInitStep::Failed(EcError::UnexpectedWkc(wkc));
                } else if !matches {
                    self.step = SlaveInitStep::Failed(EcError::UnexpectedCommand);
                } else {
                    self.advance(data);
                }
            },
        }
        self.result()
    }

    /// Takes the outcome of the transfer to Init.
    pub fn on_transfer_result(&mut self, outcome: Result<AlState, EcError<al_state_transfer::Error>>) -> (r: Result<
        (),
        EcError<SlaveInitError>,
    >)
        requires
            init_wf(*old(self)),
            old(self).step == SlaveInitStep::RequestInitState,
            outcome matches Ok(state) ==> state == AlState::Init,
        ensures
            init_wf(*final(self)),
            outcome is Ok ==> *final(self) == init_step_spec(*old(self), Seq::empty()),
            outcome matches Err(e) ==> final(self).step == SlaveInitStep::Failed(transfer_error(e))
                && final(self).slave_info == old(self).slave_info && final(self).slave_address
                == old(self).slave_address,
            r == step_result(final(self).step),
    {
        match outcome {
            Ok(_) => {
                let empty: [u8; 0] = [];
                self.advance(empty.as_slice());
            },
            Err(e) => {
                self.step = SlaveInitStep::Failed(
                    match e {
                        EcError::TaskSpecific(t) => EcError::TaskSpecific(SlaveInitError::AlStateTransition(t)),
                        EcError::UnexpectedCommand => EcError::UnexpectedCommand,
                        EcError::LostPacket => EcError::LostPacket,
                        EcError::UnexpectedWkc(w) => EcError::UnexpectedWkc(w),
                        EcError::Interface(i) => EcError::Interface(i),
                        EcError::Timeout => EcError::Timeout,
                    },
                );
            },
        }
        self.result()
    }

    /// Takes the outcome of the EEPROM read of the current step: the data
    /// read, or the error.
    pub fn on_sii_result(&mut self, outcome: Result<&[u8], EcError<SiiTaskError>>) -> (r: Result<
        (),
        EcError<SlaveInitError>,
    >)
        requires
            init_wf(*old(self)),
            is_sii_step(old(self).step),
            outcome matches Ok(data) ==> init_reply_ok(*old(self), data@),
        ensures
            init_wf(*final(self)),
            outcome matches Ok(data) ==> *final(self) == init_step_spec(*old(self), data@),
            outcome matches Err(e) ==> final(self).step == SlaveInitStep::Failed(sii_error(e))
                && final(self).slave_info == old(self).slave_info && final(self).slave_address
                == old(self).slave_address,
            r == step_result(final(self).step),
    {
        match outcome {
            Ok(data) => {
                self.advance(data);
            },
            Err(e) => {
                self.step = SlaveInitStep::Failed(
                    match e {
                        EcError::TaskSpecific(t) => EcError::TaskSpecific(SlaveInitError::SiiRead(t)),
                        EcError::UnexpectedCommand => EcError::UnexpectedCommand,
                        EcError::LostPacket => EcError::LostPacket,
                        EcError::UnexpectedWkc(w) => EcError::UnexpectedWkc(w),
                        EcError::Interface(i) => EcError::Interface(i),
                        EcError::Timeout => EcError::Timeout,
                    },
                );
            },
        }
        self.result()
    }

    fn result(&self) -> (r: Result<(), EcError<SlaveInitError>>)
        ensures
            r == step_result(self.step),
    {
        match self.step {
            SlaveInitStep::Failed(e) => Err(e),
            _ => Ok(()),
        }
    }
}

} // verus!
