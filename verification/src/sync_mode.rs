//! Putting a slave's process data sync managers and its distributed clock
//! into the chosen sync mode: the object dictionary entries of the sync
//! manager parameters (0x1C32 and on), the SYNC signal intervals, the start
//! time and the activation, one SDO or register access at a time.
use crate::bytes::{le32, put_le32, read_le32, write_le32};
use crate::command::SlaveAddress;
use crate::register::{
    CyclicOperationStartTime, DcActivation, DcSystemTime, Sync0CycleTime, Sync1CycleTime,
};
use vstd::prelude::*;

verus! {

/// What the slave's outputs and inputs are synchronised to.
#[derive(Debug, Clone, Copy, PartialEq, Eq, Structural)]
pub enum SyncMode {
    FreeRun,
    SyncManagerEvent,
    Sync0Event,
    Sync1Event,
}

impl SyncMode {
    /// The number of the mode in the synchronisation type entry.
    pub open spec fn code_spec(self) -> u8 {
        match self {
            SyncMode::FreeRun => 0,
            SyncMode::SyncManagerEvent => 1,
            SyncMode::Sync0Event => 2,
            SyncMode::Sync1Event => 3,
        }
    }

    pub fn code(&self) -> (r: u8)
        ensures
            r == self.code_spec(),
    {
        match self {
            SyncMode::FreeRun => 0,
            SyncMode::SyncManagerEvent => 1,
            SyncMode::Sync0Event => 2,
            SyncMode::Sync1Event => 3,
        }
    }

    /// The bit of the supported synchronisation types entry that offers the
    /// mode: bit 0 free run, bit 1 the sync manager event, bits 2 and 3 the
    /// SYNC0 and SYNC1 events.
    pub open spec fn support_mask_spec(self) -> u8 {
        match self {
            SyncMode::FreeRun => 1,
            SyncMode::SyncManagerEvent => 2,
            SyncMode::Sync0Event => 4,
            SyncMode::Sync1Event => 8,
        }
    }

    pub fn support_mask(&self) -> (r: u8)
        ensures
            r == self.support_mask_spec(),
    {
        match self {
            SyncMode::FreeRun => 1,
            SyncMode::SyncManagerEvent => 2,
            SyncMode::Sync0Event => 4,
            SyncMode::Sync1Event => 8,
        }
    }
}

/// The cycle time a slave is configured with: the one its sync manager
/// parameters hold, or one given in nanoseconds.
#[derive(Debug, Clone, Copy, PartialEq, Eq, Structural)]
pub enum CycleTimeSetting {
    DefaultValue,
    SpecifiedValue(u32),
}

/// The object dictionary entry whose access failed.
#[derive(Debug, Clone, Copy, PartialEq, Eq, Structural)]
pub struct SdoError {
    pub index: u16,
    pub sub_index: u8,
}

/// The register whose access failed.
#[derive(Debug, Clone, Copy, PartialEq, Eq, Structural)]
pub struct RegisterError {
    pub address: u16,
}

/// Why configuring a slave for operation failed.
#[derive(Debug, Clone, Copy, PartialEq, Eq, Structural)]
pub enum ConfigErrorKind {
    SetFmmuRegister(RegisterError),
    GetSyncManagerCycleTime(SdoError),
    SetSyncManagerSyncType(SdoError),
    GetSyncManagerSyncType(SdoError),
    SyncModeNotSupported(SyncMode),
    GetMinimumCycleTime(SdoError),
    CycleTimeTooSmall(u32),
    SetSyncManagerCycleTime(SdoError),
    ResetSyncError(SdoError),
    SetSync0CycleTime(RegisterError),
    SetSync1CycleTime(RegisterError),
    SetSyncSignalStartTime(RegisterError),
    ActivateDc(RegisterError),
    ClearPdoMappings(SdoError),
    AssignPdoMapToSyncManager(SdoError),
    ClearPdoEntries(SdoError),
    AssignPdoEntryToPdoMap(SdoError),
    SetNumberOfPdoMappings(SdoError),
    GetNumberOfPdoMappings(SdoError),
    GetPdoMappingAddress(SdoError),
    SetNumberOfPdoEntries(SdoError),
    GetNumberOfPdoEntries(SdoError),
    GetPdoEntrtyAddress(SdoError),
    GetNumberOfSyncManagerChannel(SdoError),
    GetSyncManagerCommunicationType(SdoError),
}

/// A failure while configuring the slave at `slave_address`.
#[derive(Debug, Clone, Copy, PartialEq, Eq, Structural)]
pub struct ConfigError {
    pub slave_address: SlaveAddress,
    pub kind: ConfigErrorKind,
}

/// Where the configuration stands. `tx` tells the inputs' sync manager
/// (true) from the outputs' one.
#[derive(Debug, Clone, Copy, PartialEq, Eq, Structural)]
pub enum SyncStep {
    SmType { tx: bool },
    CycleTime { tx: bool },
    SyncType { tx: bool },
    MinCycleTime { tx: bool },
    SetSyncType { tx: bool },
    SetCycleTime { tx: bool },
    ResetSyncError { tx: bool },
    SyncErrorLimit,
    Sync0Cycle,
    Sync1Cycle,
    SystemTime,
    StartTime,
    Activate,
    ReadStartTime,
    WaitStart,
    Done,
}

/// One access to the slave.
#[derive(Debug)]
pub enum SyncAccess {
    ReadSdo { index: u16, sub_index: u8 },
    WriteSdo { index: u16, sub_index: u8, data: Vec<u8> },
    ReadRegister { address: u16, size: usize },
    WriteRegister { address: u16, data: Vec<u8> },
    Done,
}

/// An access, its data taken as a sequence.
pub enum SyncAccessModel {
    ReadSdo { index: u16, sub_index: u8 },
    WriteSdo { index: u16, sub_index: u8, data: Seq<u8> },
    ReadRegister { address: u16, size: usize },
    WriteRegister { address: u16, data: Seq<u8> },
    Done,
}

impl View for SyncAccess {
    type V = SyncAccessModel;

    open spec fn view(&self) -> SyncAccessModel {
        match self {
            SyncAccess::ReadSdo { index, sub_index } => SyncAccessModel::ReadSdo {
                index: *index,
                sub_index: *sub_index,
            },
            SyncAccess::WriteSdo { index, sub_index, data } => SyncAccessModel::WriteSdo {
                index: *index,
                sub_index: *sub_index,
                data: data@,
            },
            SyncAccess::ReadRegister { address, size } => SyncAccessModel::ReadRegister {
                address: *address,
                size: *size,
            },
            SyncAccess::WriteRegister { address, data } => SyncAccessModel::WriteRegister {
                address: *address,
                data: data@,
            },
            SyncAccess::Done => SyncAccessModel::Done,
        }
    }
}

/// The sync-mode configuration of one slave that has a CoE mailbox, with
/// the sync managers of its outputs (`rx_sm`) and inputs (`tx_sm`).
#[derive(Debug, Clone, Copy, PartialEq, Eq, Structural)]
pub struct SyncModeConfigurator {
    pub slave_address: SlaveAddress,
    pub rx_sm: u8,
    pub tx_sm: u8,
    pub sync_mode: SyncMode,
    pub cycle_time: CycleTimeSetting,
    pub step: SyncStep,
    /// The cycle time of the sync manager being configured.
    pub sm_cycle_ns: u32,
    pub rx_cycle_ns: u32,
    pub tx_cycle_ns: u32,
    /// The system time at which the SYNC signals start.
    pub start_time: u64,
}

/// The four bytes of `v`, little-endian.
pub open spec fn le32_bytes(v: u32) -> Seq<u8> {
    put_le32(seq![0u8, 0u8, 0u8, 0u8], 0, v as int)
}

/// The eight bytes of `v`, little-endian.
pub open spec fn le64_bytes(v: u64) -> Seq<u8> {
    put_le32(
        put_le32(seq![0u8, 0u8, 0u8, 0u8, 0u8, 0u8, 0u8, 0u8], 0, v as int % 0x1_0000_0000),
        4,
        v as int / 0x1_0000_0000,
    )
}

/// The four bytes of `v`, little-endian.
pub fn le32_vec(v: u32) -> (r: Vec<u8>)
    ensures
        r@ == le32_bytes(v),
{
    let mut b: Vec<u8> = vec![0, 0, 0, 0];
    write_le32(&mut b, 0, v);
    b
}

/// The eight bytes of `v`, little-endian.
pub fn le64_vec(v: u64) -> (r: Vec<u8>)
    ensures
        r@ == le64_bytes(v),
{
    let mut b: Vec<u8> = vec![0, 0, 0, 0, 0, 0, 0, 0];
    assert((v & 0xffff_ffff) == v % 0x1_0000_0000) by (bit_vector);
    assert((v >> 32u64) == v / 0x1_0000_0000) by (bit_vector);
    write_le32(&mut b, 0, (v & 0xffff_ffff) as u32);
    write_le32(&mut b, 4, (v >> 32u64) as u32);
    b
}

/// The sync manager of a direction.
pub open spec fn sm_of(c: SyncModeConfigurator, tx: bool) -> u8 {
    if tx {
        c.tx_sm
    } else {
        c.rx_sm
    }
}

/// The sync manager parameter object of a direction (0x1C30 plus the sync
/// manager's number).
pub open spec fn sm_param_index(c: SyncModeConfigurator, tx: bool) -> u16 {
    (0x1C30 + sm_of(c, tx)) as u16
}

/// The sync manager numbers leave room for their communication type
/// subindex.
pub open spec fn sync_config_wf(c: SyncModeConfigurator) -> bool {
    c.rx_sm < 255 && c.tx_sm < 255
}

/// The SYNC interval: the one given, or else the longer of the two sync
/// managers' cycle times.
pub open spec fn sync_cycle_ns(c: SyncModeConfigurator) -> u32 {
    match c.cycle_time {
        CycleTimeSetting::DefaultValue => if c.rx_cycle_ns >= c.tx_cycle_ns {
            c.rx_cycle_ns
        } else {
            c.tx_cycle_ns
        },
        CycleTimeSetting::SpecifiedValue(t) => t,
    }
}

/// The activation byte: cyclic operation with SYNC0 and SYNC1 for the two
/// SYNC modes, all off otherwise.
pub open spec fn dc_activation_byte(mode: SyncMode) -> u8 {
    match mode {
        SyncMode::Sync0Event | SyncMode::Sync1Event => 0x07,
        _ => 0x00,
    }
}

/// The access that the configuration makes at its current step.
pub open spec fn sync_access_spec(c: SyncModeConfigurator) -> SyncAccessModel {
    match c.step {
        SyncStep::SmType { tx } => SyncAccessModel::ReadSdo {
            index: 0x1C00,
            sub_index: (sm_of(c, tx) + 1) as u8,
        },
        SyncStep::CycleTime { tx } => SyncAccessModel::ReadSdo { index: sm_param_index(c, tx), sub_index: 2 },
        SyncStep::SyncType { tx } => SyncAccessModel::ReadSdo { index: sm_param_index(c, tx), sub_index: 4 },
        SyncStep::MinCycleTime { tx } => SyncAccessModel::ReadSdo {
            index: sm_param_index(c, tx),
            sub_index: 5,
        },
        SyncStep::SetSyncType { tx } => SyncAccessModel::WriteSdo {
            index: sm_param_index(c, tx),
            sub_index: 1,
            data: seq![c.sync_mode.code_spec(), 0u8],
        },
        SyncStep::SetCycleTime { tx } => SyncAccessModel::WriteSdo {
            index: sm_param_index(c, tx),
            sub_index: 2,
            data: le32_bytes(c.sm_cycle_ns),
        },
        SyncStep::ResetSyncError { tx } => SyncAccessModel::WriteSdo {
            index: sm_param_index(c, tx),
            sub_index: 8,
            data: seq![1u8, 0u8],
        },
        SyncStep::SyncErrorLimit => SyncAccessModel::WriteSdo { index: 0x10F1, sub_index: 2, data: seq![9u8, 0u8] },
        SyncStep::Sync0Cycle => SyncAccessModel::WriteRegister {
            address: Sync0CycleTime::ADDRESS,
            data: le32_bytes(sync_cycle_ns(c)),
        },
        SyncStep::Sync1Cycle => SyncAccessModel::WriteRegister {
            address: Sync1CycleTime::ADDRESS,
            data: le32_bytes((sync_cycle_ns(c) / 2) as u32),
        },
        SyncStep::SystemTime => SyncAccessModel::ReadRegister {
            address: DcSystemTime::ADDRESS,
            size: DcSystemTime::SIZE,
        },
        SyncStep::StartTime => SyncAccessModel::WriteRegister {
            address: CyclicOperationStartTime::ADDRESS,
            data: le64_bytes(c.start_time),
        },
        SyncStep::Activate => SyncAccessModel::WriteRegister {
            address: DcActivation::ADDRESS,
            data: seq![dc_activation_byte(c.sync_mode)],
        },
        SyncStep::ReadStartTime => SyncAccessModel::ReadRegister {
            address: CyclicOperationStartTime::ADDRESS,
            size: DcSystemTime::SIZE,
        },
        SyncStep::WaitStart => SyncAccessModel::ReadRegister {
            address: DcSystemTime::ADDRESS,
            size: DcSystemTime::SIZE,
        },
        SyncStep::Done => SyncAccessModel::Done,
    }
}

/// What a failed access at the current step is reported as.
pub open spec fn sync_error_kind(c: SyncModeConfigurator) -> ConfigErrorKind {
    match c.step {
        SyncStep::SmType { tx } => ConfigErrorKind::GetSyncManagerCommunicationType(
            SdoError { index: 0x1C00, sub_index: (sm_of(c, tx) + 1) as u8 },
        ),
        SyncStep::CycleTime { tx } => ConfigErrorKind::GetSyncManagerCycleTime(
            SdoError { index: sm_param_index(c, tx), sub_index: 2 },
        ),
        SyncStep::SyncType { tx } => ConfigErrorKind::GetSyncManagerSyncType(
            SdoError { index: sm_param_index(c, tx), sub_index: 4 },
        ),
        SyncStep::MinCycleTime { tx } => ConfigErrorKind::GetMinimumCycleTime(
            SdoError { index: sm_param_index(c, tx), sub_index: 5 },
        ),
        SyncStep::SetSyncType { tx } => ConfigErrorKind::SetSyncManagerSyncType(
            SdoError { index: sm_param_index(c, tx), sub_index: 1 },
        ),
        SyncStep::SetCycleTime { tx } => ConfigErrorKind::SetSyncManagerCycleTime(
            SdoError { index: sm_param_index(c, tx), sub_index: 2 },
        ),
        SyncStep::ResetSyncError { tx } => ConfigErrorKind::ResetSyncError(
            SdoError { index: sm_param_index(c, tx), sub_index: 8 },
        ),
        SyncStep::SyncErrorLimit => ConfigErrorKind::ResetSyncError(SdoError { index: 0x10F1, sub_index: 2 }),
        SyncStep::Sync0Cycle => ConfigErrorKind::SetSync0CycleTime(
            RegisterError { address: Sync0CycleTime::ADDRESS },
        ),
        SyncStep::Sync1Cycle => ConfigErrorKind::SetSync1CycleTime(
            RegisterError { address: Sync1CycleTime::ADDRESS },
        ),
        SyncStep::StartTime => ConfigErrorKind::SetSyncSignalStartTime(
            RegisterError { address: CyclicOperationStartTime::ADDRESS },
        ),
        SyncStep::Activate => ConfigErrorKind::ActivateDc(RegisterError { address: DcActivation::ADDRESS }),
        _ => ConfigErrorKind::SetSyncSignalStartTime(RegisterError { address: DcSystemTime::ADDRESS }),
    }
}

/// What a reply at the current step must hold: enough bytes; a
/// communication type of none or of the direction (3 for outputs, 4 for
/// inputs); a start time that fits 64 bits.
pub open spec fn sync_reply_ok(c: SyncModeConfigurator, reply: Seq<u8>) -> bool {
    match c.step {
        SyncStep::SmType { tx } => reply.len() >= 1 && (reply[0] == 0 || reply[0] == if tx {
            4u8
        } else {
            3u8
        }),
        SyncStep::CycleTime { .. } => reply.len() >= 5,
        SyncStep::SyncType { .. } => reply.len() >= 1,
        SyncStep::MinCycleTime { .. } => reply.len() >= 4,
        SyncStep::SystemTime => reply.len() >= 8 && DcSystemTime::local_system_time_spec(reply) + 10_000_000
            <= u64::MAX,
        SyncStep::ReadStartTime | SyncStep::WaitStart => reply.len() >= 8,
        _ => true,
    }
}

/// The step after a direction's sync manager: the inputs' one after the
/// outputs', then the sync error limit (not in free run) or the SYNC
/// intervals.
pub open spec fn after_sm(c: SyncModeConfigurator, tx: bool) -> SyncStep {
    if !tx {
        SyncStep::SmType { tx: true }
    } else if c.sync_mode != SyncMode::FreeRun {
        SyncStep::SyncErrorLimit
    } else {
        SyncStep::Sync0Cycle
    }
}

/// The configuration once a direction's sync manager is done with cycle
/// time `cycle`.
pub open spec fn finish_sm(c: SyncModeConfigurator, tx: bool, cycle: u32) -> SyncModeConfigurator {
    if tx {
        SyncModeConfigurator { tx_cycle_ns: cycle, step: after_sm(c, tx), ..c }
    } else {
        SyncModeConfigurator { rx_cycle_ns: cycle, step: after_sm(c, tx), ..c }
    }
}

/// The cycle time read from the cycle time entry: bytes 0, 1, 2 and 4 of the
/// reply, little-endian.
pub open spec fn read_cycle_ns(reply: Seq<u8>) -> u32 {
    (reply[0] + 0x100 * reply[1] + 0x1_0000 * reply[2] + 0x100_0000 * reply[4]) as u32
}

/// The configuration after a successful access with reply `reply`, or the
/// error that ends it.
pub open spec fn sync_step_spec(c: SyncModeConfigurator, reply: Seq<u8>) -> Result<
    SyncModeConfigurator,
    ConfigErrorKind,
> {
    match c.step {
        SyncStep::SmType { tx } => Ok(
            if reply[0] == 0 {
                finish_sm(c, tx, 0)
            } else {
                match c.cycle_time {
                    CycleTimeSetting::DefaultValue => SyncModeConfigurator {
                        step: SyncStep::CycleTime { tx },
                        ..c
                    },
                    CycleTimeSetting::SpecifiedValue(t) => SyncModeConfigurator {
                        step: SyncStep::SyncType { tx },
                        sm_cycle_ns: t,
                        ..c
                    },
                }
            },
        ),
        SyncStep::CycleTime { tx } => Ok(
            SyncModeConfigurator { step: SyncStep::SyncType { tx }, sm_cycle_ns: read_cycle_ns(reply), ..c },
        ),
        SyncStep::SyncType { tx } => if reply[0] & c.sync_mode.support_mask_spec() == 0 {
            Err(ConfigErrorKind::SyncModeNotSupported(c.sync_mode))
        } else {
            Ok(SyncModeConfigurator { step: SyncStep::MinCycleTime { tx }, ..c })
        },
        SyncStep::MinCycleTime { tx } => if c.sm_cycle_ns < le32(reply, 0) {
            Err(ConfigErrorKind::CycleTimeTooSmall(le32(reply, 0) as u32))
        } else {
            Ok(SyncModeConfigurator { step: SyncStep::SetSyncType { tx }, ..c })
        },
        SyncStep::SetSyncType { tx } => Ok(
            match c.cycle_time {
                CycleTimeSetting::SpecifiedValue(_) => SyncModeConfigurator {
                    step: SyncStep::SetCycleTime { tx },
                    ..c
                },
                CycleTimeSetting::DefaultValue => if c.sync_mode != SyncMode::FreeRun {
                    SyncModeConfigurator { step: SyncStep::ResetSyncError { tx }, ..c }
                } else {
                    finish_sm(c, tx, c.sm_cycle_ns)
                },
            },
        ),
        SyncStep::SetCycleTime { tx } => Ok(
            if c.sync_mode != SyncMode::FreeRun {
                SyncModeConfigurator { step: SyncStep::ResetSyncError { tx }, ..c }
            } else {
                finish_sm(c, tx, c.sm_cycle_ns)
            },
        ),
        SyncStep::ResetSyncError { tx } => Ok(finish_sm(c, tx, c.sm_cycle_ns)),
        SyncStep::SyncErrorLimit => Ok(SyncModeConfigurator { step: SyncStep::Sync0Cycle, ..c }),
        SyncStep::Sync0Cycle => Ok(SyncModeConfigurator { step: SyncStep::Sync1Cycle, ..c }),
        SyncStep::Sync1Cycle => Ok(SyncModeConfigurator { step: SyncStep::SystemTime, ..c }),
        SyncStep::SystemTime => Ok(
            SyncModeConfigurator {
                step: SyncStep::StartTime,
                start_time: (DcSystemTime::local_system_time_spec(reply) + 10_000_000) as u64,
                ..c
            },
        ),
        SyncStep::StartTime => Ok(SyncModeConfigurator { step: SyncStep::Activate, ..c }),
        SyncStep::Activate => Ok(SyncModeConfigurator { step: SyncStep::ReadStartTime, ..c }),
        SyncStep::ReadStartTime => Ok(
            SyncModeConfigurator {
                step: SyncStep::WaitStart,
                start_time: DcSystemTime::local_system_time_spec(reply),
                ..c
            },
        ),
        SyncStep::WaitStart => Ok(
            if c.start_time < DcSystemTime::local_system_time_spec(reply) {
                SyncModeConfigurator { step: SyncStep::Done, ..c }
            } else {
                c
            },
        ),
        SyncStep::Done => Ok(c),
    }
}

impl SyncModeConfigurator {
    /// Starts with the outputs' sync manager.
    pub fn new(
        slave_address: SlaveAddress,
        rx_sm: u8,
        tx_sm: u8,
        sync_mode: SyncMode,
        cycle_time: CycleTimeSetting,
    ) -> (r: Self)
        ensures
            r == (SyncModeConfigurator {
                slave_address,
                rx_sm,
                tx_sm,
                sync_mode,
                cycle_time,
                step: SyncStep::SmType { tx: false },
                sm_cycle_ns: 0,
                rx_cycle_ns: 0,
                tx_cycle_ns: 0,
                start_time: 0,
            }),
    {
        SyncModeConfigurator {
            slave_address,
            rx_sm,
            tx_sm,
            sync_mode,
            cycle_time,
            step: SyncStep::SmType { tx: false },
            sm_cycle_ns: 0,
            rx_cycle_ns: 0,
            tx_cycle_ns: 0,
            start_time: 0,
        }
    }

    fn sm(&self, tx: bool) -> (r: u8)
        ensures
            r == sm_of(*self, tx),
    {
        if tx {
            self.tx_sm
        } else {
            self.rx_sm
        }
    }

    fn param_index(&self, tx: bool) -> (r: u16)
        ensures
            r == sm_param_index(*self, tx),
    {
        0x1C30 + self.sm(tx) as u16
    }

    fn sync_cycle(&self) -> (r: u32)
        ensures
            r == sync_cycle_ns(*self),
    {
        match self.cycle_time {
            CycleTimeSetting::DefaultValue => if self.rx_cycle_ns >= self.tx_cycle_ns {
                self.rx_cycle_ns
            } else {
                self.tx_cycle_ns
            },
            CycleTimeSetting::SpecifiedValue(t) => t,
        }
    }

    /// The access to make next.
    pub fn next_access(&self) -> (r: SyncAccess)
        requires
            sync_config_wf(*self),
        ensures
            r@ == sync_access_spec(*self),
    {
        match self.step {
            SyncStep::SmType { tx } => SyncAccess::ReadSdo { index: 0x1C00, sub_index: self.sm(tx) + 1 },
            SyncStep::CycleTime { tx } => SyncAccess::ReadSdo { index: self.param_index(tx), sub_index: 2 },
            SyncStep::SyncType { tx } => SyncAccess::ReadSdo { index: self.param_index(tx), sub_index: 4 },
            SyncStep::MinCycleTime { tx } => SyncAccess::ReadSdo { index: self.param_index(tx), sub_index: 5 },
            SyncStep::SetSyncType { tx } => {
                let data = vec![self.sync_mode.code(), 0];
                assert(data@ =~= seq![self.sync_mode.code_spec(), 0u8]);
                SyncAccess::WriteSdo { index: self.param_index(tx), sub_index: 1, data }
            },
            SyncStep::SetCycleTime { tx } => SyncAccess::WriteSdo {
                index: self.param_index(tx),
                sub_index: 2,
                data: le32_vec(self.sm_cycle_ns),
            },
            SyncStep::ResetSyncError { tx } => {
                let data = vec![1, 0];
                assert(data@ =~= seq![1u8, 0u8]);
                SyncAccess::WriteSdo { index: self.param_index(tx), sub_index: 8, data }
            },
            SyncStep::SyncErrorLimit => {
                let data = vec![9, 0];
                assert(data@ =~= seq![9u8, 0u8]);
                SyncAccess::WriteSdo { index: 0x10F1, sub_index: 2, data }
            },
            SyncStep::Sync0Cycle => SyncAccess::WriteRegister {
                address: Sync0CycleTime::ADDRESS,
                data: le32_vec(self.sync_cycle()),
            },
            SyncStep::Sync1Cycle => SyncAccess::WriteRegister {
                address: Sync1CycleTime::ADDRESS,
                data: le32_vec(self.sync_cycle() / 2),
            },
            SyncStep::SystemTime => SyncAccess::ReadRegister {
                address: DcSystemTime::ADDRESS,
                size: DcSystemTime::SIZE,
            },
            SyncStep::StartTime => SyncAccess::WriteRegister {
                address: CyclicOperationStartTime::ADDRESS,
                data: le64_vec(self.start_time),
            },
            SyncStep::Activate => {
                let b: u8 = match self.sync_mode {
                    SyncMode::Sync0Event | SyncMode::Sync1Event => 0x07,
                    _ => 0x00,
                };
                let data = vec![b];
                assert(data@ =~= seq![dc_activation_byte(self.sync_mode)]);
                SyncAccess::WriteRegister { address: DcActivation::ADDRESS, data }
            },
            SyncStep::ReadStartTime => SyncAccess::ReadRegister {
                address: CyclicOperationStartTime::ADDRESS,
                size: DcSystemTime::SIZE,
            },
            SyncStep::WaitStart => SyncAccess::ReadRegister {
                address: DcSystemTime::ADDRESS,
                size: DcSystemTime::SIZE,
            },
            SyncStep::Done => SyncAccess::Done,
        }
    }

    fn error_kind(&self) -> (r: ConfigErrorKind)
        requires
            sync_config_wf(*self),
        ensures
            r == sync_error_kind(*self),
    {
        match self.step {
            SyncStep::SmType { tx } => ConfigErrorKind::GetSyncManagerCommunicationType(
                SdoError { index: 0x1C00, sub_index: self.sm(tx) + 1 },
            ),
            SyncStep::CycleTime { tx } => ConfigErrorKind::GetSyncManagerCycleTime(
                SdoError { index: self.param_index(tx), sub_index: 2 },
            ),
            SyncStep::SyncType { tx } => ConfigErrorKind::GetSyncManagerSyncType(
                SdoError { index: self.param_index(tx), sub_index: 4 },
            ),
            SyncStep::MinCycleTime { tx } => ConfigErrorKind::GetMinimumCycleTime(
                SdoError { index: self.param_index(tx), sub_index: 5 },
            ),
            SyncStep::SetSyncType { tx } => ConfigErrorKind::SetSyncManagerSyncType(
                SdoError { index: self.param_index(tx), sub_index: 1 },
            ),
            SyncStep::SetCycleTime { tx } => ConfigErrorKind::SetSyncManagerCycleTime(
                SdoError { index: self.param_index(tx), sub_index: 2 },
            ),
            SyncStep::ResetSyncError { tx } => ConfigErrorKind::ResetSyncError(
                SdoError { index: self.param_index(tx), sub_index: 8 },
            ),
            SyncStep::SyncErrorLimit => ConfigErrorKind::ResetSyncError(SdoError { index: 0x10F1, sub_index: 2 }),
            SyncStep::Sync0Cycle => ConfigErrorKind::SetSync0CycleTime(
                RegisterError { address: Sync0CycleTime::ADDRESS },
            ),
            SyncStep::Sync1Cycle => ConfigErrorKind::SetSync1CycleTime(
                RegisterError { address: Sync1CycleTime::ADDRESS },
            ),
            SyncStep::StartTime => ConfigErrorKind::SetSyncSignalStartTime(
                RegisterError { address: CyclicOperationStartTime::ADDRESS },
            ),
            SyncStep::Activate => ConfigErrorKind::ActivateDc(RegisterError { address: DcActivation::ADDRESS }),
            _ => ConfigErrorKind::SetSyncSignalStartTime(RegisterError { address: DcSystemTime::ADDRESS }),
        }
    }

    fn finish(&mut self, tx: bool, cycle: u32)
        ensures
            *final(self) == finish_sm(*old(self), tx, cycle),
    {
        let next = if !tx {
            SyncStep::SmType { tx: true }
        } else if self.sync_mode != SyncMode::FreeRun {
            SyncStep::SyncErrorLimit
        } else {
            SyncStep::Sync0Cycle
        };
        if tx {
            self.tx_cycle_ns = cycle;
        } else {
            self.rx_cycle_ns = cycle;
        }
        self.step = next;
    }

    /// Whether `reply` can be handed to `on_reply`: long enough for what
    /// the step reads, a sync manager of the expected kind, and a system
    /// time with room for the start delay.
    pub fn accepts(&self, reply: &[u8]) -> (r: bool)
        ensures
            r == sync_reply_ok(*self, reply@),
    {
        match self.step {
            SyncStep::SmType { tx } => reply.len() >= 1 && (reply[0] == 0 || reply[0] == if tx {
                4u8
            } else {
                3u8
            }),
            SyncStep::CycleTime { .. } => reply.len() >= 5,
            SyncStep::SyncType { .. } => reply.len() >= 1,
            SyncStep::MinCycleTime { .. } => reply.len() >= 4,
            SyncStep::SystemTime => reply.len() >= 8 && DcSystemTime::local_system_time(reply) <= u64::MAX
                - 10_000_000,
            SyncStep::ReadStartTime | SyncStep::WaitStart => reply.len() >= 8,
            _ => true,
        }
    }

    /// Takes the outcome of the access: its reply, or `None` where it
    /// failed. A failed access is reported as the error of its step; a
    /// configuration that is done stays done.
    pub fn on_reply(&mut self, reply: Option<&[u8]>) -> (r: Result<(), ConfigError>)
        requires
            sync_config_wf(*old(self)),
            reply matches Some(data) ==> sync_reply_ok(*old(self), data@),
        ensures
            sync_config_wf(*final(self)),
            old(self).step == SyncStep::Done ==> r is Ok && *final(self) == *old(self),
            old(self).step != SyncStep::Done ==> match reply {
                None => r == Err::<(), ConfigError>(
                    ConfigError { slave_address: old(self).slave_address, kind: sync_error_kind(*old(self)) },
                ) && *final(self) == *old(self),
                Some(data) => match sync_step_spec(*old(self), data@) {
                    Ok(next) => r is Ok && *final(self) == next,
                    Err(kind) => r == Err::<(), ConfigError>(
                        ConfigError { slave_address: old(self).slave_address, kind },
                    ) && *final(self) == *old(self),
                },
            },
    {
        if self.step == SyncStep::Done {
            return Ok(());
        }
        let data = match reply {
            None => {
                return Err(ConfigError { slave_address: self.slave_address, kind: self.error_kind() });
            },
            Some(data) => data,
        };
        match self.step {
            SyncStep::SmType { tx } => {
                if data[0] == 0 {
                    self.finish(tx, 0);
                } else {
                    match self.cycle_time {
                        CycleTimeSetting::DefaultValue => {
                            self.step = SyncStep::CycleTime { tx };
                        },
                        CycleTimeSetting::SpecifiedValue(t) => {
                            self.step = SyncStep::SyncType { tx };
                            self.sm_cycle_ns = t;
                        },
                    }
                }
            },
            SyncStep::CycleTime { tx } => {
                self.sm_cycle_ns = data[0] as u32 + 0x100 * data[1] as u32 + 0x1_0000 * data[2] as u32
                    + 0x100_0000 * data[4] as u32;
                self.step = SyncStep::SyncType { tx };
            },
            SyncStep::SyncType { tx } => {
                if data[0] & self.sync_mode.support_mask() == 0 {
                    return Err(
                        ConfigError {
                            slave_address: self.slave_address,
                            kind: ConfigErrorKind::SyncModeNotSupported(self.sync_mode),
                        },
                    );
                }
                self.step = SyncStep::MinCycleTime { tx };
            },
            SyncStep::MinCycleTime { tx } => {
                let min = read_le32(data, 0);
                if self.sm_cycle_ns < min {
                    return Err(
                        ConfigError {
                            slave_address: self.slave_address,
                            kind: ConfigErrorKind::CycleTimeTooSmall(min),
                        },
                    );
                }
                self.step = SyncStep::SetSyncType { tx };
            },
            SyncStep::SetSyncType { tx } => {
                match self.cycle_time {
                    CycleTimeSetting::SpecifiedValue(_) => {
                        self.step = SyncStep::SetCycleTime { tx };
                    },
                    CycleTimeSetting::DefaultValue => {
                        if self.sync_mode != SyncMode::FreeRun {
                            self.step = SyncStep::ResetSyncError { tx };
                        } else {
                            let cycle = self.sm_cycle_ns;
                            self.finish(tx, cycle);
                        }
                    },
                }
            },
            SyncStep::SetCycleTime { tx } => {
                if self.sync_mode != SyncMode::FreeRun {
                    self.step = SyncStep::ResetSyncError { tx };
                } else {
                    let cycle = self.sm_cycle_ns;
                    self.finish(tx, cycle);
                }
            },
            SyncStep::ResetSyncError { tx } => {
                let cycle = self.sm_cycle_ns;
                self.finish(tx, cycle);
            },
            SyncStep::SyncErrorLimit => {
                self.step = SyncStep::Sync0Cycle;
            },
            SyncStep::Sync0Cycle => {
                self.step = SyncStep::Sync1Cycle;
            },
            SyncStep::Sync1Cycle => {
                self.step = SyncStep::SystemTime;
            },
            SyncStep::SystemTime => {
                self.start_time = DcSystemTime::local_system_time(data) + 10_000_000;
                self.step = SyncStep::StartTime;
            },
            SyncStep::StartTime => {
                self.step = SyncStep::Activate;
            },
            SyncStep::Activate => {
                self.step = SyncStep::ReadStartTime;
            },
            SyncStep::ReadStartTime => {
                self.start_time = DcSystemTime::local_system_time(data);
                self.step = SyncStep::WaitStart;
            },
            SyncStep::WaitStart => {
                if self.start_time < DcSystemTime::local_system_time(data) {
                    self.step = SyncStep::Done;
                }
            },
            SyncStep::Done => {},
        }
        Ok(())
    }

    pub fn is_done(&self) -> (r: bool)
        ensures
            r == (self.step == SyncStep::Done),
    {
        self.step == SyncStep::Done
    }
}

/// At the activation step the configuration writes one byte to the DC
/// activation register 0x0981: 0x07 (cyclic operation, SYNC0 and SYNC1
/// active) in the two SYNC modes, and 0x00 (nothing active) in free run and
/// on sync manager events.
pub proof fn lemma_activation_writes_sync_signals(c: SyncModeConfigurator)
    requires
        c.step == SyncStep::Activate,
    ensures
        (c.sync_mode == SyncMode::Sync0Event || c.sync_mode == SyncMode::Sync1Event) ==> sync_access_spec(c)
            == (SyncAccessModel::WriteRegister { address: 0x0981, data: seq![0x07u8] }),
        (c.sync_mode == SyncMode::FreeRun || c.sync_mode == SyncMode::SyncManagerEvent) ==> sync_access_spec(c)
            == (SyncAccessModel::WriteRegister { address: 0x0981, data: seq![0x00u8] }),
{
}

/// The SYNC signals' registers and the synchronisation type: the SYNC0
/// cycle register 0x09A0 gets the interval (the one given, else the longer
/// of the two sync managers' cycle times) as four little-endian bytes, the
/// SYNC1 cycle register 0x09A4 half of it, and the synchronisation type
/// entry the mode's number (0 free run, 1 sync manager event, 2 SYNC0, 3
/// SYNC1) followed by a zero byte.
pub proof fn lemma_sync_signal_writes(c: SyncModeConfigurator)
    ensures
        ({
            let t: int = match c.cycle_time {
                CycleTimeSetting::SpecifiedValue(v) => v as int,
                CycleTimeSetting::DefaultValue => if c.rx_cycle_ns >= c.tx_cycle_ns {
                    c.rx_cycle_ns as int
                } else {
                    c.tx_cycle_ns as int
                },
            };
            &&& c.step == SyncStep::Sync0Cycle ==> (sync_access_spec(c) matches SyncAccessModel::WriteRegister {
                address,
                data,
            } && address == 0x09A0 && data.len() == 4 && data[0] + 256 * data[1] + 65536 * data[2] + 16777216
                * data[3] == t)
            &&& c.step == SyncStep::Sync1Cycle ==> (sync_access_spec(c) matches SyncAccessModel::WriteRegister {
                address,
                data,
            } && address == 0x09A4 && data.len() == 4 && data[0] + 256 * data[1] + 65536 * data[2] + 16777216
                * data[3] == t / 2)
        }),
        c.step matches SyncStep::SetSyncType { .. } ==> (sync_access_spec(c) matches SyncAccessModel::WriteSdo {
            sub_index,
            data,
            ..
        } && sub_index == 1 && data == seq![
            match c.sync_mode {
                SyncMode::FreeRun => 0u8,
                SyncMode::SyncManagerEvent => 1u8,
                SyncMode::Sync0Event => 2u8,
                SyncMode::Sync1Event => 3u8,
            },
            0u8,
        ]),
{
    lemma_le32_bytes_reads_back(sync_cycle_ns(c));
    lemma_le32_bytes_reads_back((sync_cycle_ns(c) / 2) as u32);
}

proof fn lemma_le32_bytes_reads_back(v: u32)
    ensures
        le32_bytes(v).len() == 4,
        le32_bytes(v)[0] + 256 * le32_bytes(v)[1] + 65536 * le32_bytes(v)[2] + 16777216 * le32_bytes(v)[3] == v,
{
    let x = v as int;
    let lo = x % 65536;
    let hi = (x / 65536) % 65536;
    assert(x == lo + 65536 * hi) by (nonlinear_arith)
        requires
            0 <= x < 0x1_0000_0000,
            lo == x % 65536,
            hi == (x / 65536) % 65536,
    ;
    assert(lo == lo % 256 + 256 * ((lo / 256) % 256)) by (nonlinear_arith)
        requires
            0 <= lo < 65536,
    ;
    assert(hi == hi % 256 + 256 * ((hi / 256) % 256)) by (nonlinear_arith)
        requires
            0 <= hi < 65536,
    ;
}

} // verus!
