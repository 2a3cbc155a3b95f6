//! CANopen over EtherCAT: the CoE header, the SDO header, abort codes and
//! emergency messages.
use crate::bytes::{le16, le32, put_le16, put_le32, read_le16, read_le32, write_le16, write_le32};
use vstd::prelude::*;
use vstd::slice::slice_subrange;

verus! {

// ---------------------------------------------------------------------------
// CoE header, two bytes (LSB0): number 0..=8, service type 12..=15.
// ---------------------------------------------------------------------------
pub open spec fn coe_number(s: Seq<u8>, o: int) -> int {
    s[o] + 256 * (s[o + 1] % 2)
}

pub open spec fn coe_service_code(s: Seq<u8>, o: int) -> int {
    (s[o + 1] / 16) as int
}

pub open spec fn put_coe_number(s: Seq<u8>, o: int, v: int) -> Seq<u8> {
    s.update(o, (v % 256) as u8).update(o + 1, ((s[o + 1] / 2) * 2 + (v / 256) % 2) as u8)
}

pub open spec fn put_coe_service_code(s: Seq<u8>, o: int, v: int) -> Seq<u8> {
    s.update(o + 1, (s[o + 1] % 16 + (v % 16) * 16) as u8)
}

pub fn coe_service_code_at(buf: &[u8], o: usize) -> (r: u8)
    requires
        o + 2 <= buf.len(),
    ensures
        r == coe_service_code(buf@, o as int),
{
    buf[o + 1] / 16
}

pub fn set_coe_number_at(buf: &mut Vec<u8>, o: usize, v: u16)
    requires
        o + 2 <= old(buf).len(),
    ensures
        final(buf)@ == put_coe_number(old(buf)@, o as int, v as int),
{
    let b = buf[o + 1];
    let hi = ((v / 256) % 2) as u8;
    buf[o] = (v % 256) as u8;
    buf[o + 1] = (b / 2) * 2 + hi;
}

pub fn set_coe_service_code_at(buf: &mut Vec<u8>, o: usize, v: u8)
    requires
        o + 2 <= old(buf).len(),
    ensures
        final(buf)@ == put_coe_service_code(old(buf)@, o as int, v as int),
{
    let b = buf[o + 1];
    buf[o + 1] = b % 16 + (v % 16) * 16;
}

/// CoE service carried in a mailbox.
#[derive(Debug, Clone, Copy, PartialEq, Eq, Structural)]
pub enum CoeServiceType {
    Emmergency,
    SdoReq,
    SdoRes,
    TxPdo,
    RxPdo,
    TxPdoRemoteReq,
    RxPdoRemoteReq,
    SdoInfo,
    Other,
}

pub open spec fn coe_service_type_spec(v: int) -> CoeServiceType {
    if v == 1 {
        CoeServiceType::Emmergency
    } else if v == 2 {
        CoeServiceType::SdoReq
    } else if v == 3 {
        CoeServiceType::SdoRes
    } else if v == 4 {
        CoeServiceType::TxPdo
    } else if v == 5 {
        CoeServiceType::RxPdo
    } else if v == 6 {
        CoeServiceType::TxPdoRemoteReq
    } else if v == 7 {
        CoeServiceType::RxPdoRemoteReq
    } else if v == 8 {
        CoeServiceType::SdoInfo
    } else {
        CoeServiceType::Other
    }
}

pub open spec fn coe_service_type_code(t: CoeServiceType) -> int {
    match t {
        CoeServiceType::Emmergency => 1,
        CoeServiceType::SdoReq => 2,
        CoeServiceType::SdoRes => 3,
        CoeServiceType::TxPdo => 4,
        CoeServiceType::RxPdo => 5,
        CoeServiceType::TxPdoRemoteReq => 6,
        CoeServiceType::RxPdoRemoteReq => 7,
        CoeServiceType::SdoInfo => 8,
        CoeServiceType::Other => 9,
    }
}

impl CoeServiceType {
    /// Decodes a service code; unknown codes give `Other`.
    pub fn from_u8(v: u8) -> (r: CoeServiceType)
        ensures
            r == coe_service_type_spec(v as int),
    {
        match v {
            1 => CoeServiceType::Emmergency,
            2 => CoeServiceType::SdoReq,
            3 => CoeServiceType::SdoRes,
            4 => CoeServiceType::TxPdo,
            5 => CoeServiceType::RxPdo,
            6 => CoeServiceType::TxPdoRemoteReq,
            7 => CoeServiceType::RxPdoRemoteReq,
            8 => CoeServiceType::SdoInfo,
            _ => CoeServiceType::Other,
        }
    }

    /// The service code.
    pub fn to_u8(self) -> (r: u8)
        ensures
            r == coe_service_type_code(self),
    {
        match self {
            CoeServiceType::Emmergency => 1,
            CoeServiceType::SdoReq => 2,
            CoeServiceType::SdoRes => 3,
            CoeServiceType::TxPdo => 4,
            CoeServiceType::RxPdo => 5,
            CoeServiceType::TxPdoRemoteReq => 6,
            CoeServiceType::RxPdoRemoteReq => 7,
            CoeServiceType::SdoInfo => 8,
            CoeServiceType::Other => 9,
        }
    }
}

/// A CoE header (and what follows it) over its buffer.
pub struct CoeFrame(pub Vec<u8>);

impl CoeFrame {
    pub const HEADER_SIZE: usize = 2;

    pub fn new() -> (r: Self)
        ensures
            r.0@ == Seq::new(2, |i: int| 0u8),
    {
        CoeFrame(vec![0u8; 2])
    }

    pub fn number(&self) -> (r: u16)
        requires
            2 <= self.0.len(),
        ensures
            r == coe_number(self.0@, 0),
    {
        let lo = self.0[0] as u16;
        let hi = self.0[1] as u16;
        lo + 256 * (hi % 2)
    }

    pub fn service_type(&self) -> (r: u8)
        requires
            2 <= self.0.len(),
        ensures
            r == coe_service_code(self.0@, 0),
    {
        coe_service_code_at(self.0.as_slice(), 0)
    }

    pub fn coe_service_type(&self) -> (r: CoeServiceType)
        requires
            2 <= self.0.len(),
        ensures
            r == coe_service_type_spec(coe_service_code(self.0@, 0)),
    {
        CoeServiceType::from_u8(self.service_type())
    }

    pub fn set_number(&mut self, v: u16)
        requires
            2 <= old(self).0.len(),
        ensures
            final(self).0@ == put_coe_number(old(self).0@, 0, v as int),
    {
        set_coe_number_at(&mut self.0, 0, v);
    }

    pub fn set_service_type(&mut self, v: u8)
        requires
            2 <= old(self).0.len(),
        ensures
            final(self).0@ == put_coe_service_code(old(self).0@, 0, v as int),
    {
        set_coe_service_code_at(&mut self.0, 0, v);
    }

    pub fn set_coe_service_type(&mut self, coe_type: CoeServiceType)
        requires
            2 <= old(self).0.len(),
        ensures
            final(self).0@ == put_coe_service_code(
                old(self).0@,
                0,
                coe_service_type_code(coe_type),
            ),
    {
        self.set_service_type(coe_type.to_u8());
    }

    /// The bytes after the header.
    pub fn without_header(&self) -> (r: &[u8])
        requires
            2 <= self.0.len(),
        ensures
            r@ == self.0@.subrange(2, self.0@.len() as int),
    {
        slice_subrange(self.0.as_slice(), 2, self.0.len())
    }
}

// ---------------------------------------------------------------------------
// SDO header, four bytes (LSB0): size indicator 0, transfer type 1,
// data set size 2..=3, complete access 4, command specifier 5..=7,
// index 8..=23, sub-index 24..=31.
// ---------------------------------------------------------------------------
pub open spec fn sdo_size_indicator(s: Seq<u8>, o: int) -> bool {
    s[o] % 2 == 1
}

pub open spec fn sdo_transfer_type(s: Seq<u8>, o: int) -> bool {
    (s[o] / 2) % 2 == 1
}

pub open spec fn sdo_data_set_size(s: Seq<u8>, o: int) -> int {
    ((s[o] / 4) % 4) as int
}

pub open spec fn sdo_complete_access(s: Seq<u8>, o: int) -> bool {
    (s[o] / 16) % 2 == 1
}

pub open spec fn sdo_command_specifier(s: Seq<u8>, o: int) -> int {
    (s[o] / 32) as int
}

pub open spec fn sdo_index(s: Seq<u8>, o: int) -> int {
    le16(s, o + 1)
}

pub open spec fn sdo_sub_index(s: Seq<u8>, o: int) -> int {
    s[o + 3] as int
}

/// The first SDO header byte built from its five fields.
pub open spec fn sdo_flags_byte(
    size_indicator: bool,
    transfer_type: bool,
    data_set_size: int,
    complete_access: bool,
    command_specifier: int,
) -> u8 {
    ((if size_indicator {
        1int
    } else {
        0int
    }) + (if transfer_type {
        2int
    } else {
        0int
    }) + (data_set_size % 4) * 4 + (if complete_access {
        16int
    } else {
        0int
    }) + (command_specifier % 8) * 32) as u8
}

pub fn sdo_flags_at(buf: &[u8], o: usize) -> (r: (bool, bool, u8, bool, u8))
    requires
        o + 4 <= buf.len(),
    ensures
        r.0 == sdo_size_indicator(buf@, o as int),
        r.1 == sdo_transfer_type(buf@, o as int),
        r.2 == sdo_data_set_size(buf@, o as int),
        r.3 == sdo_complete_access(buf@, o as int),
        r.4 == sdo_command_specifier(buf@, o as int),
{
    let b = buf[o];
    (b % 2 == 1, (b / 2) % 2 == 1, (b / 4) % 4, (b / 16) % 2 == 1, b / 32)
}

/// Writes the first SDO header byte from its five fields.
pub fn set_sdo_flags_at(
    buf: &mut Vec<u8>,
    o: usize,
    size_indicator: bool,
    transfer_type: bool,
    data_set_size: u8,
    complete_access: bool,
    command_specifier: u8,
)
    requires
        o + 4 <= old(buf).len(),
    ensures
        final(buf)@ == old(buf)@.update(
            o as int,
            sdo_flags_byte(
                size_indicator,
                transfer_type,
                data_set_size as int,
                complete_access,
                command_specifier as int,
            ),
        ),
{
    let a: u8 = if size_indicator {
        1
    } else {
        0
    };
    let b: u8 = if transfer_type {
        2
    } else {
        0
    };
    let c: u8 = if complete_access {
        16
    } else {
        0
    };
    let d = data_set_size % 4;
    let e = command_specifier % 8;
    buf[o] = a + b + d * 4 + c + e * 32;
}

/// An SDO header (and what follows it) over its buffer.
pub struct SdoFrame(pub Vec<u8>);

impl SdoFrame {
    pub const HEADER_SIZE: usize = 4;

    pub fn new() -> (r: Self)
        ensures
            r.0@ == Seq::new(4, |i: int| 0u8),
    {
        SdoFrame(vec![0u8; 4])
    }

    pub fn size_indicator(&self) -> (r: bool)
        requires
            4 <= self.0.len(),
        ensures
            r == sdo_size_indicator(self.0@, 0),
    {
        sdo_flags_at(self.0.as_slice(), 0).0
    }

    pub fn transfer_type(&self) -> (r: bool)
        requires
            4 <= self.0.len(),
        ensures
            r == sdo_transfer_type(self.0@, 0),
    {
        sdo_flags_at(self.0.as_slice(), 0).1
    }

    pub fn data_set_size(&self) -> (r: u8)
        requires
            4 <= self.0.len(),
        ensures
            r == sdo_data_set_size(self.0@, 0),
    {
        sdo_flags_at(self.0.as_slice(), 0).2
    }

    pub fn complete_access(&self) -> (r: bool)
        requires
            4 <= self.0.len(),
        ensures
            r == sdo_complete_access(self.0@, 0),
    {
        sdo_flags_at(self.0.as_slice(), 0).3
    }

    pub fn command_specifier(&self) -> (r: u8)
        requires
            4 <= self.0.len(),
        ensures
            r == sdo_command_specifier(self.0@, 0),
    {
        sdo_flags_at(self.0.as_slice(), 0).4
    }

    pub fn index(&self) -> (r: u16)
        requires
            4 <= self.0.len(),
        ensures
            r == sdo_index(self.0@, 0),
    {
        read_le16(self.0.as_slice(), 1)
    }

    pub fn sub_index(&self) -> (r: u8)
        requires
            4 <= self.0.len(),
        ensures
            r == sdo_sub_index(self.0@, 0),
    {
        self.0[3]
    }

    pub fn set_index(&mut self, v: u16)
        requires
            4 <= old(self).0.len(),
        ensures
            final(self).0@ == put_le16(old(self).0@, 1, v as int),
    {
        write_le16(&mut self.0, 1, v);
    }

    pub fn set_sub_index(&mut self, v: u8)
        requires
            4 <= old(self).0.len(),
        ensures
            final(self).0@ == old(self).0@.update(3, v),
    {
        self.0[3] = v;
    }

    /// Writes the five one-byte fields of the header at once.
    pub fn set_flags(
        &mut self,
        size_indicator: bool,
        transfer_type: bool,
        data_set_size: u8,
        complete_access: bool,
        command_specifier: u8,
    )
        requires
            4 <= old(self).0.len(),
        ensures
            final(self).0@ == old(self).0@.update(
                0,
                sdo_flags_byte(
                    size_indicator,
                    transfer_type,
                    data_set_size as int,
                    complete_access,
                    command_specifier as int,
                ),
            ),
    {
        set_sdo_flags_at(
            &mut self.0,
            0,
            size_indicator,
            transfer_type,
            data_set_size,
            complete_access,
            command_specifier,
        );
    }

    /// The bytes after the header.
    pub fn without_header(&self) -> (r: &[u8])
        requires
            4 <= self.0.len(),
        ensures
            r@ == self.0@.subrange(4, self.0@.len() as int),
    {
        slice_subrange(self.0.as_slice(), 4, self.0.len())
    }
}

/// The size field that follows the SDO header of a normal download request.
pub struct SdoDownloadNormalRequestFrame(pub Vec<u8>);

impl SdoDownloadNormalRequestFrame {
    pub const HEADER_SIZE: usize = 4;

    pub fn new() -> (r: Self)
        ensures
            r.0@ == Seq::new(4, |i: int| 0u8),
    {
        SdoDownloadNormalRequestFrame(vec![0u8; 4])
    }

    pub fn complete_size(&self) -> (r: u32)
        requires
            4 <= self.0.len(),
        ensures
            r == le32(self.0@, 0),
    {
        read_le32(self.0.as_slice(), 0)
    }

    pub fn set_complete_size(&mut self, v: u32)
        requires
            4 <= old(self).0.len(),
        ensures
            final(self).0@ == put_le32(old(self).0@, 0, v as int),
    {
        write_le32(&mut self.0, 0, v);
    }
}

// ---------------------------------------------------------------------------
// Abort codes
// ---------------------------------------------------------------------------
/// Reason an SDO transfer was aborted.
#[derive(Debug, Clone, Copy, PartialEq, Eq, Structural)]
pub enum AbortCode {
    NoToggleBitChange,
    Timeout,
    UnknownClient,
    OutsideMemoryRange,
    NotSupportedAccess,
    WriteOnly,
    ReadOnly,
    SubIndexCannotBeWritten,
    NotSupportForVariableLength,
    LengthExceedsMailboxSize,
    ObjectMappedToRxPdo,
    DoesNotExistInDict,
    UnableToMapToPdo,
    PdoLimit,
    ParameterIncompatibilities,
    DeviceIncompatibilities,
    FailureDueToWriteProtect,
    ParameterLengthMismatch,
    ParameterLengthTooLong,
    ParameterLengthTooShort,
    SubIndexDoesNotExist,
    ValueRangeExceeded,
    WriteParameterTooLarge,
    WriteParameterTooSmall,
    ConfiguredModuleListDoesNotMatch,
    MaxValueIsLessThanMinValue,
    GeneralError,
    CannotTransfer,
    CannotTransferDueToLocalControl,
    CannotTransferInCurrentState,
    ObjectDictionaryDoesNotExist,
    UnknownAbortCode,
}

pub open spec fn abort_code_value(c: AbortCode) -> int {
    match c {
        AbortCode::NoToggleBitChange => 0x05_03_00_00,
        AbortCode::Timeout => 0x05_04_00_00,
        AbortCode::UnknownClient => 0x05_04_00_01,
        AbortCode::OutsideMemoryRange => 0x05_04_00_05,
        AbortCode::NotSupportedAccess => 0x06_01_00_00,
        AbortCode::WriteOnly => 0x06_01_00_01,
        AbortCode::ReadOnly => 0x06_01_00_02,
        AbortCode::SubIndexCannotBeWritten => 0x06_01_00_03,
        AbortCode::NotSupportForVariableLength => 0x06_01_00_04,
        AbortCode::LengthExceedsMailboxSize => 0x06_01_00_05,
        AbortCode::ObjectMappedToRxPdo => 0x06_01_00_06,
        AbortCode::DoesNotExistInDict => 0x06_02_00_00,
        AbortCode::UnableToMapToPdo => 0x06_04_00_41,
        AbortCode::PdoLimit => 0x06_04_00_42,
        AbortCode::ParameterIncompatibilities => 0x06_04_00_43,
        AbortCode::DeviceIncompatibilities => 0x06_04_00_47,
        AbortCode::FailureDueToWriteProtect => 0x06_06_00_00,
        AbortCode::ParameterLengthMismatch => 0x06_07_00_10,
        AbortCode::ParameterLengthTooLong => 0x06_07_00_12,
        AbortCode::ParameterLengthTooShort => 0x06_07_00_13,
        AbortCode::SubIndexDoesNotExist => 0x06_09_00_11,
        AbortCode::ValueRangeExceeded => 0x06_09_00_30,
        AbortCode::WriteParameterTooLarge => 0x06_09_00_31,
        AbortCode::WriteParameterTooSmall => 0x06_09_00_32,
        AbortCode::ConfiguredModuleListDoesNotMatch => 0x06_09_00_33,
        AbortCode::MaxValueIsLessThanMinValue => 0x06_09_00_36,
        AbortCode::GeneralError => 0x08_00_00_00,
        AbortCode::CannotTransfer => 0x08_00_00_20,
        AbortCode::CannotTransferDueToLocalControl => 0x08_00_00_21,
        AbortCode::CannotTransferInCurrentState => 0x08_00_00_22,
        AbortCode::ObjectDictionaryDoesNotExist => 0x08_00_00_23,
        AbortCode::UnknownAbortCode => 0x08_00_00_24,
    }
}

/// The abort code with the given value; values that name no code give
/// `UnknownAbortCode`.
pub open spec fn abort_code_spec(v: int) -> AbortCode {
    if exists|c: AbortCode| c != AbortCode::UnknownAbortCode && #[trigger] abort_code_value(c) == v {
        choose|c: AbortCode| c != AbortCode::UnknownAbortCode && #[trigger] abort_code_value(c) == v
    } else {
        AbortCode::UnknownAbortCode
    }
}

impl AbortCode {
    /// Decodes an abort code value.
    pub fn from_u32(v: u32) -> (r: AbortCode)
        ensures
            r == abort_code_spec(v as int),
    {
        let r = match v {
            0x05_03_00_00 => AbortCode::NoToggleBitChange,
            0x05_04_00_00 => AbortCode::Timeout,
            0x05_04_00_01 => AbortCode::UnknownClient,
            0x05_04_00_05 => AbortCode::OutsideMemoryRange,
            0x06_01_00_00 => AbortCode::NotSupportedAccess,
            0x06_01_00_01 => AbortCode::WriteOnly,
            0x06_01_00_02 => AbortCode::ReadOnly,
            0x06_01_00_03 => AbortCode::SubIndexCannotBeWritten,
            0x06_01_00_04 => AbortCode::NotSupportForVariableLength,
            0x06_01_00_05 => AbortCode::LengthExceedsMailboxSize,
            0x06_01_00_06 => AbortCode::ObjectMappedToRxPdo,
            0x06_02_00_00 => AbortCode::DoesNotExistInDict,
            0x06_04_00_41 => AbortCode::UnableToMapToPdo,
            0x06_04_00_42 => AbortCode::PdoLimit,
            0x06_04_00_43 => AbortCode::ParameterIncompatibilities,
            0x06_04_00_47 => AbortCode::DeviceIncompatibilities,
            0x06_06_00_00 => AbortCode::FailureDueToWriteProtect,
            0x06_07_00_10 => AbortCode::ParameterLengthMismatch,
            0x06_07_00_12 => AbortCode::ParameterLengthTooLong,
            0x06_07_00_13 => AbortCode::ParameterLengthTooShort,
            0x06_09_00_11 => AbortCode::SubIndexDoesNotExist,
            0x06_09_00_30 => AbortCode::ValueRangeExceeded,
            0x06_09_00_31 => AbortCode::WriteParameterTooLarge,
            0x06_09_00_32 => AbortCode::WriteParameterTooSmall,
            0x06_09_00_33 => AbortCode::ConfiguredModuleListDoesNotMatch,
            0x06_09_00_36 => AbortCode::MaxValueIsLessThanMinValue,
            0x08_00_00_00 => AbortCode::GeneralError,
            0x08_00_00_20 => AbortCode::CannotTransfer,
            0x08_00_00_21 => AbortCode::CannotTransferDueToLocalControl,
            0x08_00_00_22 => AbortCode::CannotTransferInCurrentState,
            0x08_00_00_23 => AbortCode::ObjectDictionaryDoesNotExist,
            _ => AbortCode::UnknownAbortCode,
        };
        proof {
            if r == AbortCode::UnknownAbortCode {
                assert forall|c: AbortCode|
                    c != AbortCode::UnknownAbortCode implies #[trigger] abort_code_value(c) != v by {
                    match c {
                        _ => {},
                    }
                }
            } else {
                assert(abort_code_value(r) == v);
                lemma_abort_code_value_injective(r);
            }
        }
        r
    }

    /// The abort code's value.
    pub fn to_u32(self) -> (r: u32)
        ensures
            r == abort_code_value(self),
    {
        match self {
            AbortCode::NoToggleBitChange => 0x05_03_00_00,
            AbortCode::Timeout => 0x05_04_00_00,
            AbortCode::UnknownClient => 0x05_04_00_01,
            AbortCode::OutsideMemoryRange => 0x05_04_00_05,
            AbortCode::NotSupportedAccess => 0x06_01_00_00,
            AbortCode::WriteOnly => 0x06_01_00_01,
            AbortCode::ReadOnly => 0x06_01_00_02,
            AbortCode::SubIndexCannotBeWritten => 0x06_01_00_03,
            AbortCode::NotSupportForVariableLength => 0x06_01_00_04,
            AbortCode::LengthExceedsMailboxSize => 0x06_01_00_05,
            AbortCode::ObjectMappedToRxPdo => 0x06_01_00_06,
            AbortCode::DoesNotExistInDict => 0x06_02_00_00,
            AbortCode::UnableToMapToPdo => 0x06_04_00_41,
            AbortCode::PdoLimit => 0x06_04_00_42,
            AbortCode::ParameterIncompatibilities => 0x06_04_00_43,
            AbortCode::DeviceIncompatibilities => 0x06_04_00_47,
            AbortCode::FailureDueToWriteProtect => 0x06_06_00_00,
            AbortCode::ParameterLengthMismatch => 0x06_07_00_10,
            AbortCode::ParameterLengthTooLong => 0x06_07_00_12,
            AbortCode::ParameterLengthTooShort => 0x06_07_00_13,
            AbortCode::SubIndexDoesNotExist => 0x06_09_00_11,
            AbortCode::ValueRangeExceeded => 0x06_09_00_30,
            AbortCode::WriteParameterTooLarge => 0x06_09_00_31,
            AbortCode::WriteParameterTooSmall => 0x06_09_00_32,
            AbortCode::ConfiguredModuleListDoesNotMatch => 0x06_09_00_33,
            AbortCode::MaxValueIsLessThanMinValue => 0x06_09_00_36,
            AbortCode::GeneralError => 0x08_00_00_00,
            AbortCode::CannotTransfer => 0x08_00_00_20,
            AbortCode::CannotTransferDueToLocalControl => 0x08_00_00_21,
            AbortCode::CannotTransferInCurrentState => 0x08_00_00_22,
            AbortCode::ObjectDictionaryDoesNotExist => 0x08_00_00_23,
            AbortCode::UnknownAbortCode => 0x08_00_00_24,
        }
    }
}

/// Different abort codes have different values.
pub proof fn lemma_abort_code_value_injective(c: AbortCode)
    ensures
        forall|d: AbortCode| #[trigger] abort_code_value(d) == abort_code_value(c) ==> d == c,
{
}

/// Encoding a known abort code and decoding the value gives the code back.
pub proof fn lemma_abort_code_roundtrip(c: AbortCode)
    requires
        c != AbortCode::UnknownAbortCode,
    ensures
        abort_code_spec(abort_code_value(c)) == c,
{
    lemma_abort_code_value_injective(c);
}

// ---------------------------------------------------------------------------
// Emergency message, eight bytes (LSB0): error code 0..=15,
// error register 16..=23, data 24..=63.
// ---------------------------------------------------------------------------
/// Error class of an emergency message.
#[derive(Debug, Clone, Copy, PartialEq, Eq, Structural)]
pub enum EmmergencyErrorCode {
    ErrorResetOrNoError(u16),
    GenericError(u16),
    Current(u16),
    CurrentInputSide(u16),
    CurrentInside(u16),
    CurrentOutputSide(u16),
    Voltage(u16),
    MainsVoltage(u16),
    VoltageInside(u16),
    OutputVoltage(u16),
    Temperature(u16),
    AmbientTemperature(u16),
    DeviceTempreture(u16),
    DeviceHardware(u16),
    DeviceSoftware(u16),
    IntarnalSoftware(u16),
    UserSoftware(u16),
    DateSet(u16),
    AdditionalModules(u16),
    Monitoring(u16),
    Communication(u16),
    ProtocolError(u16),
    PdoNotProcessedDueToLengthError(u16),
    PdoLengthExceeded(u16),
    ExternalError(u16),
    EsmTransitionError(u16),
    AdditionalFunctions(u16),
    DeviceSpecific(u16),
    Other(u16),
}

/// Classification of an error code by its low byte `h` (which selects the
/// class) and, for communication errors, its high byte `l`.
pub open spec fn emmergency_error_code_spec(code: u16) -> EmmergencyErrorCode {
    let h = code % 256;
    let l = code / 256;
    if h == 0x00 {
        EmmergencyErrorCode::ErrorResetOrNoError(code)
    } else if h == 0x10 {
        EmmergencyErrorCode::GenericError(code)
    } else if h == 0x20 {
        EmmergencyErrorCode::Current(code)
    } else if h == 0x21 {
        EmmergencyErrorCode::CurrentInputSide(code)
    } else if h == 0x22 {
        EmmergencyErrorCode::CurrentInside(code)
    } else if h == 0x23 {
        EmmergencyErrorCode::CurrentOutputSide(code)
    } else if h == 0x30 {
        EmmergencyErrorCode::Voltage(code)
    } else if h == 0x31 {
        EmmergencyErrorCode::MainsVoltage(code)
    } else if h == 0x32 {
        EmmergencyErrorCode::VoltageInside(code)
    } else if h == 0x33 {
        EmmergencyErrorCode::OutputVoltage(code)
    } else if h == 0x40 {
        EmmergencyErrorCode::Temperature(code)
    } else if h == 0x42 {
        EmmergencyErrorCode::AmbientTemperature(code)
    } else if h == 0x41 {
        EmmergencyErrorCode::DeviceTempreture(code)
    } else if h == 0x50 {
        EmmergencyErrorCode::DeviceHardware(code)
    } else if h == 0x60 {
        EmmergencyErrorCode::DeviceSoftware(code)
    } else if h == 0x61 {
        EmmergencyErrorCode::IntarnalSoftware(code)
    } else if h == 0x62 {
        EmmergencyErrorCode::UserSoftware(code)
    } else if h == 0x63 {
        EmmergencyErrorCode::DateSet(code)
    } else if h == 0x70 {
        EmmergencyErrorCode::AdditionalModules(code)
    } else if h == 0x80 {
        EmmergencyErrorCode::Monitoring(code)
    } else if h == 0x81 {
        EmmergencyErrorCode::Communication(code)
    } else if h == 0x82 {
        if l == 0x10 {
            EmmergencyErrorCode::PdoNotProcessedDueToLengthError(code)
        } else if l == 0x20 {
            EmmergencyErrorCode::PdoLengthExceeded(code)
        } else {
            EmmergencyErrorCode::ProtocolError(code)
        }
    } else if h == 0x90 {
        EmmergencyErrorCode::ExternalError(code)
    } else if h == 0xA0 {
        EmmergencyErrorCode::EsmTransitionError(code)
    } else if h == 0xF0 {
        EmmergencyErrorCode::AdditionalFunctions(code)
    } else if h == 0xFF {
        EmmergencyErrorCode::DeviceSpecific(code)
    } else {
        EmmergencyErrorCode::Other(code)
    }
}

/// Classifies an emergency error code.
pub fn classify_emmergency_error_code(code: u16) -> (r: EmmergencyErrorCode)
    ensures
        r == emmergency_error_code_spec(code),
{
    // The second byte of the big-endian bytes is the low byte of the code.
    let code_h = (code % 256) as u8;
    let code_l = (code / 256) as u8;
    match code_h {
        0x00 => EmmergencyErrorCode::ErrorResetOrNoError(code),
        0x10 => EmmergencyErrorCode::GenericError(code),
        0x20 => EmmergencyErrorCode::Current(code),
        0x21 => EmmergencyErrorCode::CurrentInputSide(code),
        0x22 => EmmergencyErrorCode::CurrentInside(code),
        0x23 => EmmergencyErrorCode::CurrentOutputSide(code),
        0x30 => EmmergencyErrorCode::Voltage(code),
        0x31 => EmmergencyErrorCode::MainsVoltage(code),
        0x32 => EmmergencyErrorCode::VoltageInside(code),
        0x33 => EmmergencyErrorCode::OutputVoltage(code),
        0x40 => EmmergencyErrorCode::Temperature(code),
        0x42 => EmmergencyErrorCode::AmbientTemperature(code),
        0x41 => EmmergencyErrorCode::DeviceTempreture(code),
        0x50 => EmmergencyErrorCode::DeviceHardware(code),
        0x60 => EmmergencyErrorCode::DeviceSoftware(code),
        0x61 => EmmergencyErrorCode::IntarnalSoftware(code),
        0x62 => EmmergencyErrorCode::UserSoftware(code),
        0x63 => EmmergencyErrorCode::DateSet(code),
        0x70 => EmmergencyErrorCode::AdditionalModules(code),
        0x80 => EmmergencyErrorCode::Monitoring(code),
        0x81 => EmmergencyErrorCode::Communication(code),
        0x82 => match code_l {
            0x10 => EmmergencyErrorCode::PdoNotProcessedDueToLengthError(code),
            0x20 => EmmergencyErrorCode::PdoLengthExceeded(code),
            _ => EmmergencyErrorCode::ProtocolError(code),
        },
        0x90 => EmmergencyErrorCode::ExternalError(code),
        0xA0 => EmmergencyErrorCode::EsmTransitionError(code),
        0xF0 => EmmergencyErrorCode::AdditionalFunctions(code),
        0xFF => EmmergencyErrorCode::DeviceSpecific(code),
        _ => EmmergencyErrorCode::Other(code),
    }
}

/// Value of the 40-bit data field of an emergency message at `o`.
pub open spec fn emmergency_data(s: Seq<u8>, o: int) -> int {
    s[o + 3] + 256 * le32(s, o + 4)
}

/// An emergency message over its buffer.
#[derive(Debug)]
pub struct EmmergencyFrame(pub Vec<u8>);

impl EmmergencyFrame {
    pub const SIZE: usize = 8;

    pub fn new() -> (r: Self)
        ensures
            r.0@ == Seq::new(8, |i: int| 0u8),
    {
        EmmergencyFrame(vec![0u8; 8])
    }

    pub fn error_code(&self) -> (r: u16)
        requires
            8 <= self.0.len(),
        ensures
            r == le16(self.0@, 0),
    {
        read_le16(self.0.as_slice(), 0)
    }

    pub fn error_register(&self) -> (r: u8)
        requires
            8 <= self.0.len(),
        ensures
            r == self.0@[2],
    {
        self.0[2]
    }

    pub fn data(&self) -> (r: u64)
        requires
            8 <= self.0.len(),
        ensures
            r == emmergency_data(self.0@, 0),
    {
        let lo = self.0[3] as u64;
        let hi = read_le32(self.0.as_slice(), 4) as u64;
        lo + 256 * hi
    }

    pub fn emmergency_error_code(&self) -> (r: EmmergencyErrorCode)
        requires
            8 <= self.0.len(),
        ensures
            r == emmergency_error_code_spec(le16(self.0@, 0) as u16),
    {
        classify_emmergency_error_code(self.error_code())
    }
}

} // verus!
