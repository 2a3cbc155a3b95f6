//! Reads one word address of a slave's EEPROM (its SII) through the EEPROM
//! registers: check the interface, take it over, set the address, start
//! the read, wait for it, and fetch the data.
use crate::bytes::{clear_range, put_bytes, zero_range};
use crate::command::{read_command_spec, write_command_spec, Command, SlaveAddress, TargetSlave};
use crate::error::EcError;
use crate::frame::CommandType;
use crate::register::{SiiAccess, SiiAddress, SiiControl, SiiData};
use crate::socket::{copy_prefix, CommandData, Cyclic, EtherCatSystemTime};
use vstd::prelude::*;

verus! {

/// Time a read may take, in milliseconds.
pub const TIMEOUT_MS: u32 = 100;

/// Why reading the EEPROM failed.
#[derive(Debug, Clone, Copy, PartialEq, Eq, Structural)]
pub enum SiiTaskError {
    PermittionDenied,
    AddressSizeOver,
    Busy,
    CheckSumError,
    DeviceInfoError,
    CommandError,
    TimeoutMs(u32),
}

impl From<SiiTaskError> for EcError<SiiTaskError> {
    fn from(err: SiiTaskError) -> (r: Self) {
        EcError::TaskSpecific(err)
    }
}

impl vstd::std_specs::convert::FromSpecImpl<SiiTaskError> for EcError<SiiTaskError> {
    open spec fn obeys_from_spec() -> bool {
        true
    }

    open spec fn from_spec(err: SiiTaskError) -> EcError<SiiTaskError> {
        EcError::TaskSpecific(err)
    }
}

/// Where the reader is.
#[derive(Debug, Clone, Copy, PartialEq, Eq, Structural)]
pub enum State {
    Error(EcError<SiiTaskError>),
    Idle,
    Init,
    SetOwnership,
    CheckOwnership,
    SetAddress,
    SetReadOperation,
    Wait,
    Read,
    Complete,
}

/// What the reader holds.
pub struct SiiReaderModel {
    pub timer_start: u64,
    pub command: Command,
    pub slave_address: SlaveAddress,
    pub state: State,
    pub sii_address: u16,
    pub read_size: usize,
    pub sii_data: Seq<u8>,
}

#[derive(Debug)]
pub struct SiiReader {
    timer_start: EtherCatSystemTime,
    command: Command,
    slave_address: SlaveAddress,
    state: State,
    sii_address: u16,
    read_size: usize,
    sii_data: [u8; 8],
}

impl View for SiiReader {
    type V = SiiReaderModel;

    closed spec fn view(&self) -> SiiReaderModel {
        SiiReaderModel {
            timer_start: self.timer_start.0,
            command: self.command,
            slave_address: self.slave_address,
            state: self.state,
            sii_address: self.sii_address,
            read_size: self.read_size,
            sii_data: self.sii_data@,
        }
    }
}

/// The datagram each state sends: the register read or written, and the
/// data length; `None` where the state sends nothing.
pub open spec fn sii_request(state: State, slave: SlaveAddress) -> Option<(Command, usize)> {
    let target = TargetSlave::Single(slave);
    match state {
        State::Init => Some((read_command_spec(target, SiiControl::ADDRESS), SiiControl::SIZE)),
        State::SetOwnership => Some((write_command_spec(target, SiiAccess::ADDRESS), SiiAccess::SIZE)),
        State::CheckOwnership => Some((read_command_spec(target, SiiAccess::ADDRESS), SiiAccess::SIZE)),
        State::SetAddress => Some((write_command_spec(target, SiiAddress::ADDRESS), SiiAddress::SIZE)),
        State::SetReadOperation => Some((write_command_spec(target, SiiControl::ADDRESS), SiiControl::SIZE)),
        State::Wait => Some((read_command_spec(target, SiiControl::ADDRESS), SiiControl::SIZE)),
        State::Read => Some((read_command_spec(target, SiiData::ADDRESS), SiiData::SIZE)),
        _ => None,
    }
}

/// The buffer each state sends: zeros, with the reset bit for taking the
/// EEPROM over, the word address, or the read-operation bit.
pub open spec fn sii_request_data(state: State, sii_address: u16, buf: Seq<u8>) -> Seq<u8> {
    match state {
        State::SetOwnership => zero_range(buf, 0, SiiAccess::SIZE as int).update(
            0,
            SiiAccess::access_byte(false, true),
        ),
        State::SetAddress => put_bytes(
            zero_range(buf, 0, SiiAddress::SIZE as int),
            0,
            seq![(sii_address % 256) as u8, (sii_address / 256) as u8],
        ),
        State::SetReadOperation => zero_range(buf, 0, SiiControl::SIZE as int).update(1, 1u8),
        State::Init | State::CheckOwnership | State::Wait => zero_range(buf, 0, 2),
        State::Read => zero_range(buf, 0, SiiData::SIZE as int),
        _ => buf,
    }
}

/// The reader after the reply `(command, data, wkc)` to its last datagram,
/// or after that reply was lost (`None`), at time `t`. A lost reply, another
/// working counter than one, or another command type or register is an
/// error. The checks on the control and access registers in the first
/// steps are overridden by the step that follows them.
pub open spec fn sii_receive_spec(m: SiiReaderModel, recv: Option<(Command, Seq<u8>, u16)>, t: u64) -> SiiReaderModel {
    match recv {
        None => SiiReaderModel { state: State::Error(EcError::LostPacket), ..m },
        Some((c, data, wkc)) => {
            let st = if wkc != 1 {
                State::Error(EcError::UnexpectedWkc(wkc))
            } else if !(c.c_type == m.command.c_type && c.ado == m.command.ado) {
                State::Error(EcError::UnexpectedCommand)
            } else {
                m.state
            };
            match st {
                State::Init => SiiReaderModel {
                    read_size: if SiiControl::read_size_spec(data) {
                        8
                    } else {
                        4
                    },
                    state: State::SetOwnership,
                    ..m
                },
                State::SetOwnership => SiiReaderModel { state: State::CheckOwnership, ..m },
                State::CheckOwnership => SiiReaderModel { state: State::SetAddress, ..m },
                State::SetAddress => SiiReaderModel { state: State::SetReadOperation, ..m },
                State::SetReadOperation => SiiReaderModel { state: State::Wait, timer_start: t, ..m },
                State::Wait => if SiiControl::command_error_spec(data) {
                    SiiReaderModel {
                        state: State::Error(EcError::TaskSpecific(SiiTaskError::CommandError)),
                        ..m
                    }
                } else if !SiiControl::busy_spec(data) && !SiiControl::read_operation_spec(data) {
                    SiiReaderModel { state: State::Read, ..m }
                } else if m.timer_start < t && (TIMEOUT_MS as u64) * 1_000_000 < t - m.timer_start {
                    SiiReaderModel {
                        state: State::Error(EcError::TaskSpecific(SiiTaskError::TimeoutMs(TIMEOUT_MS))),
                        ..m
                    }
                } else {
                    m
                },
                State::Read => SiiReaderModel {
                    sii_data: copy_prefix(m.sii_data, data),
                    state: State::Complete,
                    ..m
                },
                _ => SiiReaderModel { state: st, ..m },
            }
        },
    }
}

impl SiiReader {
    pub fn required_buffer_size() -> (r: usize)
        ensures
            r == SiiData::SIZE,
    {
        SiiData::SIZE
    }

    pub fn new() -> (r: Self)
        ensures
            r@ == (SiiReaderModel {
                timer_start: 0,
                command: Command { c_type: CommandType::APRD, adp: 0, ado: 0 },
                slave_address: SlaveAddress::SlavePosition(0),
                state: State::Idle,
                sii_address: 0,
                read_size: 0,
                sii_data: Seq::new(8, |i: int| 0u8),
            }),
    {
        let r = SiiReader {
            timer_start: EtherCatSystemTime(0),
            state: State::Idle,
            slave_address: SlaveAddress::SlavePosition(0),
            sii_address: 0,
            command: Command::default(),
            read_size: 0,
            sii_data: [0u8; 8],
        };
        proof {
            assert(r.sii_data@ =~= Seq::new(8, |i: int| 0u8));
        }
        r
    }

    /// Starts reading `sii_address` of the slave at `slave_address`.
    pub fn start(&mut self, slave_address: SlaveAddress, sii_address: u16)
        ensures
            final(self)@ == (SiiReaderModel {
                slave_address,
                sii_address,
                state: State::Init,
                command: Command { c_type: CommandType::APRD, adp: 0, ado: 0 },
                ..old(self)@
            }),
    {
        self.slave_address = slave_address;
        self.sii_address = sii_address;
        self.state = State::Init;
        self.command = Command::default();
    }

    /// The data read and how many of its bytes count, once complete; the
    /// error, once failed; nothing while reading.
    pub fn wait(&mut self) -> (r: Option<Result<([u8; 8], usize), EcError<SiiTaskError>>>)
        ensures
            *final(self) == *old(self),
            old(self)@.state == State::Complete ==> (r matches Some(Ok((d, n))) && d@ == old(self)@.sii_data
                && n == old(self)@.read_size),
            old(self)@.state matches State::Error(e) ==> r == Some(
                Err::<([u8; 8], usize), EcError<SiiTaskError>>(e),
            ),
            !(old(self)@.state is Complete || old(self)@.state is Error) ==> r is None,
    {
        match self.state {
            State::Complete => Some(Ok((self.sii_data, self.read_size))),
            State::Error(err) => Some(Err(err)),
            _ => None,
        }
    }
}

impl Cyclic for SiiReader {
    open spec fn required_len(&self) -> nat {
        SiiData::SIZE as nat
    }

    open spec fn reply_len(&self) -> nat {
        match self@.state {
            State::Init | State::CheckOwnership | State::Wait => SiiControl::SIZE as nat,
            _ => 0,
        }
    }

    fn is_finished(&self) -> (r: bool)
        ensures
            r == (self@.state is Complete || self@.state is Error),
    {
        match self.state {
            State::Complete | State::Error(_) => true,
            _ => false,
        }
    }

    /// The datagram of the current state, written into `buf`.
    fn next_command(&mut self, buf: &mut Vec<u8>) -> (r: Option<(Command, usize)>)
        ensures
            r == sii_request(old(self)@.state, old(self)@.slave_address),
            final(buf)@ == sii_request_data(old(self)@.state, old(self)@.sii_address, old(buf)@),
            r matches Some((c, _)) ==> final(self)@ == (SiiReaderModel { command: c, ..old(self)@ }),
            r is None ==> final(self)@ == old(self)@,
    {
        let target = TargetSlave::from_address(self.slave_address);
        match self.state {
            State::Init => {
                clear_range(buf, 0, SiiControl::SIZE);
                self.command = Command::new_read(target, SiiControl::ADDRESS);
                Some((self.command, SiiControl::SIZE))
            },
            State::SetOwnership => {
                clear_range(buf, 0, SiiAccess::SIZE);
                SiiAccess::write_access(buf, false, true);
                self.command = Command::new_write(target, SiiAccess::ADDRESS);
                Some((self.command, SiiAccess::SIZE))
            },
            State::CheckOwnership => {
                clear_range(buf, 0, SiiAccess::SIZE);
                self.command = Command::new_read(target, SiiAccess::ADDRESS);
                Some((self.command, SiiAccess::SIZE))
            },
            State::SetAddress => {
                clear_range(buf, 0, SiiAddress::SIZE);
                SiiAddress::write_sii_address(buf, self.sii_address);
                self.command = Command::new_write(target, SiiAddress::ADDRESS);
                Some((self.command, SiiAddress::SIZE))
            },
            State::SetReadOperation => {
                clear_range(buf, 0, SiiControl::SIZE);
                SiiControl::write_read_operation(buf);
                self.command = Command::new_write(target, SiiControl::ADDRESS);
                Some((self.command, SiiControl::SIZE))
            },
            State::Wait => {
                clear_range(buf, 0, SiiControl::SIZE);
                self.command = Command::new_read(target, SiiControl::ADDRESS);
                Some((self.command, SiiControl::SIZE))
            },
            State::Read => {
                clear_range(buf, 0, SiiData::SIZE);
                self.command = Command::new_read(target, SiiData::ADDRESS);
                Some((self.command, SiiData::SIZE))
            },
            _ => None,
        }
    }

    /// Steps the reader with the reply to its last datagram.
    fn recieve_and_process(&mut self, recv_data: Option<&CommandData>, sys_time: EtherCatSystemTime)
        ensures
            final(self)@ == sii_receive_spec(
                old(self)@,
                match recv_data {
                    Some(d) => Some((d.command, d.data@, d.wkc)),
                    None => None,
                },
                sys_time.0,
            ),
    {
        let data = match recv_data {
            Some(recv_data) => {
                let wkc = recv_data.wkc;
                if !(recv_data.command.c_type == self.command.c_type && recv_data.command.ado
                    == self.command.ado) {
                    self.state = State::Error(EcError::UnexpectedCommand);
                }
                if wkc != 1 {
                    self.state = State::Error(EcError::UnexpectedWkc(wkc));
                }
                recv_data.data
            },
            None => {
                self.state = State::Error(EcError::LostPacket);
                return ;
            },
        };
        match self.state {
            State::Init => {
                if SiiControl::check_sum_error(data) {
                    self.state = State::Error(EcError::TaskSpecific(SiiTaskError::CheckSumError));
                }
                if SiiControl::device_info_error(data) {
                    self.state = State::Error(EcError::TaskSpecific(SiiTaskError::DeviceInfoError));
                }
                if !SiiControl::address_algorithm(data) && self.sii_address >> 8u16 != 0 {
                    self.state = State::Error(EcError::TaskSpecific(SiiTaskError::AddressSizeOver));
                }
                if SiiControl::busy(data) || SiiControl::read_operation(data) || SiiControl::write_operation(
                    data,
                ) || SiiControl::reload_operation(data) {
                    self.state = State::Error(EcError::TaskSpecific(SiiTaskError::Busy));
                }
                self.read_size = if SiiControl::read_size(data) {
                    8
                } else {
                    4
                };
                self.state = State::SetOwnership;
            },
            State::SetOwnership => {
                self.state = State::CheckOwnership;
            },
            State::CheckOwnership => {
                if SiiAccess::owner(data) || SiiAccess::pdi_accessed(data) {
                    self.state = State::Error(EcError::TaskSpecific(SiiTaskError::PermittionDenied));
                }
                self.state = State::SetAddress;
            },
            State::SetAddress => {
                self.state = State::SetReadOperation;
            },
            State::SetReadOperation => {
                self.state = State::Wait;
                self.timer_start = sys_time;
            },
            State::Wait => {
                if SiiControl::command_error(data) {
                    self.state = State::Error(EcError::TaskSpecific(SiiTaskError::CommandError));
                } else if !SiiControl::busy(data) && !SiiControl::read_operation(data) {
                    self.state = State::Read;
                } else if self.timer_start.0 < sys_time.0 && (TIMEOUT_MS as u64) * 1_000_000 < sys_time.0
                    - self.timer_start.0 {
                    self.state = State::Error(EcError::TaskSpecific(SiiTaskError::TimeoutMs(TIMEOUT_MS)));
                }
            },
            State::Read => {
                let n = if data.len() < 8 {
                    data.len()
                } else {
                    8
                };
                let ghost before = self.sii_data@;
                let mut i: usize = 0;
                while i < n
                    invariant
                        i <= n,
                        n <= 8,
                        n <= data@.len(),
                        n == if data@.len() < 8 {
                            data@.len()
                        } else {
                            8
                        },
                        self.sii_data@.len() == 8,
                        forall|k: int| 0 <= k < i ==> self.sii_data@[k] == data@[k],
                        forall|k: int| i <= k < 8 ==> self.sii_data@[k] == before[k],
                        self.state == State::Read,
                        self.timer_start == old(self).timer_start,
                        self.command == old(self).command,
                        self.slave_address == old(self).slave_address,
                        self.sii_address == old(self).sii_address,
                        self.read_size == old(self).read_size,
                    decreases n - i,
                {
                    self.sii_data[i] = data[i];
                    i = i + 1;
                }
                proof {
                    assert(self.sii_data@ =~= copy_prefix(before, data@));
                }
                self.state = State::Complete;
            },
            _ => {},
        }
    }
}

/// The reply to the first read, of the SII control register, fixes how
/// many bytes each EEPROM read gives: eight where bit 6 of its first byte
/// is set, four where it is clear; the reading then takes the EEPROM over.
pub proof fn lemma_control_reply_sets_read_size(m: SiiReaderModel, c: Command, data: Seq<u8>, t: u64)
    requires
        m.state is Init,
        c.c_type == m.command.c_type,
        c.ado == m.command.ado,
        data.len() >= 1,
    ensures
        sii_receive_spec(m, Some((c, data, 1u16)), t).read_size == (if (data[0] / 64) % 2 == 1 {
            8usize
        } else {
            4usize
        }),
        sii_receive_spec(m, Some((c, data, 1u16)), t).state is SetOwnership,
{
}

/// Only that reply sets the read size: any other reply, or a lost one,
/// leaves it as it was, so the size reported with the data is the one the
/// control register gave.
pub proof fn lemma_read_size_kept_by_other_replies(m: SiiReaderModel, recv: Option<(Command, Seq<u8>, u16)>, t: u64)
    requires
        !(m.state is Init && (recv matches Some((c, _, w)) && w == 1 && c.c_type == m.command.c_type && c.ado
            == m.command.ado)),
    ensures
        sii_receive_spec(m, recv, t).read_size == m.read_size,
{
}

/// The reply to the read of the SII data register completes the reading
/// with its first eight bytes as the data, where the reader holds eight.
pub proof fn lemma_data_reply_is_the_data(m: SiiReaderModel, c: Command, data: Seq<u8>, t: u64)
    requires
        m.state is Read,
        c.c_type == m.command.c_type,
        c.ado == m.command.ado,
        data.len() >= 8,
        m.sii_data.len() == 8,
    ensures
        sii_receive_spec(m, Some((c, data, 1u16)), t).state is Complete,
        sii_receive_spec(m, Some((c, data, 1u16)), t).sii_data == data.subrange(0, 8),
        sii_receive_spec(m, Some((c, data, 1u16)), t).read_size == m.read_size,
{
    assert(sii_receive_spec(m, Some((c, data, 1u16)), t).sii_data =~= data.subrange(0, 8));
}

/// While waiting for the EEPROM, a control register whose command error
/// bit (bit 13) is set ends the reading with that error; otherwise, once
/// neither busy (bit 15) nor still reading (bit 8), the data is read next.
pub proof fn lemma_wait_reply_follows_the_control_bits(m: SiiReaderModel, c: Command, data: Seq<u8>, t: u64)
    requires
        m.state is Wait,
        c.c_type == m.command.c_type,
        c.ado == m.command.ado,
        data.len() >= 2,
    ensures
        (data[1] / 32) % 2 == 1 ==> sii_receive_spec(m, Some((c, data, 1u16)), t).state == State::Error(
            EcError::TaskSpecific(SiiTaskError::CommandError),
        ),
        (data[1] / 32) % 2 == 0 && data[1] / 128 == 0 && data[1] % 2 == 0 ==> sii_receive_spec(
            m,
            Some((c, data, 1u16)),
            t,
        ).state is Read,
        sii_receive_spec(m, Some((c, data, 1u16)), t).read_size == m.read_size,
        sii_receive_spec(m, Some((c, data, 1u16)), t).sii_data == m.sii_data,
{
}

} // verus!
