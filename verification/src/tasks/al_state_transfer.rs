//! Brings one slave, or all slaves, to a target AL state: read the state,
//! acknowledge a pending error, request the target, and poll until it is
//! reached, an error is reported, or the transition's time runs out.
use crate::al_state::{al_state_from_spec, al_state_from_u16, AlState};
use crate::bytes::{clear_range, zero_range};
use crate::command::{read_command_spec, write_command_spec, Command, SlaveAddress, TargetSlave};
use crate::error::EcError;
use crate::frame::CommandType;
use crate::register::{AlControl, AlStatus};
use crate::socket::{CommandData, Cyclic, EtherCatSystemTime};
use vstd::prelude::*;

verus! {

/// Time allowed from Init to PreOp or to Boot, in milliseconds.
pub const PREOP_TIMEOUT_DEFAULT_MS: u32 = 3000;

/// Time allowed from SafeOp to Op or from PreOp to SafeOp.
pub const SAFEOP_OP_TIMEOUT_DEFAULT_MS: u32 = 10000;

/// Time allowed back to Init (from Op, SafeOp, PreOp or Boot), or from
/// SafeOp back to PreOp.
pub const BACK_TO_INIT_TIMEOUT_DEFAULT_MS: u32 = 5000;

/// Time allowed from Op to SafeOp.
pub const BACK_TO_SAFEOP_TIMEOUT_DEFAULT_MS: u32 = 200;

/// The longest of the transition times.
pub fn max_timeout_ms() -> (r: u32)
    ensures
        r >= PREOP_TIMEOUT_DEFAULT_MS,
        r >= SAFEOP_OP_TIMEOUT_DEFAULT_MS,
        r >= BACK_TO_INIT_TIMEOUT_DEFAULT_MS,
        r >= BACK_TO_SAFEOP_TIMEOUT_DEFAULT_MS,
        r == PREOP_TIMEOUT_DEFAULT_MS || r == SAFEOP_OP_TIMEOUT_DEFAULT_MS || r
            == BACK_TO_INIT_TIMEOUT_DEFAULT_MS || r == BACK_TO_SAFEOP_TIMEOUT_DEFAULT_MS,
{
    let mut max = PREOP_TIMEOUT_DEFAULT_MS;
    if max < SAFEOP_OP_TIMEOUT_DEFAULT_MS {
        max = SAFEOP_OP_TIMEOUT_DEFAULT_MS;
    }
    if max < BACK_TO_INIT_TIMEOUT_DEFAULT_MS {
        max = BACK_TO_INIT_TIMEOUT_DEFAULT_MS;
    }
    if max < BACK_TO_SAFEOP_TIMEOUT_DEFAULT_MS {
        max = BACK_TO_SAFEOP_TIMEOUT_DEFAULT_MS;
    }
    max
}

/// The time allowed for the transition from `current` to `target`.
pub open spec fn transition_timeout(current: AlState, target: AlState) -> u32 {
    if (current == AlState::PreOperational && target == AlState::SafeOperational) || target
        == AlState::Operational {
        SAFEOP_OP_TIMEOUT_DEFAULT_MS
    } else if current == AlState::SafeOperational && target == AlState::PreOperational {
        BACK_TO_INIT_TIMEOUT_DEFAULT_MS
    } else if target == AlState::PreOperational || target == AlState::Bootstrap {
        PREOP_TIMEOUT_DEFAULT_MS
    } else if target == AlState::Init {
        BACK_TO_INIT_TIMEOUT_DEFAULT_MS
    } else if target == AlState::SafeOperational {
        BACK_TO_SAFEOP_TIMEOUT_DEFAULT_MS
    } else {
        SAFEOP_OP_TIMEOUT_DEFAULT_MS
    }
}

/// Why the transition failed.
#[derive(Debug, Clone, Copy, PartialEq, Eq, Structural)]
pub enum Error {
    /// The target was not reached within this many milliseconds.
    TimeoutMs(u32),
    /// The slave reported an error: its state and AL status code.
    AlStatusCode(AlState, u16),
}

/// Where the transfer is.
#[derive(Debug, Clone, Copy, PartialEq, Eq, Structural)]
pub enum State {
    Error(EcError<Error>),
    Idle,
    Read,
    ResetError(AlState),
    Complete,
    Request,
    Poll,
}

/// What the transfer holds.
pub struct AlStateTransferModel {
    pub timer_start: u64,
    pub state: State,
    pub slave_address: Option<SlaveAddress>,
    pub num_slaves: u16,
    pub target_al: AlState,
    pub command: Command,
    pub current_al_state: AlState,
    pub timeout_ms: u32,
}

#[derive(Debug)]
pub struct AlStateTransfer {
    timer_start: EtherCatSystemTime,
    state: State,
    slave_address: Option<SlaveAddress>,
    num_slaves: u16,
    target_al: AlState,
    command: Command,
    current_al_state: AlState,
    timeout_ms: u32,
}

impl View for AlStateTransfer {
    type V = AlStateTransferModel;

    closed spec fn view(&self) -> AlStateTransferModel {
        AlStateTransferModel {
            timer_start: self.timer_start.0,
            state: self.state,
            slave_address: self.slave_address,
            num_slaves: self.num_slaves,
            target_al: self.target_al,
            command: self.command,
            current_al_state: self.current_al_state,
            timeout_ms: self.timeout_ms,
        }
    }
}

/// The read of the AL status: of one slave, or a broadcast read.
pub open spec fn status_read(slave: Option<SlaveAddress>) -> Command {
    match slave {
        Some(a) => read_command_spec(TargetSlave::Single(a), AlStatus::ADDRESS),
        None => Command { c_type: CommandType::BRD, adp: 0, ado: AlStatus::ADDRESS },
    }
}

/// The write of the AL control: to one slave, or a broadcast write.
pub open spec fn control_write(slave: Option<SlaveAddress>) -> Command {
    match slave {
        Some(a) => write_command_spec(TargetSlave::Single(a), AlControl::ADDRESS),
        None => Command { c_type: CommandType::BWR, adp: 0, ado: AlControl::ADDRESS },
    }
}

/// The transfer after the reply `(data, wkc)` to its last datagram, or
/// after that reply was lost, at time `t`. The working counter must be one
/// for one slave and the number of slaves for all of them.
pub open spec fn transfer_receive_spec(m: AlStateTransferModel, recv: Option<(Seq<u8>, u16)>, t: u64) -> AlStateTransferModel {
    match recv {
        None => AlStateTransferModel { state: State::Error(EcError::LostPacket), ..m },
        Some((data, wkc)) => {
            let st = if (m.slave_address is Some && wkc != 1) || (m.slave_address is None && wkc
                != m.num_slaves) {
                State::Error(EcError::UnexpectedWkc(wkc))
            } else {
                m.state
            };
            let al_state = al_state_from_spec(AlStatus::state_spec(data) as int);
            match st {
                State::Read => if al_state == m.target_al {
                    AlStateTransferModel { current_al_state: al_state, state: State::Complete, ..m }
                } else if AlStatus::change_err_spec(data) {
                    AlStateTransferModel {
                        current_al_state: al_state,
                        state: State::ResetError(al_state),
                        ..m
                    }
                } else {
                    AlStateTransferModel { current_al_state: al_state, state: State::Request, ..m }
                },
                State::ResetError(_) => AlStateTransferModel { state: State::Read, ..m },
                State::Request => AlStateTransferModel { timer_start: t, state: State::Poll, ..m },
                State::Poll => if m.target_al == al_state {
                    AlStateTransferModel { current_al_state: al_state, state: State::Complete, ..m }
                } else if AlStatus::change_err_spec(data) {
                    AlStateTransferModel {
                        current_al_state: al_state,
                        state: State::Error(
                            EcError::TaskSpecific(
                                Error::AlStatusCode(al_state, AlStatus::al_status_code_spec(data)),
                            ),
                        ),
                        ..m
                    }
                } else if m.timer_start < t && (m.timeout_ms as u64) * 1_000_000 < t - m.timer_start {
                    AlStateTransferModel {
                        current_al_state: al_state,
                        state: State::Error(EcError::TaskSpecific(Error::TimeoutMs(m.timeout_ms))),
                        ..m
                    }
                } else {
                    AlStateTransferModel { current_al_state: al_state, ..m }
                },
                _ => AlStateTransferModel { state: st, ..m },
            }
        },
    }
}

impl AlStateTransfer {
    pub fn new() -> (r: Self)
        ensures
            r@ == (AlStateTransferModel {
                timer_start: 0,
                state: State::Idle,
                slave_address: None,
                num_slaves: 0,
                target_al: AlState::Init,
                command: Command { c_type: CommandType::APRD, adp: 0, ado: 0 },
                current_al_state: AlState::Init,
                timeout_ms: 0,
            }),
    {
        AlStateTransfer {
            timer_start: EtherCatSystemTime(0),
            state: State::Idle,
            slave_address: None,
            num_slaves: 0,
            target_al: AlState::Init,
            command: Command::default(),
            current_al_state: AlState::Init,
            timeout_ms: 0,
        }
    }

    /// Starts bringing the slave at `slave_address`, or all `num_slaves`
    /// slaves, to `target_al_state`.
    pub fn start(&mut self, slave_address: Option<SlaveAddress>, num_slaves: u16, target_al_state: AlState)
        ensures
            final(self)@ == (AlStateTransferModel {
                slave_address,
                num_slaves,
                target_al: target_al_state,
                state: State::Read,
                command: Command { c_type: CommandType::APRD, adp: 0, ado: 0 },
                ..old(self)@
            }),
    {
        self.slave_address = slave_address;
        self.num_slaves = num_slaves;
        self.target_al = target_al_state;
        self.state = State::Read;
        self.command = Command::default();
    }

    /// The state reached, once complete; the error, once failed; nothing
    /// while in progress.
    pub fn wait(&mut self) -> (r: Option<Result<AlState, EcError<Error>>>)
        ensures
            *final(self) == *old(self),
            old(self)@.state == State::Complete ==> r == Some(
                Ok::<AlState, EcError<Error>>(old(self)@.current_al_state),
            ),
            old(self)@.state matches State::Error(e) ==> r == Some(Err::<AlState, EcError<Error>>(e)),
            !(old(self)@.state is Complete || old(self)@.state is Error) ==> r is None,
    {
        match self.state {
            State::Complete => Some(Ok(self.current_al_state)),
            State::Error(err) => Some(Err(err)),
            _ => None,
        }
    }

    fn status_read_command(&self) -> (r: Command)
        ensures
            r == status_read(self.slave_address),
    {
        match self.slave_address {
            Some(slave_address) => Command::new_read(TargetSlave::from_address(slave_address), AlStatus::ADDRESS),
            None => Command::new(CommandType::BRD, 0, AlStatus::ADDRESS),
        }
    }

    fn control_write_command(&self) -> (r: Command)
        ensures
            r == control_write(self.slave_address),
    {
        match self.slave_address {
            Some(slave_address) => Command::new_write(TargetSlave::from_address(slave_address), AlControl::ADDRESS),
            None => Command::new(CommandType::BWR, 0, AlControl::ADDRESS),
        }
    }
}

/// The time allowed for the transition from `current` to `target`.
fn transition_timeout_ms(current: AlState, target: AlState) -> (r: u32)
    ensures
        r == transition_timeout(current, target),
{
    match (current, target) {
        (AlState::PreOperational, AlState::SafeOperational) | (_, AlState::Operational) => SAFEOP_OP_TIMEOUT_DEFAULT_MS,
        (AlState::SafeOperational, AlState::PreOperational) => BACK_TO_INIT_TIMEOUT_DEFAULT_MS,
        (_, AlState::PreOperational) | (_, AlState::Bootstrap) => PREOP_TIMEOUT_DEFAULT_MS,
        (_, AlState::Init) => BACK_TO_INIT_TIMEOUT_DEFAULT_MS,
        (_, AlState::SafeOperational) => BACK_TO_SAFEOP_TIMEOUT_DEFAULT_MS,
        (_, AlState::Invalid) => max_timeout_ms(),
    }
}

impl Cyclic for AlStateTransfer {
    open spec fn required_len(&self) -> nat {
        AlStatus::SIZE as nat
    }

    open spec fn reply_len(&self) -> nat {
        match self@.state {
            State::Read | State::Poll => AlStatus::SIZE as nat,
            _ => 0,
        }
    }

    fn is_finished(&self) -> (r: bool)
        ensures
            r == (self@.state is Complete || self@.state is Error),
    {
        match self.state {
            State::Complete | State::Error(_) => true,
            _ => false,
        }
    }

    /// Reads the status (`Read`, `Poll`), acknowledges the error in the
    /// state read (`ResetError`), or requests the target and sets the time
    /// allowed for it (`Request`).
    fn next_command(&mut self, buf: &mut Vec<u8>) -> (r: Option<(Command, usize)>)
        ensures
            ({
                let m = old(self)@;
                match m.state {
                    State::Read | State::Poll => final(buf)@ == zero_range(old(buf)@, 0, AlStatus::SIZE as int)
                        && r == Some((status_read(m.slave_address), AlStatus::SIZE)) && final(self)@ == (
                    AlStateTransferModel { command: status_read(m.slave_address), ..m }),
                    State::ResetError(s) => final(buf)@ == zero_range(
                        old(buf)@,
                        0,
                        AlStatus::SIZE as int,
                    ).update(0, AlControl::control_byte(s.code_spec(), true)) && r == Some(
                        (control_write(m.slave_address), AlControl::SIZE),
                    ) && final(self)@ == (AlStateTransferModel { command: control_write(m.slave_address), ..m }),
                    State::Request => final(buf)@ == zero_range(old(buf)@, 0, AlStatus::SIZE as int).update(
                        0,
                        AlControl::control_byte(m.target_al.code_spec(), false),
                    ) && r == Some((control_write(m.slave_address), AlControl::SIZE)) && final(self)@ == (
                    AlStateTransferModel {
                        command: control_write(m.slave_address),
                        timeout_ms: transition_timeout(m.current_al_state, m.target_al),
                        ..m
                    }),
                    _ => r is None && final(buf)@ == old(buf)@ && final(self)@ == m,
                }
            }),
    {
        match self.state {
            State::Read | State::Poll => {
                self.command = self.status_read_command();
                clear_range(buf, 0, AlStatus::SIZE);
                Some((self.command, AlStatus::SIZE))
            },
            State::ResetError(current_al_state) => {
                self.command = self.control_write_command();
                clear_range(buf, 0, AlStatus::SIZE);
                AlControl::write_control(buf, current_al_state.code(), true);
                Some((self.command, AlControl::SIZE))
            },
            State::Request => {
                clear_range(buf, 0, AlStatus::SIZE);
                AlControl::write_control(buf, self.target_al.code(), false);
                self.command = self.control_write_command();
                self.timeout_ms = transition_timeout_ms(self.current_al_state, self.target_al);
                Some((self.command, AlControl::SIZE))
            },
            _ => None,
        }
    }

    /// Steps the transfer with the reply to its last datagram.
    fn recieve_and_process(&mut self, recv_data: Option<&CommandData>, sys_time: EtherCatSystemTime)
        ensures
            final(self)@ == transfer_receive_spec(
                old(self)@,
                match recv_data {
                    Some(d) => Some((d.data@, d.wkc)),
                    None => None,
                },
                sys_time.0,
            ),
    {
        let data = match recv_data {
            Some(recv_data) => {
                let wkc = recv_data.wkc;
                if self.slave_address.is_some() && wkc != 1 {
                    self.state = State::Error(EcError::UnexpectedWkc(wkc));
                } else if self.slave_address.is_none() && wkc != self.num_slaves {
                    self.state = State::Error(EcError::UnexpectedWkc(wkc));
                }
                recv_data.data
            },
            None => {
                self.state = State::Error(EcError::LostPacket);
                return ;
            },
        };
        match self.state {
            State::Read => {
                let al_state = al_state_from_u16(AlStatus::state(data) as u16);
                self.current_al_state = al_state;
                if al_state == self.target_al {
                    self.state = State::Complete;
                } else if AlStatus::change_err(data) {
                    self.state = State::ResetError(al_state);
                } else {
                    self.state = State::Request;
                }
            },
            State::ResetError(_) => {
                self.state = State::Read;
            },
            State::Request => {
                self.timer_start = sys_time;
                self.state = State::Poll;
            },
            State::Poll => {
                let al_state = al_state_from_u16(AlStatus::state(data) as u16);
                self.current_al_state = al_state;
                if self.target_al == al_state {
                    self.state = State::Complete;
                } else if AlStatus::change_err(data) {
                    let al_status_code = AlStatus::al_status_code(data);
                    self.state = State::Error(EcError::TaskSpecific(Error::AlStatusCode(al_state, al_status_code)));
                } else if self.timer_start.0 < sys_time.0 && (self.timeout_ms as u64) * 1_000_000 < sys_time.0
                    - self.timer_start.0 {
                    self.state = State::Error(EcError::TaskSpecific(Error::TimeoutMs(self.timeout_ms)));
                }
            },
            _ => {},
        }
    }
}

} // verus!
