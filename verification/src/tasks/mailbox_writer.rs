//! Writes a mailbox to a slave through its sync manager: wait until the
//! slave's incoming mailbox is empty, then write it, again until the write
//! is taken.
use crate::bytes::{clear_range, copy_into, put_bytes, zero_range};
use crate::command::{read_command_spec, write_command_spec, Command, SlaveAddress, TargetSlave};
use crate::error::EcError;
use crate::frame::{CommandType, MailboxFrame};
use crate::register::{SyncManagerActivation, SyncManagerStatus};
use crate::socket::{CommandData, Cyclic, EtherCatSystemTime};
use crate::tasks::mailbox::MailboxTaskError;
use crate::tasks::mailbox_reader::{sm_register, sm_register_exec, SyncManager};
use vstd::prelude::*;
use vstd::slice::{slice_subrange, slice_to_vec};

verus! {

/// Time the slave has to empty its mailbox, in milliseconds.
pub const MAILBOX_REQUEST_RETRY_TIMEOUT_DEFAULT_MS: u32 = 100;

/// Where the writer is.
#[derive(Debug, Clone, Copy)]
pub enum State {
    Error(EcError<MailboxTaskError>),
    Idle,
    Complete,
    CheckMailboxEmpty,
    WaitMailboxEmpty,
    Write,
}

/// What the writer holds.
pub struct MailboxWriterModel {
    pub timer_start: u64,
    pub command: Command,
    pub slave_address: SlaveAddress,
    pub state: State,
    pub send_buf: Seq<u8>,
    pub activation: u8,
    pub timeout_ns: u64,
    pub wait_empty: bool,
    pub sm_number: u8,
    pub sm_size: u16,
    pub sm_start_address: u16,
}

#[derive(Debug)]
pub struct MailboxWriter {
    timer_start: EtherCatSystemTime,
    command: Command,
    slave_address: SlaveAddress,
    state: State,
    send_buf: Vec<u8>,
    activation: u8,
    timeout_ns: u64,
    wait_empty: bool,
    sm_number: u8,
    sm_size: u16,
    sm_start_address: u16,
}

impl View for MailboxWriter {
    type V = MailboxWriterModel;

    closed spec fn view(&self) -> MailboxWriterModel {
        MailboxWriterModel {
            timer_start: self.timer_start.0,
            command: self.command,
            slave_address: self.slave_address,
            state: self.state,
            send_buf: self.send_buf@,
            activation: self.activation,
            timeout_ns: self.timeout_ns,
            wait_empty: self.wait_empty,
            sm_number: self.sm_number,
            sm_size: self.sm_size,
            sm_start_address: self.sm_start_address,
        }
    }
}

/// The datagram that the writer sends next, and the writer afterwards. A
/// mailbox larger than the writer's buffer fails instead.
pub open spec fn writer_request(m: MailboxWriterModel) -> (MailboxWriterModel, Option<(Command, usize)>) {
    let target = TargetSlave::Single(m.slave_address);
    match m.state {
        State::CheckMailboxEmpty | State::WaitMailboxEmpty => {
            let c = read_command_spec(target, sm_register(SyncManagerStatus::ADDRESS, m.sm_number));
            (
                MailboxWriterModel { command: c, ..m },
                Some((c, (SyncManagerStatus::SIZE + SyncManagerActivation::SIZE) as usize)),
            )
        },
        State::Write => {
            let c = write_command_spec(target, m.sm_start_address);
            if m.send_buf.len() < m.sm_size {
                (
                    MailboxWriterModel {
                        command: c,
                        state: State::Error(EcError::TaskSpecific(MailboxTaskError::BufferSmall)),
                        ..m
                    },
                    None,
                )
            } else {
                (MailboxWriterModel { command: c, ..m }, Some((c, m.sm_size as usize)))
            }
        },
        _ => (m, None),
    }
}

/// The bytes that the writer's next datagram carries, written over `buf`:
/// zeros for the status checks, the mailbox for the write.
pub open spec fn writer_request_data(m: MailboxWriterModel, buf: Seq<u8>) -> Seq<u8> {
    match m.state {
        State::CheckMailboxEmpty | State::WaitMailboxEmpty => zero_range(buf, 0, 2),
        State::Write => if m.send_buf.len() < m.sm_size {
            buf
        } else {
            put_bytes(buf, 0, m.send_buf.subrange(0, m.sm_size as int))
        },
        _ => buf,
    }
}

/// The writer after a step at time `t` with the reply `(command, data,
/// wkc)` to its last datagram, or with none. A reply to another command
/// type or register is an error. An empty mailbox is written; a full one
/// is waited for or is an error; a write that is not taken is sent again.
/// The timer starts with the reply to the first check; whatever the
/// state, more than the timeout after it is an error.
pub open spec fn writer_receive(m: MailboxWriterModel, recv: Option<(Command, Seq<u8>, u16)>, t: u64) -> MailboxWriterModel {
    let m1 = match recv {
        None => m,
        Some((c, data, wkc)) => {
            let st = if !(c.c_type == m.command.c_type && c.ado == m.command.ado) {
                State::Error(EcError::UnexpectedCommand)
            } else {
                m.state
            };
            match st {
                State::CheckMailboxEmpty => {
                    let m0 = MailboxWriterModel { timer_start: t, ..m };
                    if wkc != 1 {
                        MailboxWriterModel {
                            state: State::Error(EcError::TaskSpecific(MailboxTaskError::MailboxNotAvailable)),
                            ..m0
                        }
                    } else {
                        let m2 = MailboxWriterModel { activation: data[1], ..m0 };
                        if !SyncManagerStatus::is_mailbox_full_spec(data) {
                            MailboxWriterModel { state: State::Write, ..m2 }
                        } else if m.wait_empty {
                            MailboxWriterModel { state: State::WaitMailboxEmpty, ..m2 }
                        } else {
                            MailboxWriterModel {
                                state: State::Error(EcError::TaskSpecific(MailboxTaskError::MailboxFull)),
                                ..m2
                            }
                        }
                    }
                },
                State::WaitMailboxEmpty => if wkc != 1 {
                    MailboxWriterModel {
                        state: State::Error(EcError::TaskSpecific(MailboxTaskError::MailboxNotAvailable)),
                        ..m
                    }
                } else {
                    let m2 = MailboxWriterModel { activation: data[1], ..m };
                    if !SyncManagerStatus::is_mailbox_full_spec(data) {
                        MailboxWriterModel { state: State::Write, ..m2 }
                    } else {
                        m2
                    }
                },
                State::Write => if wkc != 1 {
                    m
                } else {
                    MailboxWriterModel { state: State::Complete, ..m }
                },
                _ => MailboxWriterModel { state: st, ..m },
            }
        },
    };
    if m1.timer_start < t && m1.timeout_ns < t - m1.timer_start {
        MailboxWriterModel { state: State::Error(EcError::TaskSpecific(MailboxTaskError::Timeout)), ..m1 }
    } else {
        m1
    }
}

impl MailboxWriter {
    /// The buffer holds at least a mailbox header.
    #[verifier::type_invariant]
    spec fn holds_header(&self) -> bool {
        self.send_buf@.len() >= MailboxFrame::HEADER_SIZE
    }

    /// A new writer of the buffer `buf`.
    pub open spec fn new_model(buf: Seq<u8>) -> MailboxWriterModel {
        MailboxWriterModel {
            timer_start: 0,
            command: Command { c_type: CommandType::APRD, adp: 0, ado: 0 },
            slave_address: SlaveAddress::SlavePosition(0),
            state: State::Idle,
            send_buf: buf,
            activation: 0,
            timeout_ns: 0,
            wait_empty: true,
            sm_number: 0,
            sm_size: 0,
            sm_start_address: 0,
        }
    }

    /// The writer `m` started on the slave at `slave_address` through
    /// `rx_sm`.
    pub open spec fn started_model(
        m: MailboxWriterModel,
        slave_address: SlaveAddress,
        rx_sm: SyncManager,
        wait_empty: bool,
    ) -> MailboxWriterModel {
        MailboxWriterModel {
            timer_start: 0,
            command: Command { c_type: CommandType::APRD, adp: 0, ado: 0 },
            slave_address,
            timeout_ns: (MAILBOX_REQUEST_RETRY_TIMEOUT_DEFAULT_MS as u64 * 1000 * 1000) as u64,
            state: State::CheckMailboxEmpty,
            wait_empty,
            sm_number: rx_sm.number,
            sm_size: rx_sm.size,
            sm_start_address: rx_sm.start_address,
            ..m
        }
    }

    /// A writer of the mailbox in `send_buf`, which must hold at least a
    /// mailbox header.
    pub fn new(send_buf: Vec<u8>) -> (r: Self)
        requires
            send_buf@.len() >= MailboxFrame::HEADER_SIZE,
        ensures
            r@ == Self::new_model(send_buf@),
    {
        MailboxWriter {
            timer_start: EtherCatSystemTime(0),
            command: Command::default(),
            slave_address: SlaveAddress::SlavePosition(0),
            state: State::Idle,
            send_buf,
            activation: 0,
            timeout_ns: 0,
            wait_empty: true,
            sm_number: 0,
            sm_size: 0,
            sm_start_address: 0,
        }
    }

    pub fn take_buffer(self) -> (r: Vec<u8>)
        ensures
            r@ == self@.send_buf,
            r@.len() >= MailboxFrame::HEADER_SIZE,
    {
        proof {
            use_type_invariant(&self);
        }
        self.send_buf
    }

    /// The header of the mailbox to write.
    pub fn mailbox_header(&self) -> (r: MailboxFrame)
        ensures
            r.0@ == self@.send_buf.subrange(0, MailboxFrame::HEADER_SIZE as int),
    {
        proof {
            use_type_invariant(self);
        }
        MailboxFrame(slice_to_vec(slice_subrange(self.send_buf.as_slice(), 0, MailboxFrame::HEADER_SIZE)))
    }

    /// What follows the header in the mailbox to write.
    pub fn mailbox_data(&self) -> (r: &[u8])
        ensures
            r@ == self@.send_buf.subrange(MailboxFrame::HEADER_SIZE as int, self@.send_buf.len() as int),
    {
        proof {
            use_type_invariant(self);
        }
        slice_subrange(self.send_buf.as_slice(), MailboxFrame::HEADER_SIZE, self.send_buf.len())
    }

    /// Starts writing the mailbox to the slave at `slave_address` through
    /// its sync manager `rx_sm`; with `wait_empty`, a full mailbox is waited
    /// for until it empties.
    pub fn start(&mut self, slave_address: SlaveAddress, rx_sm: SyncManager, wait_empty: bool)
        ensures
            final(self)@ == Self::started_model(old(self)@, slave_address, rx_sm, wait_empty),
    {
        proof {
            use_type_invariant(&*self);
        }
        self.timer_start = EtherCatSystemTime(0);
        self.command = Command::default();
        self.slave_address = slave_address;
        self.timeout_ns = MAILBOX_REQUEST_RETRY_TIMEOUT_DEFAULT_MS as u64 * 1000 * 1000;
        self.state = State::CheckMailboxEmpty;
        self.wait_empty = wait_empty;
        self.sm_number = rx_sm.number;
        self.sm_size = rx_sm.size;
        self.sm_start_address = rx_sm.start_address;
    }

    /// Done once the mailbox was written; the error once failed; nothing
    /// while writing.
    pub fn wait(&self) -> (r: Option<Result<(), EcError<MailboxTaskError>>>)
        ensures
            self@.state is Complete ==> r == Some(Ok::<(), EcError<MailboxTaskError>>(())),
            self@.state matches State::Error(e) ==> r == Some(Err::<(), EcError<MailboxTaskError>>(e)),
            !(self@.state is Complete || self@.state is Error) ==> r is None,
    {
        match self.state {
            State::Complete => Some(Ok(())),
            State::Error(err) => Some(Err(err)),
            _ => None,
        }
    }
}

/// Bytes of the socket's buffer that the writer needs.
pub open spec fn writer_required_len(m: MailboxWriterModel) -> nat {
    if m.sm_size > 2 {
        m.sm_size as nat
    } else {
        2
    }
}

/// Bytes of data that the writer reads from the reply it waits for.
pub open spec fn writer_reply_len(m: MailboxWriterModel) -> nat {
    match m.state {
        State::CheckMailboxEmpty | State::WaitMailboxEmpty => 2,
        _ => 0,
    }
}

impl MailboxWriter {
    /// The datagram of the current state, written into `buf`.
    pub(crate) fn next_datagram(&mut self, buf: &mut Vec<u8>) -> (r: Option<(Command, usize)>)
        requires
            old(buf)@.len() >= writer_required_len(old(self)@),
        ensures
            r == writer_request(old(self)@).1,
            final(self)@ == writer_request(old(self)@).0,
            final(buf)@ == writer_request_data(old(self)@, old(buf)@),
    {
        proof {
            use_type_invariant(&*self);
        }
        let target = TargetSlave::from_address(self.slave_address);
        match self.state {
            State::CheckMailboxEmpty | State::WaitMailboxEmpty => {
                self.command = Command::new_read(target, sm_register_exec(SyncManagerStatus::ADDRESS, self.sm_number));
                clear_range(buf, 0, SyncManagerStatus::SIZE + SyncManagerActivation::SIZE);
                Some((self.command, SyncManagerStatus::SIZE + SyncManagerActivation::SIZE))
            },
            State::Write => {
                self.command = Command::new_write(target, self.sm_start_address);
                if self.send_buf.len() < self.sm_size as usize {
                    self.state = State::Error(EcError::TaskSpecific(MailboxTaskError::BufferSmall));
                    None
                } else {
                    let n = self.sm_size as usize;
                    copy_into(buf, 0, slice_subrange(self.send_buf.as_slice(), 0, n));
                    Some((self.command, n))
                }
            },
            _ => None,
        }
    }

    /// Steps the writer with the reply to its last datagram.
    pub(crate) fn process_reply(&mut self, recv_data: Option<&CommandData>, sys_time: EtherCatSystemTime)
        requires
            recv_data matches Some(d) ==> d.data@.len() >= writer_reply_len(old(self)@),
        ensures
            final(self)@ == writer_receive(
                old(self)@,
                match recv_data {
                    Some(d) => Some((d.command, d.data@, d.wkc)),
                    None => None,
                },
                sys_time.0,
            ),
    {
        proof {
            use_type_invariant(&*self);
        }
        if let Some(recv_data) = recv_data {
            let data = recv_data.data;
            let wkc = recv_data.wkc;
            if !(recv_data.command.c_type == self.command.c_type && recv_data.command.ado == self.command.ado) {
                self.state = State::Error(EcError::UnexpectedCommand);
            }
            match self.state {
                State::CheckMailboxEmpty => {
                    self.timer_start = sys_time;
                    if wkc != 1 {
                        self.state = State::Error(EcError::TaskSpecific(MailboxTaskError::MailboxNotAvailable));
                    } else {
                        self.activation = data[SyncManagerStatus::SIZE];
                        if !SyncManagerStatus::is_mailbox_full(data) {
                            self.state = State::Write;
                        } else if self.wait_empty {
                            self.state = State::WaitMailboxEmpty;
                        } else {
                            self.state = State::Error(EcError::TaskSpecific(MailboxTaskError::MailboxFull));
                        }
                    }
                },
                State::WaitMailboxEmpty => {
                    if wkc != 1 {
                        self.state = State::Error(EcError::TaskSpecific(MailboxTaskError::MailboxNotAvailable));
                    } else {
                        self.activation = data[SyncManagerStatus::SIZE];
                        if !SyncManagerStatus::is_mailbox_full(data) {
                            self.state = State::Write;
                        }
                    }
                },
                State::Write => {
                    if wkc == 1 {
                        self.state = State::Complete;
                    }
                },
                _ => {},
            }
        }
        if self.timer_start.0 < sys_time.0 && self.timeout_ns < sys_time.0 - self.timer_start.0 {
            self.state = State::Error(EcError::TaskSpecific(MailboxTaskError::Timeout));
        }
    }
}

impl Cyclic for MailboxWriter {
    open spec fn required_len(&self) -> nat {
        writer_required_len(self@)
    }

    open spec fn reply_len(&self) -> nat {
        writer_reply_len(self@)
    }

    fn is_finished(&self) -> (r: bool)
        ensures
            r == (self@.state is Complete || self@.state is Error),
    {
        match self.state {
            State::Complete | State::Error(_) => true,
            _ => false,
        }
    }

    /// The datagram of the current state, written into `buf`.
    fn next_command(&mut self, buf: &mut Vec<u8>) -> (r: Option<(Command, usize)>)
        ensures
            r == writer_request(old(self)@).1,
            final(self)@ == writer_request(old(self)@).0,
            final(buf)@ == writer_request_data(old(self)@, old(buf)@),
    {
        self.next_datagram(buf)
    }

    /// Steps the writer with the reply to its last datagram.
    fn recieve_and_process(&mut self, recv_data: Option<&CommandData>, sys_time: EtherCatSystemTime)
        ensures
            final(self)@ == writer_receive(
                old(self)@,
                match recv_data {
                    Some(d) => Some((d.command, d.data@, d.wkc)),
                    None => None,
                },
                sys_time.0,
            ),
    {
        self.process_reply(recv_data, sys_time)
    }
}

} // verus!
