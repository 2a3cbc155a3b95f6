//! Reads a slave's outgoing mailbox through its sync manager: wait until the
//! mailbox is full, read it, and where the read is lost ask the slave to
//! repeat it.
use crate::bytes::{clear_range, zero_range};
use crate::command::{read_command_spec, write_command_spec, Command, SlaveAddress, TargetSlave};
use crate::error::EcError;
use crate::frame::{mb_type_code, CommandType, MailboxErrorFrame, MailboxFrame};
use crate::register::{SyncManagerActivation, SyncManagerPdiControl, SyncManagerStatus};
use crate::socket::{copy_prefix, CommandData, Cyclic, EtherCatSystemTime};
use crate::tasks::mailbox::MailboxTaskError;
use vstd::prelude::*;
use vstd::slice::{slice_subrange, slice_to_vec};

verus! {

/// Time the slave has to fill its mailbox, in milliseconds.
pub const MAILBOX_RESPONSE_RETRY_TIMEOUT_DEFAULT_MS: u32 = 2000;

/// The sync manager of a slave's mailbox: its number, and the start address
/// and size of the mailbox in the slave's memory.
#[derive(Debug, Clone, Copy)]
pub struct SyncManager {
    pub number: u8,
    pub start_address: u16,
    pub size: u16,
}

/// Where the reader is.
#[derive(Debug, Clone, Copy)]
pub enum State {
    Error(EcError<MailboxTaskError>),
    Idle,
    Complete,
    /// Whether this is the first check, and whether to keep checking until
    /// the mailbox is full.
    CheckMailboxFull(bool, bool),
    Read,
    RequestRepeat,
    WaitRepeatAck,
}

/// What the reader holds.
pub struct MailboxReaderModel {
    pub timer_start: u64,
    pub command: Command,
    pub slave_address: SlaveAddress,
    pub state: State,
    pub recv_buf: Seq<u8>,
    pub activation: u8,
    pub sm_number: u8,
    pub sm_size: u16,
    pub sm_start_address: u16,
}

#[derive(Debug)]
pub struct MailboxReader {
    timer_start: EtherCatSystemTime,
    command: Command,
    slave_address: SlaveAddress,
    state: State,
    recv_buf: Vec<u8>,
    activation: u8,
    sm_number: u8,
    sm_size: u16,
    sm_start_address: u16,
}

impl View for MailboxReader {
    type V = MailboxReaderModel;

    closed spec fn view(&self) -> MailboxReaderModel {
        MailboxReaderModel {
            timer_start: self.timer_start.0,
            command: self.command,
            slave_address: self.slave_address,
            state: self.state,
            recv_buf: self.recv_buf@,
            activation: self.activation,
            sm_number: self.sm_number,
            sm_size: self.sm_size,
            sm_start_address: self.sm_start_address,
        }
    }
}

/// The register at `base` of sync manager `number`; each sync manager has
/// a block of eight bytes.
pub open spec fn sm_register(base: u16, number: u8) -> u16 {
    (base + number * 8) as u16
}

pub(crate) fn sm_register_exec(base: u16, number: u8) -> (r: u16)
    requires
        base <= 0x0807,
    ensures
        r == sm_register(base, number),
{
    base + (number as u16) * 8
}

/// The datagram that the reader sends next, and the reader afterwards. A
/// read of a mailbox larger than the reader's buffer fails instead.
pub open spec fn reader_request(m: MailboxReaderModel) -> (MailboxReaderModel, Option<(Command, usize)>) {
    let target = TargetSlave::Single(m.slave_address);
    match m.state {
        State::CheckMailboxFull(_, _) => {
            let c = read_command_spec(target, sm_register(SyncManagerStatus::ADDRESS, m.sm_number));
            (
                MailboxReaderModel { command: c, ..m },
                Some((c, (SyncManagerStatus::SIZE + SyncManagerActivation::SIZE) as usize)),
            )
        },
        State::Read => {
            let c = read_command_spec(target, m.sm_start_address);
            if m.recv_buf.len() < m.sm_size {
                (
                    MailboxReaderModel {
                        command: c,
                        state: State::Error(EcError::TaskSpecific(MailboxTaskError::BufferSmall)),
                        ..m
                    },
                    None,
                )
            } else {
                (
                    MailboxReaderModel {
                        command: c,
                        recv_buf: Seq::new(m.recv_buf.len(), |i: int| 0u8),
                        ..m
                    },
                    Some((c, m.sm_size as usize)),
                )
            }
        },
        State::RequestRepeat => {
            let c = write_command_spec(target, sm_register(SyncManagerActivation::ADDRESS, m.sm_number));
            (
                MailboxReaderModel {
                    command: c,
                    activation: SyncManagerActivation::toggle_repeat_spec(m.activation),
                    ..m
                },
                Some((c, SyncManagerActivation::SIZE)),
            )
        },
        State::WaitRepeatAck => {
            let c = read_command_spec(target, sm_register(SyncManagerPdiControl::ADDRESS, m.sm_number));
            (MailboxReaderModel { command: c, ..m }, Some((c, SyncManagerPdiControl::SIZE)))
        },
        _ => (m, None),
    }
}

/// The bytes that the reader's next datagram carries, written over `buf`:
/// zeros, or the activation byte with its repeat request turned over.
pub open spec fn reader_request_data(m: MailboxReaderModel, buf: Seq<u8>) -> Seq<u8> {
    match m.state {
        State::CheckMailboxFull(_, _) => zero_range(buf, 0, 2),
        State::Read => if m.recv_buf.len() < m.sm_size {
            buf
        } else {
            zero_range(buf, 0, m.sm_size as int)
        },
        State::RequestRepeat => buf.update(0, SyncManagerActivation::toggle_repeat_spec(m.activation)),
        State::WaitRepeatAck => zero_range(buf, 0, 1),
        _ => buf,
    }
}

/// The reader after a step at time `t` with the reply `(command, data,
/// wkc)` to its last datagram, or with none. A reply to another command
/// type or register is an error. A full mailbox is read; an empty one is
/// checked again or is an error; a lost read is asked to be repeated; the
/// slave's mailbox error reply is an error. The timer starts with the reply
/// to the first check; whatever the state, more than the timeout after it
/// is an error.
pub open spec fn reader_receive(m: MailboxReaderModel, recv: Option<(Command, Seq<u8>, u16)>, t: u64) -> MailboxReaderModel {
    let m1 = match recv {
        None => m,
        Some((c, data, wkc)) => {
            let st = if !(c.c_type == m.command.c_type && c.ado == m.command.ado) {
                State::Error(EcError::UnexpectedCommand)
            } else {
                m.state
            };
            match st {
                State::CheckMailboxFull(is_first, wait_full) => {
                    let m0 = if is_first {
                        MailboxReaderModel { timer_start: t, ..m }
                    } else {
                        m
                    };
                    if wkc != 1 {
                        MailboxReaderModel {
                            state: State::Error(EcError::TaskSpecific(MailboxTaskError::MailboxNotAvailable)),
                            ..m0
                        }
                    } else {
                        let m2 = MailboxReaderModel { activation: data[1], ..m0 };
                        if SyncManagerStatus::is_mailbox_full_spec(data) {
                            MailboxReaderModel { state: State::Read, ..m2 }
                        } else if wait_full {
                            MailboxReaderModel { state: State::CheckMailboxFull(false, wait_full), ..m2 }
                        } else {
                            MailboxReaderModel {
                                state: State::Error(EcError::TaskSpecific(MailboxTaskError::MailboxEmpty)),
                                ..m2
                            }
                        }
                    }
                },
                State::Read => if wkc != 1 {
                    MailboxReaderModel { state: State::RequestRepeat, ..m }
                } else {
                    let buf = copy_prefix(m.recv_buf, data);
                    if mb_type_code(data) == 0 {
                        MailboxReaderModel {
                            recv_buf: buf,
                            state: State::Error(
                                EcError::TaskSpecific(
                                    MailboxTaskError::ErrorResponse(error_frame_of(buf)),
                                ),
                            ),
                            ..m
                        }
                    } else {
                        MailboxReaderModel { recv_buf: buf, state: State::Complete, ..m }
                    }
                },
                State::RequestRepeat => MailboxReaderModel { state: State::WaitRepeatAck, ..m },
                State::WaitRepeatAck => if wkc != 1 {
                    MailboxReaderModel { state: State::Error(EcError::UnexpectedWkc(wkc)), ..m }
                } else if SyncManagerPdiControl::repeat_ack_spec(data) == SyncManagerActivation::repeat_spec(
                    m.activation,
                ) {
                    MailboxReaderModel { state: State::CheckMailboxFull(false, true), ..m }
                } else {
                    m
                },
                _ => MailboxReaderModel { state: st, ..m },
            }
        },
    };
    if m1.timer_start < t && (MAILBOX_RESPONSE_RETRY_TIMEOUT_DEFAULT_MS as u64) * 1000 * 1000 < t
        - m1.timer_start {
        MailboxReaderModel { state: State::Error(EcError::TaskSpecific(MailboxTaskError::Timeout)), ..m1 }
    } else {
        m1
    }
}

/// The error reply whose bytes are the first four of `s`.
pub open spec fn error_frame_of(s: Seq<u8>) -> MailboxErrorFrame {
    MailboxErrorFrame([s[0], s[1], s[2], s[3]])
}

impl MailboxReader {
    /// The buffer holds at least a mailbox header, and so does the mailbox
    /// of a reader at work.
    #[verifier::type_invariant]
    spec fn holds_header(&self) -> bool {
        &&& self.recv_buf@.len() >= MailboxFrame::HEADER_SIZE
        &&& !(self.state is Idle || self.state is Complete || self.state is Error) ==> self.sm_size
            >= MailboxFrame::HEADER_SIZE
    }

    /// A new reader over the buffer `buf`.
    pub open spec fn new_model(buf: Seq<u8>) -> MailboxReaderModel {
        MailboxReaderModel {
            timer_start: 0,
            command: Command { c_type: CommandType::APRD, adp: 0, ado: 0 },
            slave_address: SlaveAddress::SlavePosition(0),
            state: State::Idle,
            recv_buf: buf,
            activation: 0,
            sm_number: 0,
            sm_size: 0,
            sm_start_address: 0,
        }
    }

    /// The reader `m` started on the slave at `slave_address` through
    /// `tx_sm`.
    pub open spec fn started_model(
        m: MailboxReaderModel,
        slave_address: SlaveAddress,
        tx_sm: SyncManager,
        wait_full: bool,
    ) -> MailboxReaderModel {
        MailboxReaderModel {
            timer_start: 0,
            command: Command { c_type: CommandType::APRD, adp: 0, ado: 0 },
            slave_address,
            state: State::CheckMailboxFull(true, wait_full),
            sm_number: tx_sm.number,
            sm_size: tx_sm.size,
            sm_start_address: tx_sm.start_address,
            ..m
        }
    }

    /// A reader over `recv_buf`, which must hold at least a mailbox header.
    pub fn new(recv_buf: Vec<u8>) -> (r: Self)
        requires
            recv_buf@.len() >= MailboxFrame::HEADER_SIZE,
        ensures
            r@ == Self::new_model(recv_buf@),
    {
        MailboxReader {
            timer_start: EtherCatSystemTime(0),
            command: Command::default(),
            slave_address: SlaveAddress::SlavePosition(0),
            state: State::Idle,
            recv_buf,
            activation: 0,
            sm_number: 0,
            sm_size: 0,
            sm_start_address: 0,
        }
    }

    pub fn take_buffer(self) -> (r: Vec<u8>)
        ensures
            r@ == self@.recv_buf,
            r@.len() >= MailboxFrame::HEADER_SIZE,
    {
        proof {
            use_type_invariant(&self);
        }
        self.recv_buf
    }

    /// The header of the mailbox read.
    pub fn mailbox_header(&self) -> (r: MailboxFrame)
        ensures
            r.0@ == self@.recv_buf.subrange(0, MailboxFrame::HEADER_SIZE as int),
    {
        proof {
            use_type_invariant(self);
        }
        MailboxFrame(slice_to_vec(slice_subrange(self.recv_buf.as_slice(), 0, MailboxFrame::HEADER_SIZE)))
    }

    /// What follows the header in the mailbox read.
    pub fn mailbox_data(&self) -> (r: &[u8])
        ensures
            r@ == self@.recv_buf.subrange(MailboxFrame::HEADER_SIZE as int, self@.recv_buf.len() as int),
    {
        proof {
            use_type_invariant(self);
        }
        slice_subrange(self.recv_buf.as_slice(), MailboxFrame::HEADER_SIZE, self.recv_buf.len())
    }

    /// Starts reading the mailbox of the slave at `slave_address` through
    /// its sync manager `tx_sm`, whose mailbox holds at least a header; with
    /// `wait_full`, an empty mailbox is checked again until it fills.
    pub fn start(&mut self, slave_address: SlaveAddress, tx_sm: SyncManager, wait_full: bool)
        requires
            tx_sm.size >= MailboxFrame::HEADER_SIZE,
        ensures
            final(self)@ == Self::started_model(old(self)@, slave_address, tx_sm, wait_full),
    {
        proof {
            use_type_invariant(&*self);
        }
        self.timer_start = EtherCatSystemTime(0);
        self.command = Command::default();
        self.slave_address = slave_address;
        self.sm_number = tx_sm.number;
        self.sm_size = tx_sm.size;
        self.sm_start_address = tx_sm.start_address;
        self.state = State::CheckMailboxFull(true, wait_full);
    }

    /// Done once the mailbox was read; the error once failed; nothing
    /// while reading.
    pub fn wait(&self) -> (r: Option<Result<(), EcError<MailboxTaskError>>>)
        ensures
            self@.state is Complete ==> r == Some(Ok::<(), EcError<MailboxTaskError>>(())),
            self@.state matches State::Error(e) ==> r == Some(Err::<(), EcError<MailboxTaskError>>(e)),
            !(self@.state is Complete || self@.state is Error) ==> r is None,
    {
        match self.state {
            State::Complete => Some(Ok(())),
            State::Error(err) => Some(Err(err)),
            _ => None,
        }
    }
}

/// Bytes of the socket's buffer that the reader needs.
pub open spec fn reader_required_len(m: MailboxReaderModel) -> nat {
    if m.sm_size > 2 {
        m.sm_size as nat
    } else {
        2
    }
}

/// Bytes of data that the reader reads from the reply it waits for.
pub open spec fn reader_reply_len(m: MailboxReaderModel) -> nat {
    match m.state {
        State::CheckMailboxFull(_, _) => 2,
        State::Read => m.sm_size as nat,
        State::WaitRepeatAck => 1,
        _ => 0,
    }
}

impl MailboxReader {
    /// The datagram of the current state, written into `buf`.
    pub(crate) fn next_datagram(&mut self, buf: &mut Vec<u8>) -> (r: Option<(Command, usize)>)
        requires
            old(buf)@.len() >= reader_required_len(old(self)@),
        ensures
            r == reader_request(old(self)@).1,
            final(self)@ == reader_request(old(self)@).0,
            final(buf)@ == reader_request_data(old(self)@, old(buf)@),
    {
        proof {
            use_type_invariant(&*self);
        }
        let target = TargetSlave::from_address(self.slave_address);
        match self.state {
            State::CheckMailboxFull(_, _) => {
                self.command = Command::new_read(target, sm_register_exec(SyncManagerStatus::ADDRESS, self.sm_number));
                clear_range(buf, 0, SyncManagerStatus::SIZE + SyncManagerActivation::SIZE);
                Some((self.command, SyncManagerStatus::SIZE + SyncManagerActivation::SIZE))
            },
            State::Read => {
                self.command = Command::new_read(target, self.sm_start_address);
                if self.recv_buf.len() < self.sm_size as usize {
                    self.state = State::Error(EcError::TaskSpecific(MailboxTaskError::BufferSmall));
                    None
                } else {
                    let n = self.recv_buf.len();
                    let mut cleared = slice_to_vec(self.recv_buf.as_slice());
                    clear_range(&mut cleared, 0, n);
                    proof {
                        assert(cleared@ =~= Seq::new(n as nat, |i: int| 0u8));
                    }
                    self.recv_buf = cleared;
                    clear_range(buf, 0, self.sm_size as usize);
                    Some((self.command, self.sm_size as usize))
                }
            },
            State::RequestRepeat => {
                self.command = Command::new_write(
                    target,
                    sm_register_exec(SyncManagerActivation::ADDRESS, self.sm_number),
                );
                self.activation = SyncManagerActivation::toggle_repeat(self.activation);
                buf.set(0, self.activation);
                Some((self.command, SyncManagerActivation::SIZE))
            },
            State::WaitRepeatAck => {
                self.command = Command::new_read(
                    target,
                    sm_register_exec(SyncManagerPdiControl::ADDRESS, self.sm_number),
                );
                clear_range(buf, 0, SyncManagerPdiControl::SIZE);
                Some((self.command, SyncManagerPdiControl::SIZE))
            },
            _ => None,
        }
    }

    /// Steps the reader with the reply to its last datagram.
    pub(crate) fn process_reply(&mut self, recv_data: Option<&CommandData>, sys_time: EtherCatSystemTime)
        requires
            recv_data matches Some(d) ==> d.data@.len() >= reader_reply_len(old(self)@),
        ensures
            final(self)@ == reader_receive(
                old(self)@,
                match recv_data {
                    Some(d) => Some((d.command, d.data@, d.wkc)),
                    None => None,
                },
                sys_time.0,
            ),
    {
        proof {
            use_type_invariant(&*self);
        }
        if let Some(recv_data) = recv_data {
            let data = recv_data.data;
            let wkc = recv_data.wkc;
            if !(recv_data.command.c_type == self.command.c_type && recv_data.command.ado == self.command.ado) {
                self.state = State::Error(EcError::UnexpectedCommand);
            }
            match self.state {
                State::CheckMailboxFull(is_first, wait_full) => {
                    if is_first {
                        self.timer_start = sys_time;
                    }
                    if wkc != 1 {
                        self.state = State::Error(EcError::TaskSpecific(MailboxTaskError::MailboxNotAvailable));
                    } else {
                        self.activation = data[SyncManagerStatus::SIZE];
                        if SyncManagerStatus::is_mailbox_full(data) {
                            self.state = State::Read;
                        } else if wait_full {
                            self.state = State::CheckMailboxFull(false, wait_full);
                        } else {
                            self.state = State::Error(EcError::TaskSpecific(MailboxTaskError::MailboxEmpty));
                        }
                    }
                },
                State::Read => {
                    if wkc != 1 {
                        self.state = State::RequestRepeat;
                    } else {
                        let mut filled = slice_to_vec(self.recv_buf.as_slice());
                        copy_prefix_into(&mut filled, data);
                        self.recv_buf = filled;
                        if data[5] % 16 == 0 {
                            let err = MailboxErrorFrame(
                                [self.recv_buf[0], self.recv_buf[1], self.recv_buf[2], self.recv_buf[3]],
                            );
                            self.state = State::Error(EcError::TaskSpecific(MailboxTaskError::ErrorResponse(err)));
                        } else {
                            self.state = State::Complete;
                        }
                    }
                },
                State::RequestRepeat => {
                    self.state = State::WaitRepeatAck;
                },
                State::WaitRepeatAck => {
                    if wkc != 1 {
                        self.state = State::Error(EcError::UnexpectedWkc(wkc));
                    } else if SyncManagerPdiControl::repeat_ack(data) == SyncManagerActivation::repeat(
                        self.activation,
                    ) {
                        self.state = State::CheckMailboxFull(false, true);
                    }
                },
                _ => {},
            }
        }
        let timeout_ns = (MAILBOX_RESPONSE_RETRY_TIMEOUT_DEFAULT_MS as u64) * 1000 * 1000;
        if self.timer_start.0 < sys_time.0 && timeout_ns < sys_time.0 - self.timer_start.0 {
            self.state = State::Error(EcError::TaskSpecific(MailboxTaskError::Timeout));
        }
    }
}

impl Cyclic for MailboxReader {
    open spec fn required_len(&self) -> nat {
        reader_required_len(self@)
    }

    open spec fn reply_len(&self) -> nat {
        reader_reply_len(self@)
    }

    fn is_finished(&self) -> (r: bool)
        ensures
            r == (self@.state is Complete || self@.state is Error),
    {
        match self.state {
            State::Complete | State::Error(_) => true,
            _ => false,
        }
    }

    /// The datagram of the current state, written into `buf`.
    fn next_command(&mut self, buf: &mut Vec<u8>) -> (r: Option<(Command, usize)>)
        ensures
            r == reader_request(old(self)@).1,
            final(self)@ == reader_request(old(self)@).0,
            final(buf)@ == reader_request_data(old(self)@, old(buf)@),
    {
        self.next_datagram(buf)
    }

    /// Steps the reader with the reply to its last datagram.
    fn recieve_and_process(&mut self, recv_data: Option<&CommandData>, sys_time: EtherCatSystemTime)
        ensures
            final(self)@ == reader_receive(
                old(self)@,
                match recv_data {
                    Some(d) => Some((d.command, d.data@, d.wkc)),
                    None => None,
                },
                sys_time.0,
            ),
    {
        self.process_reply(recv_data, sys_time)
    }
}

/// Overwrites the first bytes of `buf` with those of `data`, as many as
/// both have.
fn copy_prefix_into(buf: &mut Vec<u8>, data: &[u8])
    ensures
        final(buf)@ == copy_prefix(old(buf)@, data@),
{
    let n = if buf.len() < data.len() {
        buf.len()
    } else {
        data.len()
    };
    crate::bytes::copy_into(buf, 0, slice_subrange(data, 0, n));
}

} // verus!
