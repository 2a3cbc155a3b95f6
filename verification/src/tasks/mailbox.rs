//! The mailbox task: reads a slave's mailbox or writes one to it, over one
//! buffer that it keeps between the two.
use crate::command::{Command, SlaveAddress};
use crate::error::EcError;
use crate::frame::{MailboxErrorFrame, MailboxFrame};
use crate::socket::{CommandData, Cyclic, EtherCatSystemTime};
use crate::tasks::mailbox_reader::{
    reader_receive, reader_reply_len, reader_request, reader_request_data, reader_required_len, MailboxReader,
    MailboxReaderModel, SyncManager,
};
use crate::tasks::mailbox_writer::{
    writer_receive, writer_reply_len, writer_request, writer_request_data, writer_required_len, MailboxWriter,
    MailboxWriterModel,
};
use vstd::prelude::*;

verus! {

/// Why a mailbox exchange failed.
#[derive(Debug, Clone, Copy)]
pub enum MailboxTaskError {
    Timeout,
    MailboxNotAvailable,
    MailboxEmpty,
    MailboxFull,
    BufferSmall,
    /// The slave answered with a mailbox error reply.
    ErrorResponse(MailboxErrorFrame),
}

impl From<MailboxTaskError> for EcError<MailboxTaskError> {
    fn from(err: MailboxTaskError) -> (r: Self) {
        EcError::TaskSpecific(err)
    }
}

impl vstd::std_specs::convert::FromSpecImpl<MailboxTaskError> for EcError<MailboxTaskError> {
    open spec fn obeys_from_spec() -> bool {
        true
    }

    open spec fn from_spec(err: MailboxTaskError) -> EcError<MailboxTaskError> {
        EcError::TaskSpecific(err)
    }
}

/// Where the task is.
#[derive(Debug, Clone, Copy)]
pub enum State {
    Error(EcError<MailboxTaskError>),
    Idle,
    Complete,
    Processing,
}

/// The reader or the writer that the task drives.
#[derive(Debug)]
pub enum Inner {
    Reader(MailboxReader),
    Writer(MailboxWriter),
}

/// What the reader or the writer holds.
pub enum InnerModel {
    Reader(MailboxReaderModel),
    Writer(MailboxWriterModel),
}

/// What the task holds.
pub struct MailboxTaskModel {
    pub state: State,
    pub inner: InnerModel,
}

#[derive(Debug)]
pub struct MailboxTask {
    state: State,
    inner: Inner,
}

impl View for Inner {
    type V = InnerModel;

    closed spec fn view(&self) -> InnerModel {
        match self {
            Inner::Reader(r) => InnerModel::Reader(r@),
            Inner::Writer(w) => InnerModel::Writer(w@),
        }
    }
}

impl View for MailboxTask {
    type V = MailboxTaskModel;

    closed spec fn view(&self) -> MailboxTaskModel {
        MailboxTaskModel { state: self.state, inner: self.inner@ }
    }
}

/// The buffer that the task keeps.
pub open spec fn task_buffer(inner: InnerModel) -> Seq<u8> {
    match inner {
        InnerModel::Reader(r) => r.recv_buf,
        InnerModel::Writer(w) => w.send_buf,
    }
}

/// The outcome of the reader or writer, as its `wait` gives it.
pub open spec fn inner_outcome(inner: InnerModel) -> State {
    let st = match inner {
        InnerModel::Reader(r) => match r.state {
            crate::tasks::mailbox_reader::State::Complete => State::Complete,
            crate::tasks::mailbox_reader::State::Error(e) => State::Error(e),
            _ => State::Processing,
        },
        InnerModel::Writer(w) => match w.state {
            crate::tasks::mailbox_writer::State::Complete => State::Complete,
            crate::tasks::mailbox_writer::State::Error(e) => State::Error(e),
            _ => State::Processing,
        },
    };
    st
}

/// The datagram that the task sends next, and the task afterwards: that of
/// its reader or writer while it works, none otherwise.
pub open spec fn task_request(m: MailboxTaskModel) -> (MailboxTaskModel, Option<(Command, usize)>) {
    match m.state {
        State::Processing => match m.inner {
            InnerModel::Reader(r) => (
                MailboxTaskModel { inner: InnerModel::Reader(reader_request(r).0), ..m },
                reader_request(r).1,
            ),
            InnerModel::Writer(w) => (
                MailboxTaskModel { inner: InnerModel::Writer(writer_request(w).0), ..m },
                writer_request(w).1,
            ),
        },
        _ => (m, None),
    }
}

/// The bytes of the task's next datagram, written over `buf`.
pub open spec fn task_request_data(m: MailboxTaskModel, buf: Seq<u8>) -> Seq<u8> {
    match m.state {
        State::Processing => match m.inner {
            InnerModel::Reader(r) => reader_request_data(r, buf),
            InnerModel::Writer(w) => writer_request_data(w, buf),
        },
        _ => buf,
    }
}

/// The task after a step at time `t`: while it works, its reader or writer
/// takes the step, and the task is done or failed when that one is.
pub open spec fn task_receive(m: MailboxTaskModel, recv: Option<(Command, Seq<u8>, u16)>, t: u64) -> MailboxTaskModel {
    match m.state {
        State::Processing => {
            let inner = match m.inner {
                InnerModel::Reader(r) => InnerModel::Reader(reader_receive(r, recv, t)),
                InnerModel::Writer(w) => InnerModel::Writer(writer_receive(w, recv, t)),
            };
            MailboxTaskModel { state: inner_outcome(inner), inner }
        },
        _ => m,
    }
}

impl MailboxTask {
    /// A task over `mb_buf`, which must hold at least a mailbox header.
    pub fn new(mb_buf: Vec<u8>) -> (r: Self)
        requires
            mb_buf@.len() >= MailboxFrame::HEADER_SIZE,
        ensures
            r@.state is Idle,
            r@.inner matches InnerModel::Reader(reader) && reader == MailboxReader::new_model(mb_buf@),
    {
        MailboxTask { state: State::Idle, inner: Inner::Reader(MailboxReader::new(mb_buf)) }
    }

    pub fn take_buffer(self) -> (r: Vec<u8>)
        ensures
            r@ == task_buffer(self@.inner),
    {
        match self.inner {
            Inner::Reader(reader) => reader.take_buffer(),
            Inner::Writer(writer) => writer.take_buffer(),
        }
    }

    /// The header of the mailbox in the buffer.
    pub fn mailbox_header(&self) -> (r: MailboxFrame)
        ensures
            r.0@ == task_buffer(self@.inner).subrange(0, MailboxFrame::HEADER_SIZE as int),
    {
        match &self.inner {
            Inner::Reader(reader) => reader.mailbox_header(),
            Inner::Writer(writer) => writer.mailbox_header(),
        }
    }

    /// What follows the header in the buffer.
    pub fn mailbox_data(&self) -> (r: &[u8])
        ensures
            r@ == task_buffer(self@.inner).subrange(
                MailboxFrame::HEADER_SIZE as int,
                task_buffer(self@.inner).len() as int,
            ),
    {
        match &self.inner {
            Inner::Reader(reader) => reader.mailbox_data(),
            Inner::Writer(writer) => writer.mailbox_data(),
        }
    }

    /// Hands the buffer out of the reader or writer.
    fn take_inner_buffer(&mut self) -> (r: Vec<u8>)
        ensures
            r@ == task_buffer(old(self)@.inner),
            r@.len() >= MailboxFrame::HEADER_SIZE,
    {
        let mut inner = Inner::Reader(MailboxReader::new(vec![0u8; MailboxFrame::HEADER_SIZE]));
        core::mem::swap(&mut inner, &mut self.inner);
        match inner {
            Inner::Reader(reader) => reader.take_buffer(),
            Inner::Writer(writer) => writer.take_buffer(),
        }
    }

    /// Starts reading the mailbox of the slave at `slave_address` into the
    /// buffer, with a new reader.
    pub fn start_to_read(&mut self, slave_address: SlaveAddress, tx_sm: SyncManager, wait_full: bool)
        requires
            tx_sm.size >= MailboxFrame::HEADER_SIZE,
        ensures
            final(self)@.state is Processing,
            final(self)@.inner matches InnerModel::Reader(reader) && reader == MailboxReader::started_model(
                MailboxReader::new_model(task_buffer(old(self)@.inner)),
                slave_address,
                tx_sm,
                wait_full,
            ),
    {
        let buf = self.take_inner_buffer();
        let mut reader = MailboxReader::new(buf);
        reader.start(slave_address, tx_sm, wait_full);
        self.inner = Inner::Reader(reader);
        self.state = State::Processing;
    }

    /// Starts writing the mailbox in the buffer to the slave at
    /// `slave_address`, with a new writer.
    pub fn start_to_write(&mut self, slave_address: SlaveAddress, rx_sm: SyncManager, wait_full: bool)
        ensures
            final(self)@.state is Processing,
            final(self)@.inner matches InnerModel::Writer(writer) && writer == MailboxWriter::started_model(
                MailboxWriter::new_model(task_buffer(old(self)@.inner)),
                slave_address,
                rx_sm,
                wait_full,
            ),
    {
        let buf = self.take_inner_buffer();
        let mut writer = MailboxWriter::new(buf);
        writer.start(slave_address, rx_sm, wait_full);
        self.inner = Inner::Writer(writer);
        self.state = State::Processing;
    }

    /// Done once the exchange is; the error once failed; nothing while it
    /// runs or before it starts.
    pub fn wait(&self) -> (r: Option<Result<(), EcError<MailboxTaskError>>>)
        ensures
            self@.state is Complete ==> r == Some(Ok::<(), EcError<MailboxTaskError>>(())),
            self@.state matches State::Error(e) ==> r == Some(Err::<(), EcError<MailboxTaskError>>(e)),
            !(self@.state is Complete || self@.state is Error) ==> r is None,
    {
        match self.state {
            State::Complete => Some(Ok(())),
            State::Error(err) => Some(Err(err)),
            _ => None,
        }
    }
}

impl Cyclic for MailboxTask {
    open spec fn required_len(&self) -> nat {
        match self@.inner {
            InnerModel::Reader(r) => reader_required_len(r),
            InnerModel::Writer(w) => writer_required_len(w),
        }
    }

    open spec fn reply_len(&self) -> nat {
        match self@.state {
            State::Processing => match self@.inner {
                InnerModel::Reader(r) => reader_reply_len(r),
                InnerModel::Writer(w) => writer_reply_len(w),
            },
            _ => 0,
        }
    }

    fn is_finished(&self) -> (r: bool)
        ensures
            r == (self@.state is Complete || self@.state is Error),
    {
        match self.state {
            State::Complete | State::Error(_) => true,
            _ => false,
        }
    }

    /// The datagram of the reader or writer while the task works.
    fn next_command(&mut self, buf: &mut Vec<u8>) -> (r: Option<(Command, usize)>)
        ensures
            r == task_request(old(self)@).1,
            final(self)@ == task_request(old(self)@).0,
            final(buf)@ == task_request_data(old(self)@, old(buf)@),
    {
        match self.state {
            State::Processing => match &mut self.inner {
                Inner::Reader(reader) => reader.next_datagram(buf),
                Inner::Writer(writer) => writer.next_datagram(buf),
            },
            _ => None,
        }
    }

    /// Steps the reader or writer, and takes over its outcome.
    fn recieve_and_process(&mut self, recv_data: Option<&CommandData>, sys_time: EtherCatSystemTime)
        ensures
            final(self)@ == task_receive(
                old(self)@,
                match recv_data {
                    Some(d) => Some((d.command, d.data@, d.wkc)),
                    None => None,
                },
                sys_time.0,
            ),
    {
        match self.state {
            State::Processing => {
                let outcome = match &mut self.inner {
                    Inner::Reader(reader) => {
                        reader.process_reply(recv_data, sys_time);
                        reader.wait()
                    },
                    Inner::Writer(writer) => {
                        writer.process_reply(recv_data, sys_time);
                        writer.wait()
                    },
                };
                match outcome {
                    None => {},
                    Some(Ok(_)) => self.state = State::Complete,
                    Some(Err(err)) => self.state = State::Error(err),
                }
            },
            _ => {},
        }
    }
}

} // verus!
