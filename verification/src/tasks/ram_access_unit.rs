//! Reads or writes up to sixteen bytes of a slave's memory, or of every
//! slave's by broadcast, in one datagram.
use crate::bytes::{copy_into, put_bytes};
use crate::command::{read_command_spec, write_command_spec, Command, SlaveAddress, TargetSlave};
use crate::error::EcError;
use crate::frame::CommandType;
use crate::socket::{copy_prefix, CommandData, Cyclic, EtherCatSystemTime};
use vstd::prelude::*;
use vstd::slice::slice_subrange;

verus! {

/// Bytes that one access carries at most.
pub const RAM_ACCESS_SIZE: usize = 16;

/// Where the unit is.
#[derive(Debug, Clone, Copy)]
pub enum State {
    Error(EcError<()>),
    Idle,
    Read,
    Write,
    Complete,
}

/// What the unit holds.
pub struct RamAccessModel {
    pub state: State,
    pub slave_address: Option<SlaveAddress>,
    pub command: Command,
    pub buffer: Seq<u8>,
    pub buf_size: usize,
    pub ado: u16,
    pub num_slaves: u16,
}

#[derive(Debug)]
pub struct RamAccessUnit {
    state: State,
    slave_address: Option<SlaveAddress>,
    command: Command,
    buffer: [u8; 16],
    buf_size: usize,
    ado: u16,
    num_slaves: u16,
}

impl View for RamAccessUnit {
    type V = RamAccessModel;

    closed spec fn view(&self) -> RamAccessModel {
        RamAccessModel {
            state: self.state,
            slave_address: self.slave_address,
            command: self.command,
            buffer: self.buffer@,
            buf_size: self.buf_size,
            ado: self.ado,
            num_slaves: self.num_slaves,
        }
    }
}

/// The command of an access to `ado`: to one slave, or broadcast.
pub open spec fn access_command(slave_address: Option<SlaveAddress>, ado: u16, write: bool) -> Command {
    match slave_address {
        Some(a) => if write {
            write_command_spec(TargetSlave::Single(a), ado)
        } else {
            read_command_spec(TargetSlave::Single(a), ado)
        },
        None => Command {
            c_type: if write {
                CommandType::BWR
            } else {
                CommandType::BRD
            },
            adp: 0,
            ado,
        },
    }
}

/// The unit after a step with the reply `(command, data, wkc)` to its
/// datagram, or with none. A lost reply, a reply to another command type
/// or register, or another working counter than one (or, by broadcast, than
/// the number of slaves) is an error; a read takes the reply's data, a write
/// is done.
pub open spec fn ram_receive(m: RamAccessModel, recv: Option<(Command, Seq<u8>, u16)>) -> RamAccessModel {
    match recv {
        None => RamAccessModel { state: State::Error(EcError::LostPacket), ..m },
        Some((c, data, wkc)) => {
            let st0 = if !(c.c_type == m.command.c_type && c.ado == m.command.ado) {
                State::Error(EcError::UnexpectedCommand)
            } else {
                m.state
            };
            let st = if m.slave_address is Some && wkc != 1 {
                State::Error(EcError::UnexpectedWkc(wkc))
            } else if m.slave_address is None && wkc != m.num_slaves {
                State::Error(EcError::UnexpectedWkc(wkc))
            } else {
                st0
            };
            match st {
                State::Read => RamAccessModel {
                    buffer: copy_prefix(m.buffer, data),
                    state: State::Complete,
                    ..m
                },
                State::Write => RamAccessModel { buf_size: 0, state: State::Complete, ..m },
                _ => RamAccessModel { state: st, ..m },
            }
        },
    }
}

impl RamAccessUnit {
    /// The bytes in use lie within the buffer.
    #[verifier::type_invariant]
    spec fn size_in_buffer(&self) -> bool {
        self.buf_size <= RAM_ACCESS_SIZE
    }

    pub fn new() -> (r: Self)
        ensures
            r@ == (RamAccessModel {
                state: State::Idle,
                slave_address: None,
                command: Command { c_type: CommandType::APRD, adp: 0, ado: 0 },
                buffer: Seq::new(16, |i: int| 0u8),
                buf_size: 0,
                ado: 0,
                num_slaves: 0,
            }),
    {
        let r = RamAccessUnit {
            state: State::Idle,
            slave_address: None,
            command: Command::default(),
            buffer: [0u8; 16],
            buf_size: 0,
            ado: 0,
            num_slaves: 0,
        };
        assert(r.buffer@ =~= Seq::new(16, |i: int| 0u8));
        r
    }

    /// Starts reading `buf_size` bytes at `ado` of the slave at
    /// `slave_address`, or of all `num_slaves` slaves where there is none.
    pub fn start_to_read(&mut self, slave_address: Option<SlaveAddress>, ado: u16, buf_size: usize, num_slaves: u16)
        requires
            buf_size <= RAM_ACCESS_SIZE,
        ensures
            final(self)@ == (RamAccessModel {
                state: State::Read,
                slave_address,
                command: Command { c_type: CommandType::APRD, adp: 0, ado: 0 },
                buffer: Seq::new(16, |i: int| 0u8),
                buf_size,
                ado,
                num_slaves,
            }),
    {
        proof {
            use_type_invariant(&*self);
        }
        self.slave_address = slave_address;
        self.state = State::Read;
        self.buffer = [0u8; 16];
        self.command = Command::default();
        self.buf_size = buf_size;
        self.ado = ado;
        self.num_slaves = num_slaves;
        assert(self.buffer@ =~= Seq::new(16, |i: int| 0u8));
    }

    /// Starts writing `data` at `ado` of the slave at `slave_address`, or of
    /// all `num_slaves` slaves where there is none.
    pub fn start_to_write(&mut self, slave_address: Option<SlaveAddress>, ado: u16, data: &[u8], num_slaves: u16)
        requires
            data@.len() <= RAM_ACCESS_SIZE,
        ensures
            final(self)@ == (RamAccessModel {
                state: State::Write,
                slave_address,
                command: Command { c_type: CommandType::APRD, adp: 0, ado: 0 },
                buffer: put_bytes(old(self)@.buffer, 0, data@),
                buf_size: data@.len() as usize,
                ado,
                num_slaves,
                ..old(self)@
            }),
    {
        proof {
            use_type_invariant(&*self);
        }
        let size = data.len();
        self.slave_address = slave_address;
        self.state = State::Write;
        let ghost before = self.buffer@;
        let mut i: usize = 0;
        while i < size
            invariant
                i <= size,
                size == data@.len(),
                size <= 16,
                self.buffer@.len() == 16,
                forall|k: int| 0 <= k < i ==> self.buffer@[k] == data@[k],
                forall|k: int| i <= k < 16 ==> self.buffer@[k] == before[k],
                before.len() == 16,
                self.state == State::Write,
                self.slave_address == slave_address,
                self.command == old(self).command,
                self.buf_size == old(self).buf_size,
                self.buf_size <= RAM_ACCESS_SIZE,
                self.ado == old(self).ado,
                self.num_slaves == old(self).num_slaves,
            decreases size - i,
        {
            self.buffer[i] = data[i];
            i = i + 1;
        }
        assert(self.buffer@ =~= put_bytes(before, 0, data@));
        self.command = Command::default();
        self.buf_size = size;
        self.ado = ado;
        self.num_slaves = num_slaves;
    }

    /// The data read (nothing for a write) once done; the error once
    /// failed; nothing while it runs.
    pub fn wait(&mut self) -> (r: Option<Result<&[u8], EcError<()>>>)
        ensures
            *final(self) == *old(self),
            old(self)@.state == State::Complete ==> (r matches Some(Ok(d)) && d@ == old(self)@.buffer.subrange(
                0,
                old(self)@.buf_size as int,
            )),
            old(self)@.state matches State::Error(e) ==> r == Some(Err::<&[u8], EcError<()>>(e)),
            !(old(self)@.state is Complete || old(self)@.state is Error) ==> r is None,
    {
        proof {
            use_type_invariant(&*self);
        }
        match self.state {
            State::Complete => Some(Ok(slice_subrange(self.buffer.as_slice(), 0, self.buf_size))),
            State::Error(err) => Some(Err(err)),
            _ => None,
        }
    }
}

impl Cyclic for RamAccessUnit {
    open spec fn required_len(&self) -> nat {
        RAM_ACCESS_SIZE as nat
    }

    open spec fn reply_len(&self) -> nat {
        0
    }

    fn is_finished(&self) -> (r: bool)
        ensures
            r == (self@.state is Complete || self@.state is Error),
    {
        match self.state {
            State::Complete | State::Error(_) => true,
            _ => false,
        }
    }

    /// Reads or writes the bytes of the buffer in use, which go into `buf`.
    fn next_command(&mut self, buf: &mut Vec<u8>) -> (r: Option<(Command, usize)>)
        ensures
            (old(self)@.state is Read || old(self)@.state is Write) ==> {
                let c = access_command(old(self)@.slave_address, old(self)@.ado, old(self)@.state is Write);
                &&& r == Some((c, old(self)@.buf_size))
                &&& final(self)@ == (RamAccessModel { command: c, ..old(self)@ })
                &&& final(buf)@ == put_bytes(
                    old(buf)@,
                    0,
                    old(self)@.buffer.subrange(0, old(self)@.buf_size as int),
                )
            },
            !(old(self)@.state is Read || old(self)@.state is Write) ==> r is None && final(self)@ == old(self)@
                && final(buf)@ == old(buf)@,
    {
        proof {
            use_type_invariant(&*self);
        }
        match self.state {
            State::Read => {
                self.command = match self.slave_address {
                    Some(slave_address) => Command::new_read(TargetSlave::from_address(slave_address), self.ado),
                    None => Command::new(CommandType::BRD, 0, self.ado),
                };
                copy_into(buf, 0, slice_subrange(self.buffer.as_slice(), 0, self.buf_size));
                Some((self.command, self.buf_size))
            },
            State::Write => {
                self.command = match self.slave_address {
                    Some(slave_address) => Command::new_write(TargetSlave::from_address(slave_address), self.ado),
                    None => Command::new(CommandType::BWR, 0, self.ado),
                };
                copy_into(buf, 0, slice_subrange(self.buffer.as_slice(), 0, self.buf_size));
                Some((self.command, self.buf_size))
            },
            _ => None,
        }
    }

    /// Steps the unit with the reply to its datagram.
    fn recieve_and_process(&mut self, recv_data: Option<&CommandData>, _sys_time: EtherCatSystemTime)
        ensures
            final(self)@ == ram_receive(
                old(self)@,
                match recv_data {
                    Some(d) => Some((d.command, d.data@, d.wkc)),
                    None => None,
                },
            ),
    {
        proof {
            use_type_invariant(&*self);
        }
        let data = match recv_data {
            Some(recv_data) => {
                let wkc = recv_data.wkc;
                if !(recv_data.command.c_type == self.command.c_type && recv_data.command.ado == self.command.ado) {
                    self.state = State::Error(EcError::UnexpectedCommand);
                }
                if self.slave_address.is_some() && wkc != 1 {
                    self.state = State::Error(EcError::UnexpectedWkc(wkc));
                } else if self.slave_address.is_none() && wkc != self.num_slaves {
                    self.state = State::Error(EcError::UnexpectedWkc(wkc));
                }
                recv_data.data
            },
            None => {
                self.state = State::Error(EcError::LostPacket);
                return ;
            },
        };
        match self.state {
            State::Read => {
                let n = if data.len() < 16 {
                    data.len()
                } else {
                    16
                };
                let ghost before = self.buffer@;
                let mut i: usize = 0;
                while i < n
                    invariant
                        i <= n,
                        n <= 16,
                        n == if data@.len() < 16 {
                            data@.len()
                        } else {
                            16
                        },
                        self.buffer@.len() == 16,
                        before.len() == 16,
                        forall|k: int| 0 <= k < i ==> self.buffer@[k] == data@[k],
                        forall|k: int| i <= k < 16 ==> self.buffer@[k] == before[k],
                        self.state == State::Read,
                        self.slave_address == old(self).slave_address,
                        self.command == old(self).command,
                        self.buf_size == old(self).buf_size,
                        self.buf_size <= RAM_ACCESS_SIZE,
                        self.ado == old(self).ado,
                        self.num_slaves == old(self).num_slaves,
                    decreases n - i,
                {
                    self.buffer[i] = data[i];
                    i = i + 1;
                }
                assert(self.buffer@ =~= copy_prefix(before, data@));
                self.state = State::Complete;
            },
            State::Write => {
                self.buf_size = 0;
                self.state = State::Complete;
            },
            _ => {},
        }
    }
}

} // verus!
