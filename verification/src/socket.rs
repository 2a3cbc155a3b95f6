//! Command sockets: each holds one datagram's worth of data for a cyclic
//! task, goes from set to sent to received to processed, and is kept in a
//! table of slots whose free slots form a list.
use crate::bytes::{clear_range, copy_into, fits_buffer, put_bytes, zero_range};
use crate::command::{Command, CommandInterfaceError};
use crate::bytes::{le16, read_le16};
use crate::ec_frame::{pdu_chain_nz, EtherCatPdus};
use crate::frame::{
    command_type_spec, pdu_adp, pdu_ado, pdu_command_type, pdu_index, pdu_length, pdu_length_at,
    pdu_size, command_type_code, CommandType, PDU_HEADER_SIZE, WKC_LENGTH,
};
use crate::interface::{queue_push_spec, CommandInterface};
use vstd::prelude::*;
use vstd::slice::slice_subrange;

verus! {

/// EtherCAT system time: nanoseconds since January 1, 2000.
#[derive(Debug, Clone, Copy, PartialEq, Eq, Structural)]
pub struct EtherCatSystemTime(pub u64);

/// A datagram as a socket hands it out or takes it back.
#[derive(Debug)]
pub struct CommandData<'a> {
    pub command: Command,
    pub data: &'a [u8],
    pub wkc: u16,
}

impl<'a> CommandData<'a> {
    pub fn new(command: Command, data: &'a [u8]) -> (r: Self)
        ensures
            r.command == command,
            r.data@ == data@,
            r.wkc == 0,
    {
        CommandData { command, data, wkc: 0 }
    }
}

/// Where a socket is in its round trip.
#[derive(Debug, Clone, Copy, PartialEq, Eq, Structural)]
pub enum SocketState {
    /// Waiting for its task to set a command.
    Setting,
    /// Holding a command to send.
    Send,
    /// Its command was handed out; waiting for the reply.
    Receive,
    /// The reply (or its loss) is there for the task.
    Process,
}

/// Whether a socket's reply is there yet.
#[derive(Debug)]
pub enum Poll<T> {
    Ready(T),
    Pending,
}

/// What a socket holds.
pub struct SocketModel {
    pub state: SocketState,
    pub command: Option<Command>,
    pub data: Seq<u8>,
    pub wkc: u16,
    pub data_length: nat,
}

/// One datagram's round trip: the command, its data buffer, the length in
/// use, and the working counter of the reply.
#[derive(Debug)]
pub struct CommandSocket {
    state: SocketState,
    command: Option<Command>,
    data_buf: Vec<u8>,
    wkc: u16,
    data_length: usize,
}

/// `d` with the first bytes replaced by those of `r`, as many as both have.
pub open spec fn copy_prefix(d: Seq<u8>, r: Seq<u8>) -> Seq<u8> {
    let n = if d.len() < r.len() {
        d.len()
    } else {
        r.len()
    };
    put_bytes(d, 0, r.subrange(0, n as int))
}

impl View for CommandSocket {
    type V = SocketModel;

    closed spec fn view(&self) -> SocketModel {
        SocketModel {
            state: self.state,
            command: self.command,
            data: self.data_buf@,
            wkc: self.wkc,
            data_length: self.data_length as nat,
        }
    }
}

impl CommandSocket {
    /// The length in use lies within the buffer.
    pub closed spec fn wf(&self) -> bool {
        self.data_length <= self.data_buf@.len()
    }

    /// A well-formed socket's length in use lies within its buffer.
    pub proof fn lemma_wf_length(&self)
        requires
            self.wf(),
        ensures
            self@.data_length <= self@.data.len(),
    {
    }

    pub fn new(buf: Vec<u8>) -> (r: Self)
        ensures
            r.wf(),
            r@ == (SocketModel { state: SocketState::Setting, command: None, data: buf@, wkc: 0, data_length: 0 }),
    {
        CommandSocket { state: SocketState::Setting, command: None, data_buf: buf, wkc: 0, data_length: 0 }
    }

    pub fn data_buf(&self) -> (r: &[u8])
        ensures
            r@ == self@.data,
    {
        self.data_buf.as_slice()
    }

    /// The data buffer, to be written in place.
    pub fn data_buf_mut(&mut self) -> (r: &mut Vec<u8>)
        ensures
            r@ == old(self)@.data,
            final(self)@ == (SocketModel { data: final(r)@, ..old(self)@ }),
            final(self).wf() == (old(self)@.data_length <= final(r)@.len()),
    {
        &mut self.data_buf
    }

    pub fn capacity(&self) -> (r: usize)
        ensures
            r == self@.data.len(),
    {
        self.data_buf.len()
    }

    /// Zeroes the buffer and goes back to waiting for a command.
    pub fn clear(&mut self)
        ensures
            final(self).wf(),
            final(self)@ == (SocketModel {
                state: SocketState::Setting,
                command: None,
                data: zero_range(old(self)@.data, 0, old(self)@.data.len() as int),
                wkc: 0,
                data_length: 0,
            }),
    {
        let n = self.data_buf.len();
        clear_range(&mut self.data_buf, 0, n);
        self.command = None;
        self.wkc = 0;
        self.data_length = 0;
        self.state = SocketState::Setting;
    }

    pub fn is_ready_to_set(&self) -> (r: bool)
        ensures
            r == (self@.state == SocketState::Setting),
    {
        self.state == SocketState::Setting
    }

    /// Takes what the task wants sent: a command and the length of its data
    /// (already in the buffer), or nothing.
    pub fn set_command(&mut self, next: Option<(Command, usize)>)
        requires
            old(self).wf(),
            next matches Some((_, l)) ==> l <= old(self)@.data.len(),
        ensures
            final(self).wf(),
            final(self)@.data == old(self)@.data,
            final(self)@.wkc == 0,
            next matches Some((c, l)) ==> final(self)@.command == Some(c) && final(self)@.data_length == l
                && final(self)@.state == SocketState::Send,
            next is None ==> final(self)@.command is None && final(self)@.data_length == 0
                && final(self)@.state == SocketState::Setting,
    {
        match next {
            Some((command, length)) => {
                self.command = Some(command);
                self.data_length = length;
                self.wkc = 0;
                self.state = SocketState::Send;
            },
            None => {
                self.command = None;
                self.data_length = 0;
                self.wkc = 0;
                self.state = SocketState::Setting;
            },
        }
    }

    /// The reply once it is there: the command and data with the reply's
    /// working counter, or nothing where the reply was lost.
    pub fn get_recieved_command(&self) -> (r: Poll<Option<CommandData>>)
        requires
            self.wf(),
        ensures
            self@.state != SocketState::Process ==> r is Pending,
            self@.state == SocketState::Process && self@.command is None ==> r matches Poll::Ready(None),
            self@.state == SocketState::Process && self@.command is Some ==> (r matches Poll::Ready(Some(d))
                && Some(d.command) == self@.command && d.wkc == self@.wkc && d.data@ == self@.data.subrange(
                0,
                self@.data_length as int,
            )),
    {
        if self.state == SocketState::Process {
            match self.command {
                Some(command) => Poll::Ready(
                    Some(
                        CommandData {
                            command,
                            data: slice_subrange(self.data_buf.as_slice(), 0, self.data_length),
                            wkc: self.wkc,
                        },
                    ),
                ),
                None => Poll::Ready(None),
            }
        } else {
            Poll::Pending
        }
    }

    /// Whether a reply with command `c` suits this socket: it waits for no
    /// reply, or for the reply to `c`.
    pub fn accepts_reply(&self, c: Command) -> (r: bool)
        ensures
            r == (self@.state == SocketState::Receive ==> self@.command == Some(c)),
    {
        if self.state == SocketState::Receive {
            match self.command {
                Some(command) => command == c,
                None => false,
            }
        } else {
            true
        }
    }

    /// Whether a command waits to be handed out.
    fn has_command_to_send(&self) -> (r: bool)
        ensures
            r == (self@.state == SocketState::Send && self@.command is Some),
    {
        self.state == SocketState::Send && self.command.is_some()
    }

    /// Hands out the command to send, with the length of its data, and
    /// waits for the reply.
    pub(crate) fn take_command(&mut self) -> (r: Option<(Command, usize)>)
        requires
            old(self).wf(),
        ensures
            final(self).wf(),
            old(self)@.state == SocketState::Send && old(self)@.command is Some ==> r == Some(
                (old(self)@.command->0, old(self)@.data_length as usize),
            ) && final(self)@ == (SocketModel { state: SocketState::Receive, ..old(self)@ }),
            !(old(self)@.state == SocketState::Send && old(self)@.command is Some) ==> r is None
                && final(self)@ == old(self)@,
    {
        if self.state == SocketState::Send {
            match self.command {
                Some(command) => {
                    self.state = SocketState::Receive;
                    Some((command, self.data_length))
                },
                None => None,
            }
        } else {
            None
        }
    }

    /// Takes the reply to the command handed out: its data is copied in
    /// (as much as the buffer holds) with its working counter, or, where no
    /// reply came, the command is dropped.
    pub(crate) fn recieve(&mut self, recv_data: Option<CommandData>)
        requires
            old(self).wf(),
            old(self)@.state == SocketState::Receive && recv_data is Some ==> old(self)@.command == Some(
                recv_data->0.command,
            ),
        ensures
            final(self).wf(),
            old(self)@.state != SocketState::Receive ==> final(self)@ == old(self)@,
            old(self)@.state == SocketState::Receive ==> final(self)@.state == SocketState::Process
                && final(self)@.data_length == old(self)@.data_length,
            old(self)@.state == SocketState::Receive && recv_data is Some ==> final(self)@.command
                == old(self)@.command && final(self)@.wkc == recv_data->0.wkc && final(self)@.data
                == copy_prefix(old(self)@.data, recv_data->0.data@),
            old(self)@.state == SocketState::Receive && recv_data is None ==> final(self)@.command is None
                && final(self)@.wkc == old(self)@.wkc && final(self)@.data == old(self)@.data,
    {
        if self.state != SocketState::Receive {
            return ;
        }
        match recv_data {
            Some(recv) => {
                let n = if self.data_buf.len() < recv.data.len() {
                    self.data_buf.len()
                } else {
                    recv.data.len()
                };
                copy_into(&mut self.data_buf, 0, slice_subrange(recv.data, 0, n));
                self.wkc = recv.wkc;
            },
            None => {
                self.command = None;
            },
        }
        self.state = SocketState::Process;
    }
}

/// A task driven one datagram per cycle through a socket.
pub trait Cyclic {
    /// Bytes of the socket's buffer that the task needs.
    spec fn required_len(&self) -> nat;

    /// Bytes of data that the task reads from the reply it waits for.
    spec fn reply_len(&self) -> nat;

    /// Writes the data of the next datagram into `buf` and says which
    /// command to send with how many of its bytes, or that there is none.
    fn next_command(&mut self, buf: &mut Vec<u8>) -> (r: Option<(Command, usize)>)
        requires
            old(buf)@.len() >= old(self).required_len(),
        ensures
            final(buf)@.len() == old(buf)@.len(),
            r matches Some((_, l)) ==> l <= old(buf)@.len() && final(self).reply_len() <= l,
            final(self).required_len() == old(self).required_len(),
    ;

    /// Takes the reply to the last datagram, or `None` where it was lost.
    fn recieve_and_process(&mut self, recv_data: Option<&CommandData>, sys_time: EtherCatSystemTime)
        requires
            recv_data matches Some(d) ==> d.data@.len() >= old(self).reply_len(),
        ensures
            final(self).required_len() == old(self).required_len(),
    ;

    fn is_finished(&self) -> bool;

    /// One cycle on `socket`: a reply that is there goes to the task, then
    /// the task sets the next command.
    fn process_one_step(&mut self, socket: &mut CommandSocket, sys_time: EtherCatSystemTime)
        requires
            old(socket).wf(),
            old(socket)@.data.len() >= old(self).required_len(),
            old(socket)@.state == SocketState::Process && old(socket)@.command is Some ==> old(socket)@.data_length
                >= old(self).reply_len(),
        ensures
            final(socket).wf(),
            final(socket)@.data.len() == old(socket)@.data.len(),
            final(socket)@.wkc == 0,
            final(socket)@.state == SocketState::Send || final(socket)@.state == SocketState::Setting,
            final(socket)@.state == SocketState::Send ==> final(socket)@.data_length >= final(self).reply_len(),
            final(self).required_len() == old(self).required_len(),
    {
        match socket.get_recieved_command() {
            Poll::Ready(Some(recv_data)) => {
                self.recieve_and_process(Some(&recv_data), sys_time);
            },
            Poll::Ready(None) => {
                self.recieve_and_process(None, sys_time);
            },
            Poll::Pending => {},
        }
        let next = self.next_command(&mut socket.data_buf);
        socket.set_command(next);
    }
}

/// Names a socket's slot.
#[derive(Debug, Clone, Copy)]
pub struct SocketHandle(usize);

impl View for SocketHandle {
    type V = usize;

    closed spec fn view(&self) -> usize {
        self.0
    }
}

impl From<SocketHandle> for usize {
    fn from(handle: SocketHandle) -> (r: usize) {
        handle.0
    }
}

impl From<usize> for SocketHandle {
    fn from(index: usize) -> (r: SocketHandle) {
        SocketHandle(index)
    }
}

impl vstd::std_specs::convert::FromSpecImpl<usize> for SocketHandle {
    open spec fn obeys_from_spec() -> bool {
        true
    }

    open spec fn from_spec(index: usize) -> SocketHandle {
        handle_at(index)
    }
}

/// The handle that names slot `index`.
pub closed spec fn handle_at(index: usize) -> SocketHandle {
    SocketHandle(index)
}

/// The handle made from an index names that index.
pub proof fn lemma_handle_at(index: usize)
    ensures
        handle_at(index)@ == index,
{
}

impl Default for SocketHandle {
    fn default() -> (r: Self)
        ensures
            r@ == 0,
    {
        SocketHandle(0)
    }
}

impl vstd::std_specs::convert::FromSpecImpl<SocketHandle> for usize {
    open spec fn obeys_from_spec() -> bool {
        true
    }

    open spec fn from_spec(handle: SocketHandle) -> usize {
        handle@
    }
}

/// A slot of the socket table: free, with the next free slot, or holding a
/// socket.
#[derive(Debug)]
pub enum SocketOption<S> {
    NextFreeIndex(SocketHandle),
    Socket(S),
}

impl<S> SocketOption<S> {
    pub fn default() -> (r: Self)
        ensures
            r matches SocketOption::NextFreeIndex(h) && h@ == 0,
    {
        SocketOption::NextFreeIndex(SocketHandle(0))
    }
}

/// The free slot that a free slot links to, as an integer; -1 for a slot
/// that holds a socket.
pub open spec fn next_free_of<S>(o: SocketOption<S>) -> int {
    match o {
        SocketOption::NextFreeIndex(h) => h@ as int,
        SocketOption::Socket(_) => -1,
    }
}

/// The free slots form the list `l` from `free`: each links to the next,
/// the last links past the table, and no slot outside the list is free.
pub open spec fn free_list_ok<S>(slots: Seq<SocketOption<S>>, free: int, l: Seq<int>) -> bool {
    &&& l.no_duplicates()
    &&& forall|k: int|
        0 <= k < l.len() ==> {
            let i = #[trigger] l[k];
            &&& 0 <= i < slots.len()
            &&& slots[i] is NextFreeIndex
            &&& k + 1 < l.len() ==> next_free_of(slots[i]) == l[k + 1]
            &&& k + 1 == l.len() ==> next_free_of(slots[i]) >= slots.len()
        }
    &&& forall|i: int| 0 <= i < slots.len() && #[trigger] slots[i] is NextFreeIndex ==> l.contains(i)
    &&& l.len() == 0 ==> free >= slots.len()
    &&& l.len() > 0 ==> free == l[0]
}

/// Outcome of adding a socket: the slots, the free slot and the handle (or
/// the socket given back where no slot is free).
pub open spec fn add_socket_spec<S>(slots: Seq<SocketOption<S>>, free: int, socket: S) -> (Seq<SocketOption<S>>, int, Result<int, S>) {
    if 0 <= free < slots.len() {
        (slots.update(free, SocketOption::Socket(socket)), next_free_of(slots[free]), Ok(free))
    } else {
        (slots, free, Err(socket))
    }
}

/// Outcome of removing the socket at `h`: the slots, the free slot and the
/// socket (nothing where the slot holds none).
pub open spec fn remove_socket_spec(
    slots: Seq<SocketOption<CommandSocket>>,
    free: int,
    h: SocketHandle,
    free_handle: SocketHandle,
) -> (Seq<SocketOption<CommandSocket>>, int, Option<CommandSocket>) {
    if h@ < slots.len() && slots[h@ as int] is Socket {
        (slots.update(h@ as int, SocketOption::NextFreeIndex(free_handle)), h@ as int, Some(slots[h@ as int]->Socket_0))
    } else {
        (slots, free, None)
    }
}

/// The sockets of the tasks over one command queue.
pub struct SocketsInterface {
    iface: CommandInterface,
    sockets: Vec<SocketOption<CommandSocket>>,
    free_index: SocketHandle,
    free_list: Ghost<Seq<int>>,
}

impl SocketsInterface {
    pub closed spec fn iface_view(&self) -> CommandInterface {
        self.iface
    }

    pub closed spec fn slots(&self) -> Seq<SocketOption<CommandSocket>> {
        self.sockets@
    }

    pub closed spec fn free(&self) -> int {
        self.free_index@ as int
    }

    /// The free slots, in the order they are handed out.
    pub closed spec fn free_slots(&self) -> Seq<int> {
        self.free_list@
    }

    pub closed spec fn wf(&self) -> bool {
        &&& self.iface.wf()
        &&& forall|i: int|
            0 <= i < self.sockets@.len() && self.sockets@[i] is Socket ==> (#[trigger] self.sockets@[i])->Socket_0.wf()
        &&& free_list_ok(self.sockets@, self.free_index@ as int, self.free_list@)
    }

    /// Makes every slot free, each linking to the one after it.
    pub fn new(iface: CommandInterface, sockets: Vec<SocketOption<CommandSocket>>) -> (r: Self)
        requires
            iface.wf(),
        ensures
            r.wf(),
            r.iface_view() == iface,
            r.slots().len() == sockets@.len(),
            forall|i: int| 0 <= i < sockets@.len() ==> next_free_of(#[trigger] r.slots()[i]) == i + 1,
            r.free() == 0,
            r.free_slots() == Seq::new(sockets@.len(), |i: int| i),
    {
        let mut sockets = sockets;
        let n = sockets.len();
        let mut i: usize = 0;
        while i < n
            invariant
                i <= n,
                sockets@.len() == n,
                forall|k: int| 0 <= k < i ==> next_free_of(#[trigger] sockets@[k]) == k + 1,
                forall|k: int| 0 <= k < i ==> #[trigger] sockets@[k] is NextFreeIndex,
            decreases n - i,
        {
            sockets.set(i, SocketOption::NextFreeIndex(SocketHandle(i + 1)));
            i = i + 1;
        }
        let ghost l = Seq::new(n as nat, |k: int| k);
        proof {
            assert forall|k: int| 0 <= k < n implies #[trigger] sockets@[k] is NextFreeIndex && l.contains(k) by {
                assert(l[k] == k);
            }
        }
        SocketsInterface { iface, sockets, free_index: SocketHandle(0), free_list: Ghost(l) }
    }

    /// Puts `socket` in the first free slot and gives its handle, or gives
    /// the socket back where no slot is free.
    pub fn add_socket(&mut self, socket: CommandSocket) -> (r: Result<SocketHandle, CommandSocket>)
        requires
            old(self).wf(),
            socket.wf(),
        ensures
            final(self).wf(),
            final(self).iface_view() == old(self).iface_view(),
            ({
                let (slots, free, res) = add_socket_spec(old(self).slots(), old(self).free(), socket);
                &&& final(self).slots() == slots
                &&& final(self).free() == free
                &&& match (r, res) {
                    (Ok(h), Ok(i)) => h@ == i,
                    (Err(s), Err(t)) => s == t,
                    _ => false,
                }
            }),
            r is Ok ==> final(self).free_slots() == old(self).free_slots().drop_first(),
            r is Err ==> final(self).free_slots() == old(self).free_slots(),
    {
        let index = self.free_index.clone();
        if index.0 < self.sockets.len() {
            let next = match &self.sockets[index.0] {
                SocketOption::NextFreeIndex(next) => next.clone(),
                SocketOption::Socket(_) => {
                    proof {
                        assert(self.free_list@.contains(index.0 as int));
                    }
                    return Err(socket);
                },
            };
            let ghost l = self.free_list@;
            let ghost s0 = self.sockets@;
            proof {
                assert(l[0] == index.0);
            }
            self.free_index = next;
            self.sockets.set(index.0, SocketOption::Socket(socket));
            self.free_list = Ghost(l.drop_first());
            proof {
                let s1 = self.sockets@;
                let l1 = l.drop_first();
                assert forall|k: int| 0 <= k < l1.len() implies {
                    let i = #[trigger] l1[k];
                    &&& 0 <= i < s1.len()
                    &&& s1[i] is NextFreeIndex
                    &&& k + 1 < l1.len() ==> next_free_of(s1[i]) == l1[k + 1]
                    &&& k + 1 == l1.len() ==> next_free_of(s1[i]) >= s1.len()
                } by {
                    assert(l1[k] == l[k + 1]);
                    assert(l[k + 1] != l[0]);
                }
                assert forall|i: int| 0 <= i < s1.len() && #[trigger] s1[i] is NextFreeIndex implies l1.contains(i) by {
                    assert(s0[i] is NextFreeIndex);
                    assert(l.contains(i));
                    let k = choose|k: int| 0 <= k < l.len() && l[k] == i;
                    assert(k != 0);
                    assert(l1[k - 1] == i);
                }
                assert forall|i: int|
                    0 <= i < s1.len() && s1[i] is Socket implies (#[trigger] s1[i])->Socket_0.wf() by {
                    if i != index.0 {
                        assert(s0[i] == s1[i]);
                    }
                }
            }
            Ok(index)
        } else {
            Err(socket)
        }
    }

    /// Takes the socket out of its slot, which becomes the first free one.
    pub fn remove_socket(&mut self, socket_handle: SocketHandle) -> (r: Option<CommandSocket>)
        requires
            old(self).wf(),
        ensures
            final(self).wf(),
            final(self).iface_view() == old(self).iface_view(),
            ({
                let h = socket_handle@;
                let slots = old(self).slots();
                &&& h < slots.len() && slots[h as int] is Socket ==> {
                    &&& r == Some(slots[h as int]->Socket_0)
                    &&& final(self).free() == h
                    &&& final(self).slots().len() == slots.len()
                    &&& final(self).slots()[h as int] is NextFreeIndex
                    &&& next_free_of(final(self).slots()[h as int]) == old(self).free()
                    &&& forall|i: int| 0 <= i < slots.len() && i != h ==> #[trigger] final(self).slots()[i] == slots[i]
                    &&& final(self).free_slots() == seq![h as int] + old(self).free_slots()
                }
                &&& !(h < slots.len() && slots[h as int] is Socket) ==> {
                    &&& r is None
                    &&& final(self).slots() == slots
                    &&& final(self).free() == old(self).free()
                    &&& final(self).free_slots() == old(self).free_slots()
                }
            }),
    {
        let h = socket_handle.0;
        if h < self.sockets.len() {
            let is_socket = match &self.sockets[h] {
                SocketOption::Socket(_) => true,
                SocketOption::NextFreeIndex(_) => false,
            };
            if !is_socket {
                return None;
            }
            let ghost l = self.free_list@;
            let ghost s0 = self.sockets@;
            let mut next = SocketOption::NextFreeIndex(self.free_index.clone());
            self.free_index = socket_handle;
            std::mem::swap(&mut self.sockets[h], &mut next);
            self.free_list = Ghost(seq![h as int] + l);
            proof {
                let s1 = self.sockets@;
                let l1 = seq![h as int] + l;
                assert(!l.contains(h as int));
                assert(l1.no_duplicates()) by {
                    assert forall|a: int, b: int| 0 <= a < l1.len() && 0 <= b < l1.len() && a != b implies l1[a]
                        != l1[b] by {
                        if a > 0 && b > 0 {
                            assert(l1[a] == l[a - 1]);
                            assert(l1[b] == l[b - 1]);
                        } else if a == 0 {
                            assert(l1[b] == l[b - 1]);
                        } else {
                            assert(l1[a] == l[a - 1]);
                        }
                    }
                }
                assert forall|k: int| 0 <= k < l1.len() implies {
                    let i = #[trigger] l1[k];
                    &&& 0 <= i < s1.len()
                    &&& s1[i] is NextFreeIndex
                    &&& k + 1 < l1.len() ==> next_free_of(s1[i]) == l1[k + 1]
                    &&& k + 1 == l1.len() ==> next_free_of(s1[i]) >= s1.len()
                } by {
                    if k > 0 {
                        assert(l1[k] == l[k - 1]);
                        assert(l[k - 1] != h);
                    }
                }
                assert forall|i: int| 0 <= i < s1.len() && #[trigger] s1[i] is NextFreeIndex implies l1.contains(i) by {
                    if i == h {
                        assert(l1[0] == i);
                    } else {
                        assert(s0[i] == s1[i]);
                        let k = choose|k: int| 0 <= k < l.len() && l[k] == i;
                        assert(l1[k + 1] == i);
                    }
                }
                assert forall|i: int|
                    0 <= i < s1.len() && s1[i] is Socket implies (#[trigger] s1[i])->Socket_0.wf() by {
                    assert(s0[i] == s1[i]);
                }
            }
            match next {
                SocketOption::Socket(socket) => Some(socket),
                SocketOption::NextFreeIndex(_) => None,
            }
        } else {
            None
        }
    }

    /// The socket in the slot named by the handle, for changing.
    pub fn get_socket_mut(&mut self, socket_handle: &SocketHandle) -> (r: Option<&mut CommandSocket>)
        requires
            old(self).wf(),
        ensures
            ({
                let h = socket_handle@;
                let slots = old(self).slots();
                &&& h < slots.len() && slots[h as int] is Socket ==> (r matches Some(s) && *s
                    == slots[h as int]->Socket_0 && final(self).slots() == slots.update(
                    h as int,
                    SocketOption::Socket(*final(s)),
                ) && final(self).free() == old(self).free() && final(self).free_slots()
                    == old(self).free_slots() && final(self).iface_view() == old(self).iface_view()
                    && (final(s).wf() ==> final(self).wf()))
                &&& !(h < slots.len() && slots[h as int] is Socket) ==> r is None && *final(self) == *old(self)
            }),
    {
        let h = socket_handle.0;
        if h < self.sockets.len() && matches!(self.sockets[h], SocketOption::Socket(_)) {
            let ghost l = self.free_list@;
            match &mut self.sockets[h] {
                SocketOption::Socket(socket) => {
                    Some(socket)
                },
                SocketOption::NextFreeIndex(_) => None,
            }
        } else {
            None
        }
    }
}

impl SocketsInterface {
    pub fn iface(&self) -> (r: &CommandInterface)
        ensures
            *r == self.iface_view(),
    {
        &self.iface
    }

    /// The command queue, for sending and receiving.
    pub fn iface_mut(&mut self) -> (r: &mut CommandInterface)
        requires
            old(self).wf(),
        ensures
            *r == old(self).iface_view(),
            final(self).iface_view() == *final(r),
            final(self).slots() == old(self).slots(),
            final(self).free() == old(self).free(),
            final(self).free_slots() == old(self).free_slots(),
            final(r).wf() ==> final(self).wf(),
    {
        &mut self.iface
    }

    /// Queues the command of each socket that has one to send, in slot
    /// order, under its slot's index. A socket whose command does not fit
    /// in what is left ends the round with `Ok(false)`; its command is handed
    /// out all the same and its reply will be missing. Where less than a
    /// datagram header is left, queuing fails.
    pub fn enqueue_commands(&mut self) -> (r: Result<bool, CommandInterfaceError>)
        requires
            old(self).wf(),
            old(self).iface_view().queue_ok(),
            old(self).iface_view().capacity_view() < old(self).iface_view().buffer_view().len(),
        ensures
            final(self).wf(),
            final(self).iface_view().queue_ok(),
            final(self).iface_view().capacity_view() == old(self).iface_view().capacity_view(),
            final(self).iface_view().pdu_count_view() == old(self).iface_view().pdu_count_view() + enqueue_count(
                old(self).slots(),
                0,
                old(self).iface_view().total(),
                old(self).iface_view().capacity_view(),
            ),
            final(self).iface_view().tx_count_view() == old(self).iface_view().tx_count_view(),
            final(self).free() == old(self).free(),
            final(self).free_slots() == old(self).free_slots(),
            final(self).slots().len() == old(self).slots().len(),
            ({
                let round = enqueue_round(
                    old(self).slots(),
                    0,
                    old(self).iface_view().buffer_view(),
                    old(self).iface_view().total(),
                    old(self).iface_view().capacity_view(),
                );
                &&& final(self).iface_view().buffer_view() == round.0
                &&& final(self).iface_view().total() == round.1
                &&& r == round.2
                &&& forall|k: int|
                    0 <= k < old(self).slots().len() ==> if k <= round.3 {
                        slot_taken(#[trigger] old(self).slots()[k], final(self).slots()[k])
                    } else {
                        final(self).slots()[k] == old(self).slots()[k]
                    }
            }),
    {
        let n = self.sockets.len();
        let mut i: usize = 0;
        let ghost s0 = self.sockets@;
        let ghost cap = self.iface.capacity_view();
        let ghost round = enqueue_round(s0, 0, self.iface.buffer_view(), self.iface.total(), cap);
        while i < n
            invariant
                i <= n,
                n == self.sockets@.len(),
                self.wf(),
                self.iface.queue_ok(),
                self.iface.capacity_view() == cap,
                cap == old(self).iface_view().capacity_view(),
                self.iface.pdu_count_view() + enqueue_count(s0, i as int, self.iface.total(), cap)
                    == old(self).iface_view().pdu_count_view() + enqueue_count(
                    s0,
                    0,
                    old(self).iface_view().total(),
                    cap,
                ),
                self.iface.tx_count_view() == old(self).iface_view().tx_count_view(),
                self.iface.capacity_view() < self.iface.buffer_view().len(),
                self.free_index == old(self).free_index,
                self.free_list == old(self).free_list,
                s0 == old(self).slots(),
                s0.len() == n,
                round == enqueue_round(s0, 0, old(self).iface_view().buffer_view(), old(self).iface_view().total(), cap),
                enqueue_round(s0, i as int, self.iface.buffer_view(), self.iface.total(), cap) == round,
                forall|k: int| 0 <= k < i ==> slot_taken(#[trigger] s0[k], self.sockets@[k]),
                forall|k: int| i <= k < n ==> #[trigger] self.sockets@[k] == s0[k],
            decreases n - i,
        {
            let ghost before = self.sockets@;
            let ghost buf = self.iface.buffer_view();
            let ghost total = self.iface.total();
            let taken = self.take_command_at(i);
            proof {
                assert(before[i as int] == s0[i as int]);
                assert forall|k: int| 0 <= k <= i implies slot_taken(#[trigger] s0[k], self.sockets@[k]) by {
                    if k != i {
                        assert(self.sockets@[k] == before[k]);
                    }
                }
                assert forall|k: int| i < k < n implies #[trigger] self.sockets@[k] == s0[k] by {
                    assert(self.sockets@[k] == before[k]);
                }
            }
            match taken {
                Some((command, len)) => {
                    let total_size = self.iface.pdus_total_size();
                    let capacity = self.iface.capacity();
                    proof {
                        self.iface.lemma_wf_bounds();
                    }
                    if total_size + PDU_HEADER_SIZE + WKC_LENGTH > capacity {
                        return Err(CommandInterfaceError::NotEnoughCapacityLeft);
                    }
                    if self.iface.remainig_pdu_data_capacity() < len {
                        return Ok(false);
                    }
                    self.queue_socket_data(i, command, len);
                },
                None => {},
            }
            i = i + 1;
        }
        Ok(true)
    }

    /// Hands out the command of the socket in slot `i`, if it has one to
    /// send.
    fn take_command_at(&mut self, i: usize) -> (r: Option<(Command, usize)>)
        requires
            old(self).wf(),
            i < old(self).slots().len(),
        ensures
            final(self).wf(),
            final(self).iface == old(self).iface,
            final(self).free_index == old(self).free_index,
            final(self).free_list == old(self).free_list,
            final(self).sockets@.len() == old(self).sockets@.len(),
            forall|k: int| 0 <= k < old(self).sockets@.len() && k != i ==> #[trigger] final(self).sockets@[k] == old(self).sockets@[k],
            slot_taken(old(self).sockets@[i as int], final(self).sockets@[i as int]),
            has_command_to_send(old(self).sockets@[i as int]) ==> final(self).sockets@[i as int]->Socket_0@.state
                == SocketState::Receive && (r matches Some((c, l)) && l == final(self).sockets@[i as int]->Socket_0@.data_length
                && l <= final(self).sockets@[i as int]->Socket_0@.data.len() && c
                == old(self).sockets@[i as int]->Socket_0@.command->0),
            !has_command_to_send(old(self).sockets@[i as int]) ==> r is None,
    {
        let ghost s0 = self.sockets@;
        let ghost l = self.free_list@;
        let ready = match &self.sockets[i] {
            SocketOption::Socket(socket) => socket.has_command_to_send(),
            SocketOption::NextFreeIndex(_) => false,
        };
        if !ready {
            return None;
        }
        let r = match &mut self.sockets[i] {
            SocketOption::Socket(socket) => socket.take_command(),
            SocketOption::NextFreeIndex(_) => None,
        };
        proof {
            let s1 = self.sockets@;
            assert(s1[i as int] is Socket == s0[i as int] is Socket);
            if s0[i as int] is NextFreeIndex {
                assert(s1[i as int] == s0[i as int]);
            }
            assert forall|k: int| 0 <= k < s1.len() && #[trigger] s1[k] is NextFreeIndex implies l.contains(k) by {
                assert(s0[k] is NextFreeIndex);
            }
            assert forall|k: int| 0 <= k < l.len() implies {
                let j = #[trigger] l[k];
                &&& 0 <= j < s1.len()
                &&& s1[j] is NextFreeIndex
                &&& k + 1 < l.len() ==> next_free_of(s1[j]) == l[k + 1]
                &&& k + 1 == l.len() ==> next_free_of(s1[j]) >= s1.len()
            } by {
                assert(s0[l[k]] is NextFreeIndex);
                if l[k] == i {
                    assert(s1[l[k]] == s0[l[k]]);
                }
            }
            assert forall|k: int|
                0 <= k < s1.len() && s1[k] is Socket implies (#[trigger] s1[k])->Socket_0.wf() by {
                if k != i {
                    assert(s0[k] == s1[k]);
                }
            }
        }
        r
    }

    /// Queues `command` with the first `len` bytes of the socket in slot
    /// `i` under the slot's index.
    fn queue_socket_data(&mut self, i: usize, command: Command, len: usize)
        requires
            old(self).wf(),
            old(self).iface.queue_ok(),
            old(self).iface.capacity_view() < old(self).iface.buffer_view().len(),
            i < old(self).sockets@.len(),
            old(self).sockets@[i as int] is Socket,
            len <= old(self).sockets@[i as int]->Socket_0@.data.len(),
            old(self).iface.total() + PDU_HEADER_SIZE + WKC_LENGTH + len <= old(self).iface.capacity_view(),
        ensures
            final(self).wf(),
            final(self).iface.queue_ok(),
            final(self).sockets == old(self).sockets,
            final(self).free_index == old(self).free_index,
            final(self).free_list == old(self).free_list,
            final(self).iface.capacity_view() == old(self).iface.capacity_view(),
            final(self).iface.buffer_view().len() == old(self).iface.buffer_view().len(),
            final(self).iface.total() == old(self).iface.total() + PDU_HEADER_SIZE + len + WKC_LENGTH,
            final(self).iface.pdu_count_view() == old(self).iface.pdu_count_view() + 1,
            final(self).iface.tx_count_view() == old(self).iface.tx_count_view(),
            final(self).iface.buffer_view() == queue_push_spec(
                old(self).iface.buffer_view(),
                old(self).iface.total(),
                command_type_code(command.c_type),
                i as u8 as int,
                command.adp as int,
                command.ado as int,
                old(self).sockets@[i as int]->Socket_0@.data.subrange(0, len as int),
            ),
    {
        proof {
            self.iface.lemma_wf_bounds();
        }
        let empty: [u8; 0] = [];
        let data = match &self.sockets[i] {
            SocketOption::Socket(socket) => slice_subrange(socket.data_buf(), 0, len),
            SocketOption::NextFreeIndex(_) => empty.as_slice(),
        };
        let _ = self.iface.add_command(i as u8, command, data);
    }
}

/// The command of the datagram at `o`, as a reply carries it.
pub open spec fn reply_command(s: Seq<u8>, o: int) -> Command {
    Command {
        c_type: command_type_spec(pdu_command_type(s, o)),
        adp: pdu_adp(s, o) as u16,
        ado: pdu_ado(s, o) as u16,
    }
}

/// The payload of the datagram at `o`.
pub open spec fn reply_payload(s: Seq<u8>, o: int) -> Seq<u8> {
    s.subrange(o + PDU_HEADER_SIZE, o + PDU_HEADER_SIZE + pdu_length(s, o))
}

/// The working counter of the datagram at `o`.
pub open spec fn reply_wkc(s: Seq<u8>, o: int) -> u16 {
    le16(s, o + PDU_HEADER_SIZE + pdu_length(s, o)) as u16
}

/// A reply with command `c` suits the slot: it holds no socket waiting for
/// a reply, or one waiting for the reply to `c`.
pub open spec fn reply_fits_socket(o: SocketOption<CommandSocket>, c: Command) -> bool {
    match o {
        SocketOption::Socket(a) => a@.state == SocketState::Receive ==> a@.command == Some(c),
        SocketOption::NextFreeIndex(_) => true,
    }
}

/// The first datagram of `chain`, from the `k`th on, that carries index `i`
/// or a greater one; the length of `chain` where there is none.
pub open spec fn first_reaching(s: Seq<u8>, chain: Seq<int>, i: int, k: int) -> int
    decreases chain.len() - k,
{
    if k >= chain.len() {
        chain.len() as int
    } else if pdu_index(s, chain[k]) >= i {
        k
    } else {
        first_reaching(s, chain, i, k + 1)
    }
}

/// Socket `a` of slot `i` after the datagrams at the offsets `chain` of `s`
/// were handed out. A socket waiting for a reply settles on the first
/// datagram that carries its index or a greater one: it takes that
/// datagram's reply where the index is its own, and gets none otherwise
/// (as it does where no such datagram comes).
pub open spec fn socket_after_replies(a: SocketModel, s: Seq<u8>, chain: Seq<int>, i: int) -> SocketModel {
    if a.state != SocketState::Receive {
        a
    } else {
        let k = first_reaching(s, chain, i, 0);
        if k < chain.len() && pdu_index(s, chain[k]) == i {
            SocketModel {
                state: SocketState::Process,
                data: copy_prefix(a.data, reply_payload(s, chain[k])),
                wkc: reply_wkc(s, chain[k]),
                ..a
            }
        } else {
            SocketModel { state: SocketState::Process, command: None, ..a }
        }
    }
}

/// Slot `i` after the datagrams were handed out: a free slot is as it was,
/// and a socket is `socket_after_replies` of what it was.
pub open spec fn slot_after_replies(
    o: SocketOption<CommandSocket>,
    f: SocketOption<CommandSocket>,
    s: Seq<u8>,
    chain: Seq<int>,
    i: int,
) -> bool {
    match o {
        SocketOption::NextFreeIndex(_) => f == o,
        SocketOption::Socket(a) => f matches SocketOption::Socket(b) && b.wf() && b@ == socket_after_replies(
            a@,
            s,
            chain,
            i,
        ),
    }
}

/// Slot `i` while the first `m` datagrams are handed out, with `last` one
/// past the index of the last of them: settled where one of them reaches
/// the slot, untouched otherwise.
spec fn slot_in_progress(
    o: SocketOption<CommandSocket>,
    f: SocketOption<CommandSocket>,
    s: Seq<u8>,
    chain: Seq<int>,
    i: int,
    m: int,
    last: int,
) -> bool {
    if first_reaching(s, chain, i, 0) < m {
        slot_after_replies(o, f, s, chain, i)
    } else {
        f == o && last <= i
    }
}

/// The search from `a` ends at or after `a`, on a datagram that reaches
/// index `i`, and passes over datagrams with smaller indices only.
pub(crate) proof fn lemma_first_reaching_bounds(s: Seq<u8>, chain: Seq<int>, i: int, a: int)
    requires
        0 <= a <= chain.len(),
    ensures
        a <= first_reaching(s, chain, i, a) <= chain.len(),
        first_reaching(s, chain, i, a) < chain.len() ==> pdu_index(
            s,
            chain[first_reaching(s, chain, i, a)],
        ) >= i,
        forall|j: int| a <= j < first_reaching(s, chain, i, a) ==> pdu_index(s, #[trigger] chain[j]) < i,
    decreases chain.len() - a,
{
    if a < chain.len() && pdu_index(s, chain[a]) < i {
        lemma_first_reaching_bounds(s, chain, i, a + 1);
    }
}

/// Datagrams with smaller indices than `i` do not change where the search
/// ends.
proof fn lemma_first_reaching_skip(s: Seq<u8>, chain: Seq<int>, i: int, a: int, b: int)
    requires
        0 <= a <= b <= chain.len(),
        forall|j: int| a <= j < b ==> pdu_index(s, #[trigger] chain[j]) < i,
    ensures
        first_reaching(s, chain, i, a) == first_reaching(s, chain, i, b),
    decreases b - a,
{
    if a < b {
        assert(pdu_index(s, chain[a]) < i);
        lemma_first_reaching_skip(s, chain, i, a + 1, b);
    }
}

/// A slot that none of the first `m` datagrams reached is reached by the
/// next one exactly when that one carries its index or a greater one.
proof fn lemma_first_reaching_step(s: Seq<u8>, chain: Seq<int>, i: int, m: int)
    requires
        0 <= m < chain.len(),
        first_reaching(s, chain, i, 0) >= m,
    ensures
        pdu_index(s, chain[m]) >= i ==> first_reaching(s, chain, i, 0) == m,
        pdu_index(s, chain[m]) < i ==> first_reaching(s, chain, i, 0) > m,
{
    lemma_first_reaching_bounds(s, chain, i, 0);
    assert forall|j: int| 0 <= j < m implies pdu_index(s, #[trigger] chain[j]) < i by {}
    lemma_first_reaching_skip(s, chain, i, 0, m);
}

impl SocketsInterface {
    /// Every reply in the queue that names a socket waiting for a reply
    /// carries that socket's command.
    pub open spec fn replies_match(&self) -> bool {
        let s = self.iface_view().buffer_view();
        let chain = pdu_chain_nz(s, 0, self.iface_view().total());
        forall|k: int|
            0 <= k < chain.len() ==> {
                let i = pdu_index(s, #[trigger] chain[k]);
                i < self.slots().len() ==> reply_fits_socket(self.slots()[i], reply_command(s, chain[k]))
            }
    }

    /// Checks `replies_match`.
    pub fn replies_match_exec(&self) -> (r: bool)
        requires
            self.wf(),
            self.iface_view().consumable(),
        ensures
            r == self.replies_match(),
    {
        let ghost s = self.iface.buffer_view();
        let ghost chain = pdu_chain_nz(s, 0, self.iface.total());
        let total = self.iface.pdus_total_size();
        proof {
            self.iface.lemma_consumable_fit();
            self.iface.lemma_wf_bounds();
            crate::ec_frame::lemma_chain_nz_elements(s, 0, self.iface.total());
        }
        let mut pdus = EtherCatPdus::new(self.iface.buffer(), total, 0);
        let ghost mut done: Seq<int> = Seq::empty();
        loop
            invariant
                pdus.wf(),
                pdus.buffer_view() == s,
                chain == done + pdus.remaining(),
                chain == pdu_chain_nz(s, 0, self.iface.total()),
                s == self.iface.buffer_view(),
                forall|k: int| 0 <= k < chain.len() ==> 0 <= #[trigger] chain[k] && chain[k] + pdu_size(s, chain[k]) <= s.len(),
                forall|k: int|
                    0 <= k < done.len() ==> {
                        let i = pdu_index(s, #[trigger] chain[k]);
                        i < self.slots().len() ==> reply_fits_socket(self.slots()[i], reply_command(s, chain[k]))
                    },
            decreases pdus.remaining().len(),
        {
            let ghost before = pdus.remaining();
            match pdus.next() {
                Some(p) => {
                    let ghost o = before[0];
                    proof {
                        assert(chain[done.len() as int] == o);
                        assert(p@ =~= s.subrange(o, o + pdu_size(s, o)));
                    }
                    let index = p[1] as usize;
                    if index < self.sockets.len() {
                        let command = Command::new(CommandType::new(p[0]), read_le16(p, 2), read_le16(p, 4));
                        proof {
                            assert(command == reply_command(s, o));
                        }
                        let fits = match &self.sockets[index] {
                            SocketOption::Socket(socket) => socket.accepts_reply(command),
                            SocketOption::NextFreeIndex(_) => true,
                        };
                        if !fits {
                            return false;
                        }
                    }
                    proof {
                        done = done.push(o);
                        assert(chain =~= done + pdus.remaining());
                    }
                },
                None => {
                    proof {
                        assert(chain =~= done);
                    }
                    return true;
                },
            }
        }
    }

    /// Hands each datagram in the queue to the socket of its index, in
    /// order; a waiting socket whose index is passed over (by a datagram
    /// with a greater index, or by the end of the queue) gets none. The
    /// queue is emptied.
    pub fn process(&mut self)
        requires
            old(self).wf(),
            old(self).iface_view().consumable(),
            old(self).replies_match(),
        ensures
            final(self).wf(),
            final(self).iface_view().queue_ok(),
            final(self).iface_view().total() == 0,
            final(self).iface_view().buffer_view() == old(self).iface_view().buffer_view(),
            final(self).iface_view().capacity_view() == old(self).iface_view().capacity_view(),
            final(self).free() == old(self).free(),
            final(self).free_slots() == old(self).free_slots(),
            final(self).slots().len() == old(self).slots().len(),
            forall|i: int|
                0 <= i < old(self).slots().len() ==> slot_after_replies(
                    #[trigger] old(self).slots()[i],
                    final(self).slots()[i],
                    old(self).iface_view().buffer_view(),
                    pdu_chain_nz(old(self).iface_view().buffer_view(), 0, old(self).iface_view().total()),
                    i,
                ),
    {
        let ghost s = self.iface.buffer_view();
        let ghost chain = pdu_chain_nz(s, 0, self.iface.total());
        let ghost s0 = self.sockets@;
        let ghost l = self.free_list@;
        let n = self.sockets.len();
        let total = self.iface.pdus_total_size();
        proof {
            self.iface.lemma_consumable_fit();
            self.iface.lemma_wf_bounds();
        }
        let ghost iface0 = self.iface;
        let mut pdus = EtherCatPdus::new(self.iface.buffer(), total, 0);
        let mut last_index: usize = 0;
        let ghost mut done_chain: Seq<int> = Seq::empty();
        proof {
            crate::ec_frame::lemma_chain_nz_elements(s, 0, old(self).iface_view().total());
            assert forall|k: int| 0 <= k < n implies slot_in_progress(#[trigger] s0[k], self.sockets@[k], s, chain, k, 0, 0) by {
                lemma_first_reaching_bounds(s, chain, k, 0);
            }
        }
        loop
            invariant
                pdus.wf(),
                pdus.buffer_view() == s,
                chain == done_chain + pdus.remaining(),
                self.iface == iface0,
                self.free_index == old(self).free_index,
                self.free_list == old(self).free_list,
                n == self.sockets@.len(),
                s0.len() == n,
                forall|k: int|
                    0 <= k < n ==> slot_in_progress(
                        #[trigger] s0[k],
                        self.sockets@[k],
                        s,
                        chain,
                        k,
                        done_chain.len() as int,
                        last_index as int,
                    ),
                forall|k: int| 0 <= k < n && #[trigger] s0[k] is Socket ==> s0[k]->Socket_0.wf(),
                forall|k: int| 0 <= k < chain.len() ==> 0 <= #[trigger] chain[k] && chain[k] + pdu_size(s, chain[k]) <= s.len(),
                forall|k: int|
                    0 <= k < chain.len() ==> {
                        let i = pdu_index(s, #[trigger] chain[k]);
                        i < n ==> reply_fits_socket(s0[i], reply_command(s, chain[k]))
                    },
            ensures
                done_chain == chain,
                n == self.sockets@.len(),
                self.iface == iface0,
                self.free_index == old(self).free_index,
                self.free_list == old(self).free_list,
                forall|k: int|
                    0 <= k < n ==> slot_in_progress(
                        #[trigger] s0[k],
                        self.sockets@[k],
                        s,
                        chain,
                        k,
                        chain.len() as int,
                        last_index as int,
                    ),
            decreases pdus.remaining().len(),
        {
            let ghost before = pdus.remaining();
            match pdus.next() {
                Some(p) => {
                    let ghost o = before[0];
                    let ghost m = done_chain.len() as int;
                    proof {
                        assert(chain[m] == o);
                        assert(p@ =~= s.subrange(o, o + pdu_size(s, o)));
                    }
                    let index = p[1] as usize;
                    let mut j = last_index;
                    while j < index
                        invariant
                            last_index <= j,
                            0 <= m < chain.len(),
                            chain[m] == o,
                            index == pdu_index(s, o),
                            n == self.sockets@.len(),
                            s0.len() == n,
                            self.iface == iface0,
                            self.free_index == old(self).free_index,
                            self.free_list == old(self).free_list,
                            forall|k: int| 0 <= k < n && #[trigger] s0[k] is Socket ==> s0[k]->Socket_0.wf(),
                            forall|k: int|
                                0 <= k < n ==> if last_index <= k < j {
                                    slot_after_replies(#[trigger] s0[k], self.sockets@[k], s, chain, k)
                                    && first_reaching(s, chain, k, 0) <= m
                                } else {
                                    slot_in_progress(s0[k], self.sockets@[k], s, chain, k, m, last_index as int)
                                },
                        decreases index - j,
                    {
                        if j < self.sockets.len() {
                            let ghost before_j = self.sockets@;
                            proof {
                                let k = j as int;
                                assert(slot_in_progress(s0[k], self.sockets@[k], s, chain, k, m, last_index as int));
                                if first_reaching(s, chain, k, 0) < m {
                                    assert(slot_after_replies(s0[k], self.sockets@[k], s, chain, k));
                                }
                            }
                            recieve_none_at(&mut self.sockets, j);
                            proof {
                                let k = j as int;
                                if first_reaching(s, chain, k, 0) >= m {
                                    lemma_first_reaching_step(s, chain, k, m);
                                }
                                assert(slot_after_replies(s0[k], self.sockets@[k], s, chain, k));
                                assert forall|i: int|
                                    0 <= i < n implies if last_index <= i < j + 1 {
                                        slot_after_replies(#[trigger] s0[i], self.sockets@[i], s, chain, i)
                                        && first_reaching(s, chain, i, 0) <= m
                                    } else {
                                        slot_in_progress(s0[i], self.sockets@[i], s, chain, i, m, last_index as int)
                                    } by {
                                    if i != k {
                                        assert(self.sockets@[i] == before_j[i]);
                                    }
                                }
                            }
                        }
                        j = j + 1;
                    }
                    if index < self.sockets.len() {
                        let len = pdu_length_at(p, 0) as usize;
                        let command = Command::new(CommandType::new(p[0]), read_le16(p, 2), read_le16(p, 4));
                        let wkc = read_le16(p, PDU_HEADER_SIZE + len);
                        let data = slice_subrange(p, PDU_HEADER_SIZE, PDU_HEADER_SIZE + len);
                        let ghost before_p = self.sockets@;
                        proof {
                            assert(data@ =~= reply_payload(s, o));
                            assert(command == reply_command(s, o));
                            let k = index as int;
                            if first_reaching(s, chain, k, 0) < m {
                                assert(slot_after_replies(s0[k], self.sockets@[k], s, chain, k));
                            }
                        }
                        recieve_reply_at(&mut self.sockets, index, CommandData { command, data, wkc });
                        proof {
                            let k = index as int;
                            if first_reaching(s, chain, k, 0) >= m {
                                lemma_first_reaching_step(s, chain, k, m);
                            }
                            assert(slot_after_replies(s0[k], self.sockets@[k], s, chain, k));
                            assert forall|i: int| 0 <= i < n && i != k implies self.sockets@[i] == before_p[i] by {}
                        }
                    }
                    proof {
                        assert forall|k: int| 0 <= k < n implies slot_in_progress(
                            #[trigger] s0[k],
                            self.sockets@[k],
                            s,
                            chain,
                            k,
                            m + 1,
                            index + 1,
                        ) by {
                            if first_reaching(s, chain, k, 0) >= m && !(last_index <= k <= index) {
                                lemma_first_reaching_step(s, chain, k, m);
                            }
                            if last_index <= k < index {
                            } else if k == index {
                                if first_reaching(s, chain, k, 0) >= m {
                                    lemma_first_reaching_step(s, chain, k, m);
                                }
                            }
                        }
                    }
                    last_index = index + 1;
                    proof {
                        done_chain = done_chain.push(o);
                        assert(chain =~= done_chain + pdus.remaining());
                    }
                },
                None => {
                    proof {
                        assert(done_chain =~= chain);
                    }
                    break ;
                },
            }
        }
        let mut j = if last_index < n {
            last_index
        } else {
            n
        };
        while j < n
            invariant
                j <= n,
                last_index <= j || j == n,
                n == self.sockets@.len(),
                s0.len() == n,
                self.iface == iface0,
                self.free_index == old(self).free_index,
                self.free_list == old(self).free_list,
                forall|k: int| 0 <= k < n && #[trigger] s0[k] is Socket ==> s0[k]->Socket_0.wf(),
                forall|k: int|
                    0 <= k < n ==> if k < j {
                        slot_after_replies(#[trigger] s0[k], self.sockets@[k], s, chain, k)
                    } else {
                        slot_in_progress(s0[k], self.sockets@[k], s, chain, k, chain.len() as int, last_index as int)
                    },
            decreases n - j,
        {
            let ghost before_j = self.sockets@;
            recieve_none_at(&mut self.sockets, j);
            proof {
                let k = j as int;
                lemma_first_reaching_bounds(s, chain, k, 0);
                assert(slot_after_replies(s0[k], self.sockets@[k], s, chain, k));
                assert forall|i: int| 0 <= i < n && i != k implies self.sockets@[i] == before_j[i] by {}
            }
            j = j + 1;
        }
        proof {
            assert forall|k: int| 0 <= k < n && #[trigger] self.sockets@[k] is NextFreeIndex implies l.contains(k) by {
                assert(slot_after_replies(s0[k], self.sockets@[k], s, chain, k));
                assert(s0[k] is NextFreeIndex);
            }
            assert forall|k: int| 0 <= k < l.len() implies {
                let i = #[trigger] l[k];
                &&& 0 <= i < self.sockets@.len()
                &&& self.sockets@[i] is NextFreeIndex
                &&& k + 1 < l.len() ==> next_free_of(self.sockets@[i]) == l[k + 1]
                &&& k + 1 == l.len() ==> next_free_of(self.sockets@[i]) >= self.sockets@.len()
            } by {
                assert(s0[l[k]] is NextFreeIndex);
                assert(slot_after_replies(s0[l[k]], self.sockets@[l[k]], s, chain, l[k]));
                assert(self.sockets@[l[k]] == s0[l[k]]);
            }
            assert forall|k: int|
                0 <= k < n && self.sockets@[k] is Socket implies (#[trigger] self.sockets@[k])->Socket_0.wf() by {
                assert(slot_after_replies(s0[k], self.sockets@[k], s, chain, k));
            }
        }
        let _ = self.iface.consume_commands();
    }
}

/// Tells the socket in slot `j`, if it waits for a reply, that none came.
fn recieve_none_at(sockets: &mut Vec<SocketOption<CommandSocket>>, j: usize)
    requires
        j < old(sockets)@.len(),
        old(sockets)@[j as int] is Socket ==> old(sockets)@[j as int]->Socket_0.wf(),
    ensures
        final(sockets)@.len() == old(sockets)@.len(),
        forall|k: int| 0 <= k < old(sockets)@.len() && k != j ==> #[trigger] final(sockets)@[k] == old(sockets)@[k],
        match old(sockets)@[j as int] {
            SocketOption::NextFreeIndex(_) => final(sockets)@[j as int] == old(sockets)@[j as int],
            SocketOption::Socket(a) => final(sockets)@[j as int] matches SocketOption::Socket(b) && b.wf() && b@
                == if a@.state == SocketState::Receive {
                SocketModel { state: SocketState::Process, command: None, ..a@ }
            } else {
                a@
            },
        },
{
    match &mut sockets[j] {
        SocketOption::Socket(socket) => {
            socket.recieve(None);
        },
        SocketOption::NextFreeIndex(_) => {},
    }
}

/// Hands the reply `recv` to the socket in slot `j`, if it waits for one.
fn recieve_reply_at(sockets: &mut Vec<SocketOption<CommandSocket>>, j: usize, recv: CommandData)
    requires
        j < old(sockets)@.len(),
        old(sockets)@[j as int] is Socket ==> old(sockets)@[j as int]->Socket_0.wf(),
        reply_fits_socket(old(sockets)@[j as int], recv.command),
    ensures
        final(sockets)@.len() == old(sockets)@.len(),
        forall|i: int| 0 <= i < old(sockets)@.len() && i != j ==> #[trigger] final(sockets)@[i] == old(sockets)@[i],
        match old(sockets)@[j as int] {
            SocketOption::NextFreeIndex(_) => final(sockets)@[j as int] == old(sockets)@[j as int],
            SocketOption::Socket(a) => final(sockets)@[j as int] matches SocketOption::Socket(b) && b.wf() && b@
                == if a@.state == SocketState::Receive {
                SocketModel {
                    state: SocketState::Process,
                    data: copy_prefix(a@.data, recv.data@),
                    wkc: recv.wkc,
                    ..a@
                }
            } else {
                a@
            },
        },
{
    match &mut sockets[j] {
        SocketOption::Socket(socket) => {
            socket.recieve(Some(recv));
        },
        SocketOption::NextFreeIndex(_) => {},
    }
}

/// A slot that holds a socket with a command waiting to be sent.
pub open spec fn has_command_to_send(o: SocketOption<CommandSocket>) -> bool {
    o matches SocketOption::Socket(s) && s@.state == SocketState::Send && s@.command is Some
}

/// `f` is the slot `o` after its command, where it had one to send, was
/// handed out.
pub open spec fn slot_taken(o: SocketOption<CommandSocket>, f: SocketOption<CommandSocket>) -> bool {
    if has_command_to_send(o) {
        f matches SocketOption::Socket(t) && t.wf() && t@ == (SocketModel {
            state: SocketState::Receive,
            ..o->Socket_0@
        })
    } else {
        f == o
    }
}

/// How many datagrams a round of queuing from slot `i` on adds to a queue
/// whose first `total` bytes are filled, with room up to `cap`.
pub open spec fn enqueue_count(slots: Seq<SocketOption<CommandSocket>>, i: int, total: int, cap: int) -> int
    decreases slots.len() - i,
{
    if i >= slots.len() {
        0
    } else if has_command_to_send(slots[i]) {
        let len = slots[i]->Socket_0@.data_length as int;
        if total + PDU_HEADER_SIZE + WKC_LENGTH > cap || cap - total - PDU_HEADER_SIZE - WKC_LENGTH < len {
            0
        } else {
            1 + enqueue_count(slots, i + 1, total + PDU_HEADER_SIZE + len + WKC_LENGTH, cap)
        }
    } else {
        enqueue_count(slots, i + 1, total, cap)
    }
}

/// A round of queuing from slot `i` on, over a queue whose first `total`
/// bytes are filled, with room up to `cap`: the queue and its fill after the
/// round, its outcome, and the slot where it stopped (the number of slots
/// where it went through them all).
pub open spec fn enqueue_round(
    slots: Seq<SocketOption<CommandSocket>>,
    i: int,
    buf: Seq<u8>,
    total: int,
    cap: int,
) -> (Seq<u8>, int, Result<bool, CommandInterfaceError>, int)
    decreases slots.len() - i,
{
    if i >= slots.len() {
        (buf, total, Ok(true), slots.len() as int)
    } else if has_command_to_send(slots[i]) {
        let s = slots[i]->Socket_0@;
        let c = s.command->0;
        let len = s.data_length as int;
        if total + PDU_HEADER_SIZE + WKC_LENGTH > cap {
            (buf, total, Err(CommandInterfaceError::NotEnoughCapacityLeft), i)
        } else if cap - total - PDU_HEADER_SIZE - WKC_LENGTH < len {
            (buf, total, Ok(false), i)
        } else {
            enqueue_round(
                slots,
                i + 1,
                queue_push_spec(
                    buf,
                    total,
                    command_type_code(c.c_type),
                    i as u8 as int,
                    c.adp as int,
                    c.ado as int,
                    s.data.subrange(0, len),
                ),
                total + PDU_HEADER_SIZE + len + WKC_LENGTH,
                cap,
            )
        }
    } else {
        enqueue_round(slots, i + 1, buf, total, cap)
    }
}

/// Adding a socket and then removing it by the handle it got gives the
/// socket back and leaves the slots and the free list as they were.
pub proof fn lemma_add_then_remove(
    slots: Seq<SocketOption<CommandSocket>>,
    free: int,
    l: Seq<int>,
    socket: CommandSocket,
    h: SocketHandle,
    free_handle: SocketHandle,
)
    requires
        free_list_ok(slots, free, l),
        h@ == free,
        0 <= free < slots.len(),
        slots[free] == SocketOption::<CommandSocket>::NextFreeIndex(free_handle),
    ensures
        ({
            let (slots1, free1, res) = add_socket_spec(slots, free, socket);
            &&& res == Ok::<int, CommandSocket>(free)
            &&& free1 == free_handle@
            &&& remove_socket_spec(slots1, free1, h, free_handle) == (slots, free, Some(socket))
        }),
{
    let (slots1, free1, res) = add_socket_spec(slots, free, socket);
    assert(remove_socket_spec(slots1, free1, h, free_handle).0 =~= slots);
}

/// The handles of two sockets added one after the other name different
/// slots.
pub proof fn lemma_added_handles_distinct(slots: Seq<SocketOption<CommandSocket>>, free: int, l: Seq<int>, a: CommandSocket, b: CommandSocket)
    requires
        free_list_ok(slots, free, l),
    ensures
        ({
            let (slots1, free1, r1) = add_socket_spec(slots, free, a);
            let (slots2, free2, r2) = add_socket_spec(slots1, free1, b);
            r1 is Ok && r2 is Ok ==> r1->Ok_0 != r2->Ok_0
        }),
{
    let (slots1, free1, r1) = add_socket_spec(slots, free, a);
    if 0 <= free < slots.len() && 0 <= free1 < slots1.len() {
        assert(l.len() > 0);
        assert(l[0] == free);
        if l.len() > 1 {
            assert(free1 == l[1]);
            assert(l[1] != l[0]);
        }
    }
}

} // verus!
