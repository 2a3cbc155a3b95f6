//! The cyclic initialization of the distributed clocks over the slaves of
//! a network: the topology (which port of which slave each slave hangs
//! on), the latched receive times, each slave's offset and delay, and the
//! drift compensation.
use crate::bytes::{le32, read_le32};
use crate::command::{get_ap_adp, get_ap_adp_spec, Command};
use crate::dc::{
    dc_delay_average, dc_delay_average_spec, dc_offset_average, dc_offset_average_spec, dc_offset_sample,
    dc_offset_sample_spec, dc_port_interval, dc_port_interval_spec,
};
use crate::error::EcError;
use crate::frame::CommandType;
use crate::register::DcSystemTime;
use crate::slave_init::{zero_vec, zeros};
use crate::sync_mode::{le32_bytes, le32_vec, le64_bytes, le64_vec};
use vstd::prelude::*;

verus! {

/// Readings of the receive times before the offsets are written.
pub const OFFSET_COUNT_MAX: u64 = 16;

/// Rounds of drift compensation.
pub const DRIFT_COUNT_MAX: u64 = 15000;

/// The receive-time registers of ports 0 to 3, 32 bits each.
pub const DC_RECEIVE_TIME_ADDRESS: u16 = 0x0900;

pub const DC_RECEIVE_TIME_SIZE: usize = 16;

/// The system time offset register, 64 bits.
pub const DC_SYSTEM_TIME_OFFSET_ADDRESS: u16 = 0x0920;

/// The system time delay register, 32 bits.
pub const DC_SYSTEM_TIME_DELAY_ADDRESS: u16 = 0x0928;

/// What the initialization keeps of each slave.
#[derive(Debug, Clone, Copy)]
pub struct DcSlave {
    pub support_dc: bool,
    pub linked_ports: (bool, bool, bool, bool),
    /// The slave and port that this slave hangs on.
    pub parent_port: Option<(u16, u8)>,
    pub offset: u64,
    pub delay: u32,
    pub received_port_time: (u32, u32, u32, u32),
}

/// The receive time of port `i`.
pub open spec fn port_time(t: (u32, u32, u32, u32), i: int) -> u32 {
    if i == 0 {
        t.0
    } else if i == 1 {
        t.1
    } else if i == 2 {
        t.2
    } else {
        t.3
    }
}

fn port_time_exec(t: (u32, u32, u32, u32), i: u8) -> (r: u32)
    ensures
        r == port_time(t, i as int),
{
    if i == 0 {
        t.0
    } else if i == 1 {
        t.1
    } else if i == 2 {
        t.2
    } else {
        t.3
    }
}

/// The first linked port after port `after` (-1: the first linked port).
pub open spec fn next_linked(l: (bool, bool, bool, bool), after: int) -> Option<u8> {
    if after < 0 && l.0 {
        Some(0)
    } else if after < 1 && l.1 {
        Some(1)
    } else if after < 2 && l.2 {
        Some(2)
    } else if after < 3 && l.3 {
        Some(3)
    } else {
        None
    }
}

fn next_linked_exec(l: (bool, bool, bool, bool), after: i16) -> (r: Option<u8>)
    ensures
        r == next_linked(l, after as int),
{
    if after < 0 && l.0 {
        Some(0)
    } else if after < 1 && l.1 {
        Some(1)
    } else if after < 2 && l.2 {
        Some(2)
    } else if after < 3 && l.3 {
        Some(3)
    } else {
        None
    }
}

/// The last linked port after port `after`.
pub open spec fn last_linked_after(l: (bool, bool, bool, bool), after: int) -> Option<u8> {
    if 3 > after && l.3 {
        Some(3)
    } else if 2 > after && l.2 {
        Some(2)
    } else if 1 > after && l.1 {
        Some(1)
    } else {
        None
    }
}

fn last_linked_after_exec(l: (bool, bool, bool, bool), after: u8) -> (r: Option<u8>)
    ensures
        r == last_linked_after(l, after as int),
{
    if 3 > after && l.3 {
        Some(3)
    } else if 2 > after && l.2 {
        Some(2)
    } else if 1 > after && l.1 {
        Some(1)
    } else {
        None
    }
}

/// The loop through a slave itself: from its first linked port to the last
/// linked port after it, or zero.
pub open spec fn inner_loop(s: DcSlave) -> u32 {
    let first = next_linked(s.linked_ports, -1)->0;
    match last_linked_after(s.linked_ports, first as int) {
        Some(last) => dc_port_interval_spec(
            port_time(s.received_port_time, first as int),
            port_time(s.received_port_time, last as int),
        ),
        None => 0,
    }
}

/// The loop through a slave's parent: from the port it hangs on to the
/// parent's next linked port.
pub open spec fn outer_loop(parent: DcSlave, parent_port: u8) -> u32 {
    let next = next_linked(parent.linked_ports, parent_port as int)->0;
    dc_port_interval_spec(
        port_time(parent.received_port_time, parent_port as int),
        port_time(parent.received_port_time, next as int),
    )
}

/// The slave that `s` hangs on.
pub open spec fn parent_of(s: DcSlave) -> u16 {
    match s.parent_port {
        Some((pp, _)) => pp,
        None => 0,
    }
}

/// The port of its parent that `s` hangs on.
pub open spec fn parent_port_of(s: DcSlave) -> u8 {
    match s.parent_port {
        Some((_, port)) => port,
        None => 0,
    }
}

/// Where the initialization stands.
#[derive(Debug, Clone, Copy)]
pub enum DcInitState {
    Idle,
    Error(EcError<()>),
    Complete,
    RequestToLatch(u64),
    CalculateOffset(u64, u16),
    CalculateDelay(u64, u16),
    SetOffset(u16),
    SetDelay(u16),
    CompensateDrift(u64),
}

/// The initializer: the time at which the receive times were last read,
/// the state, the command that replies are compared with, the first slave
/// with a distributed clock, how many slaves have one, and the slaves.
#[derive(Debug, Clone)]
pub struct DcInitializer {
    pub sys_time: u64,
    pub state: DcInitState,
    pub command: Command,
    pub first_dc_slave: Option<u16>,
    pub dc_slave_count: u64,
    pub slaves: Vec<DcSlave>,
}

/// The slaves with their parents set: going through the received ports in
/// order, a slave without a parent gets the slave and port seen just
/// before it.
pub open spec fn with_parents(slaves: Seq<DcSlave>, ports: Seq<(u16, u8)>, i: int, last: (u16, u8)) -> Seq<
    DcSlave,
>
    decreases ports.len() - i,
{
    if i < 0 || i >= ports.len() {
        slaves
    } else {
        let (pos, port) = ports[i];
        let s = slaves[pos as int];
        let next = if s.parent_port is None {
            slaves.update(pos as int, DcSlave { parent_port: Some(last), ..s })
        } else {
            slaves
        };
        with_parents(next, ports, i + 1, (pos, port))
    }
}

/// The first slave, in the order of the received ports from `i` on, with
/// a distributed clock.
pub open spec fn first_dc(slaves: Seq<DcSlave>, ports: Seq<(u16, u8)>, i: int) -> Option<u16>
    decreases ports.len() - i,
{
    if i < 0 || i >= ports.len() {
        None
    } else if slaves[ports[i].0 as int].support_dc {
        Some(ports[i].0)
    } else {
        first_dc(slaves, ports, i + 1)
    }
}

/// How many of the first `n` slaves have a distributed clock.
pub open spec fn dc_count(slaves: Seq<DcSlave>, n: int) -> int
    decreases n,
{
    if n <= 0 {
        0
    } else {
        dc_count(slaves, n - 1) + if slaves[n - 1].support_dc {
            1int
        } else {
            0int
        }
    }
}

/// The topology after the received ports: the parents set, then the parent
/// of the first slave seen cleared.
pub open spec fn topology(slaves: Seq<DcSlave>, ports: Seq<(u16, u8)>) -> Seq<DcSlave> {
    let t = with_parents(slaves, ports, 0, (0, 0));
    if ports.len() > 0 {
        let f = ports[0].0 as int;
        t.update(f, DcSlave { parent_port: None, ..t[f] })
    } else {
        t
    }
}

/// The first slave from `i` on, after `pos`, with a distributed clock.
pub open spec fn next_dc_slave(slaves: Seq<DcSlave>, pos: int, i: int) -> Option<u16>
    decreases slaves.len() - i,
{
    if i < 0 || i >= slaves.len() {
        None
    } else if slaves[i].support_dc && pos < i {
        Some(i as u16)
    } else {
        next_dc_slave(slaves, pos, i + 1)
    }
}

/// The command and data sent at the current state.
pub open spec fn dc_command_spec(c: DcInitializer) -> Option<(Command, Seq<u8>)> {
    match c.state {
        DcInitState::RequestToLatch(_) => Some(
            (
                Command { c_type: CommandType::BWR, adp: 0, ado: DC_RECEIVE_TIME_ADDRESS },
                zeros(DC_RECEIVE_TIME_SIZE as nat),
            ),
        ),
        DcInitState::CalculateOffset(_, pos) => Some(
            (
                Command { c_type: CommandType::APRD, adp: get_ap_adp_spec(pos), ado: DcSystemTime::ADDRESS },
                zeros(DcSystemTime::SIZE as nat),
            ),
        ),
        DcInitState::CalculateDelay(_, pos) => Some(
            (
                Command { c_type: CommandType::APRD, adp: get_ap_adp_spec(pos), ado: DC_RECEIVE_TIME_ADDRESS },
                zeros(DC_RECEIVE_TIME_SIZE as nat),
            ),
        ),
        DcInitState::SetOffset(pos) => Some(
            (
                Command {
                    c_type: CommandType::APWR,
                    adp: get_ap_adp_spec(pos),
                    ado: DC_SYSTEM_TIME_OFFSET_ADDRESS,
                },
                le64_bytes(c.slaves@[pos as int].offset),
            ),
        ),
        DcInitState::SetDelay(pos) => Some(
            (
                Command { c_type: CommandType::APWR, adp: get_ap_adp_spec(pos), ado: DC_SYSTEM_TIME_DELAY_ADDRESS },
                le32_bytes(c.slaves@[pos as int].delay),
            ),
        ),
        DcInitState::CompensateDrift(_) => Some(
            (
                Command { c_type: CommandType::ARMW, adp: c.first_dc_slave->0, ado: DcSystemTime::ADDRESS },
                zeros(DcSystemTime::SIZE as nat),
            ),
        ),
        _ => None,
    }
}

/// The receive times of ports 0 to 3 in a reply.
pub open spec fn receive_times(data: Seq<u8>) -> (u32, u32, u32, u32) {
    (le32(data, 0) as u32, le32(data, 4) as u32, le32(data, 8) as u32, le32(data, 12) as u32)
}

/// The delay of slave `pos` is computed: it lies after the first slave
/// with a clock.
pub open spec fn computes_delay(c: DcInitializer, pos: u16) -> bool {
    c.first_dc_slave matches Some(f) && f < pos
}

/// What computing the delay of `s` (with its new receive times) at `pos`
/// needs: a linked port, a parent that is another slave, a port of the
/// parent with a linked port after it, and a loop through the parent no
/// shorter than the loop through the slave, with a delay that fits.
pub open spec fn delay_inputs_ok(c: DcInitializer, pos: u16, s: DcSlave) -> bool {
    &&& next_linked(s.linked_ports, -1) is Some
    &&& s.parent_port matches Some((pp, pport)) && {
        &&& pp < c.slaves@.len()
        &&& pp != pos
        &&& pport < 4
        &&& next_linked(c.slaves@[pp as int].linked_ports, pport as int) is Some
        &&& inner_loop(s) <= outer_loop(c.slaves@[pp as int], pport)
        &&& c.slaves@[pp as int].delay + (outer_loop(c.slaves@[pp as int], pport) - inner_loop(s)) / 2
            <= u32::MAX
    }
}

/// The reply carries the command kept.
pub open spec fn command_matches(c: DcInitializer, cmd: Command) -> bool {
    cmd.c_type == c.command.c_type && cmd.ado == c.command.ado
}

/// The working counter that the state waits for.
pub open spec fn wkc_ok(c: DcInitializer, wkc: u16) -> bool {
    match c.state {
        DcInitState::RequestToLatch(_) => wkc == c.slaves@.len() as u16,
        DcInitState::CompensateDrift(_) => wkc == c.dc_slave_count as u16,
        _ => wkc == 1,
    }
}

/// The slave at `pos` with the receive times of `data`.
pub open spec fn with_times(c: DcInitializer, pos: u16, data: Seq<u8>) -> DcSlave {
    DcSlave { received_port_time: receive_times(data), ..c.slaves@[pos as int] }
}

/// What an accepted reply must hold: the slaves read exist, the data is
/// long enough, the delay can be computed, and after the last slave with a
/// clock there is a first one to go back to.
pub open spec fn dc_reply_ok(c: DcInitializer, cmd: Command, data: Seq<u8>, wkc: u16) -> bool {
    command_matches(c, cmd) && wkc_ok(c, wkc) ==> match c.state {
        DcInitState::CalculateOffset(_, pos) => pos < c.slaves@.len() && data.len() >= 8,
        DcInitState::CalculateDelay(_, pos) => pos < c.slaves@.len() && data.len() >= 16 && (computes_delay(c, pos)
            ==> delay_inputs_ok(c, pos, with_times(c, pos, data))),
        DcInitState::SetOffset(pos) => next_dc_slave(c.slaves@, pos as int, 0) is None ==> c.first_dc_slave is Some,
        _ => true,
    }
}

/// The slaves after an accepted reply.
pub open spec fn dc_slaves_after(c: DcInitializer, data: Seq<u8>) -> Seq<DcSlave> {
    match c.state {
        DcInitState::CalculateOffset(_, pos) => {
            let s = c.slaves@[pos as int];
            let sample = dc_offset_sample_spec(c.sys_time, DcSystemTime::local_system_time_spec(data));
            c.slaves@.update(pos as int, DcSlave { offset: dc_offset_average_spec(s.offset, sample), ..s })
        },
        DcInitState::CalculateDelay(_, pos) => {
            let s = with_times(c, pos, data);
            if computes_delay(c, pos) {
                let (pp, pport) = s.parent_port->0;
                let parent = c.slaves@[pp as int];
                c.slaves@.update(
                    pos as int,
                    DcSlave {
                        delay: dc_delay_average_spec(s.delay, parent.delay, outer_loop(parent, pport), inner_loop(s)),
                        ..s
                    },
                )
            } else {
                c.slaves@.update(pos as int, s)
            }
        },
        _ => c.slaves@,
    }
}

/// The state after an accepted reply.
pub open spec fn dc_state_after(c: DcInitializer) -> DcInitState {
    let n = c.slaves@.len();
    match c.state {
        DcInitState::RequestToLatch(count) => DcInitState::CalculateOffset(count, 0),
        DcInitState::CalculateOffset(count, pos) => if n <= pos + 1 {
            DcInitState::CalculateOffset(count, (pos + 1) as u16)
        } else {
            DcInitState::CalculateDelay(count, 0)
        },
        DcInitState::CalculateDelay(count, pos) => if n <= pos + 1 {
            DcInitState::CalculateDelay(count, (pos + 1) as u16)
        } else if count < OFFSET_COUNT_MAX {
            DcInitState::RequestToLatch(count)
        } else if c.first_dc_slave is Some {
            DcInitState::SetOffset(c.first_dc_slave->0)
        } else {
            DcInitState::Complete
        },
        DcInitState::SetOffset(pos) => match next_dc_slave(c.slaves@, pos as int, 0) {
            Some(next) => DcInitState::SetOffset(next),
            None => DcInitState::SetDelay(c.first_dc_slave->0),
        },
        DcInitState::SetDelay(pos) => match next_dc_slave(c.slaves@, pos as int, 0) {
            Some(next) => DcInitState::SetDelay(next),
            None => DcInitState::CompensateDrift(0),
        },
        DcInitState::CompensateDrift(count) => if count + 1 < DRIFT_COUNT_MAX {
            DcInitState::CompensateDrift((count + 1) as u64)
        } else {
            DcInitState::Complete
        },
        other => other,
    }
}

/// The states in which replies are taken.
pub open spec fn takes_replies(state: DcInitState) -> bool {
    !(state is Idle || state is Error || state is Complete)
}

/// The slaves are few enough for 16-bit positions.
pub open spec fn dc_init_wf(c: DcInitializer) -> bool {
    &&& c.slaves@.len() <= 0xFFFF
    &&& c.dc_slave_count <= c.slaves@.len()
    &&& (c.state matches DcInitState::CompensateDrift(count) ==> count < DRIFT_COUNT_MAX)
}

impl DcInitializer {
    /// An initializer that has not started.
    pub fn new() -> (r: Self)
        ensures
            r.sys_time == 0,
            r.state == DcInitState::Idle,
            r.command == (Command { c_type: CommandType::APRD, adp: 0, ado: 0 }),
            r.first_dc_slave is None,
            r.dc_slave_count == 0,
            r.slaves@.len() == 0,
    {
        DcInitializer {
            sys_time: 0,
            state: DcInitState::Idle,
            command: Command::default(),
            first_dc_slave: None,
            dc_slave_count: 0,
            slaves: Vec::new(),
        }
    }

    /// Starts over `slaves`, given in position order, with the slaves and
    /// ports at which the frame came in, in the order it reached them: sets
    /// each slave's parent, finds the first slave with a clock and counts
    /// those with one.
    pub fn start(&mut self, slaves: Vec<DcSlave>, received_ports: &[(u16, u8)])
        requires
            slaves@.len() <= 0xFFFF,
            forall|i: int| 0 <= i < received_ports@.len() ==> (#[trigger] received_ports@[i]).0 < slaves@.len(),
        ensures
            final(self).sys_time == 0,
            final(self).command == (Command { c_type: CommandType::APRD, adp: 0, ado: 0 }),
            final(self).first_dc_slave == first_dc(slaves@, received_ports@, 0),
            final(self).dc_slave_count == dc_count(slaves@, slaves@.len() as int),
            final(self).slaves@ == topology(slaves@, received_ports@),
            final(self).state == DcInitState::RequestToLatch(0),
            dc_init_wf(*final(self)),
    {
        self.sys_time = 0;
        self.command = Command::default();
        let mut s = slaves;
        let ghost orig = s@;
        let ghost ports = received_ports@;
        let mut first_dc_slave: Option<u16> = None;
        let mut first_slave: Option<u16> = None;
        let mut last: (u16, u8) = (0, 0);
        let mut i: usize = 0;
        while i < received_ports.len()
            invariant
                i <= ports.len(),
                ports == received_ports@,
                s@.len() == orig.len(),
                forall|j: int| 0 <= j < ports.len() ==> (#[trigger] ports[j]).0 < orig.len(),
                forall|k: int| 0 <= k < orig.len() ==> (#[trigger] s@[k]).support_dc == orig[k].support_dc,
                with_parents(s@, ports, i as int, last) == with_parents(orig, ports, 0, (0, 0)),
                first_dc(orig, ports, 0) == match first_dc_slave {
                    Some(f) => Some(f),
                    None => first_dc(orig, ports, i as int),
                },
                i == 0 ==> first_slave is None,
                i > 0 ==> first_slave == Some(ports[0].0),
            decreases ports.len() - i,
        {
            let (pos, port) = received_ports[i];
            let sl = s[pos as usize];
            if sl.support_dc && first_dc_slave.is_none() {
                first_dc_slave = Some(pos);
            }
            if first_slave.is_none() {
                first_slave = Some(pos);
            }
            if sl.parent_port.is_none() {
                s.set(pos as usize, DcSlave { parent_port: Some(last), ..sl });
            }
            last = (pos, port);
            i = i + 1;
        }
        proof {
            assert(with_parents(s@, ports, i as int, last) == s@);
        }
        if let Some(f) = first_slave {
            let sl = s[f as usize];
            s.set(f as usize, DcSlave { parent_port: None, ..sl });
        }
        let mut count: u64 = 0;
        let mut k: usize = 0;
        while k < s.len()
            invariant
                k <= s@.len(),
                s@.len() == orig.len(),
                orig.len() <= 0xFFFF,
                forall|j: int| 0 <= j < orig.len() ==> (#[trigger] s@[j]).support_dc == orig[j].support_dc,
                count == dc_count(orig, k as int),
                count <= k,
            decreases s@.len() - k,
        {
            if s[k].support_dc {
                count = count + 1;
            }
            k = k + 1;
        }
        self.first_dc_slave = first_dc_slave;
        self.dc_slave_count = count;
        self.slaves = s;
        self.state = DcInitState::RequestToLatch(0);
    }

    /// The command to send and its data; reading the receive times notes
    /// `sys_time` as the master's time of the reading.
    pub fn next_command(&mut self, sys_time: u64) -> (r: Option<(Command, Vec<u8>)>)
        requires
            old(self).state matches DcInitState::SetOffset(pos) ==> pos < old(self).slaves@.len(),
            old(self).state matches DcInitState::SetDelay(pos) ==> pos < old(self).slaves@.len(),
            old(self).state is CompensateDrift ==> old(self).first_dc_slave is Some,
        ensures
            match dc_command_spec(*old(self)) {
                Some((cmd, d)) => r matches Some((c2, d2)) && c2 == cmd && d2@ == d,
                None => r is None,
            },
            final(self).sys_time == if old(self).state is CalculateDelay {
                sys_time
            } else {
                old(self).sys_time
            },
            final(self).state == old(self).state,
            final(self).command == old(self).command,
            final(self).first_dc_slave == old(self).first_dc_slave,
            final(self).dc_slave_count == old(self).dc_slave_count,
            final(self).slaves@ == old(self).slaves@,
    {
        match self.state {
            DcInitState::RequestToLatch(_) => Some(
                (
                    Command::new(CommandType::BWR, 0, DC_RECEIVE_TIME_ADDRESS),
                    zero_vec(DC_RECEIVE_TIME_SIZE),
                ),
            ),
            DcInitState::CalculateOffset(_, pos) => Some(
                (
                    Command::new(CommandType::APRD, get_ap_adp(pos), DcSystemTime::ADDRESS),
                    zero_vec(DcSystemTime::SIZE),
                ),
            ),
            DcInitState::CalculateDelay(_, pos) => {
                self.sys_time = sys_time;
                Some(
                    (
                        Command::new(CommandType::APRD, get_ap_adp(pos), DC_RECEIVE_TIME_ADDRESS),
                        zero_vec(DC_RECEIVE_TIME_SIZE),
                    ),
                )
            },
            DcInitState::SetOffset(pos) => Some(
                (
                    Command::new(CommandType::APWR, get_ap_adp(pos), DC_SYSTEM_TIME_OFFSET_ADDRESS),
                    le64_vec(self.slaves[pos as usize].offset),
                ),
            ),
            DcInitState::SetDelay(pos) => Some(
                (
                    Command::new(CommandType::APWR, get_ap_adp(pos), DC_SYSTEM_TIME_DELAY_ADDRESS),
                    le32_vec(self.slaves[pos as usize].delay),
                ),
            ),
            DcInitState::CompensateDrift(_) => {
                let first = match self.first_dc_slave {
                    Some(f) => f,
                    None => 0,
                };
                Some((Command::new(CommandType::ARMW, first, DcSystemTime::ADDRESS), zero_vec(DcSystemTime::SIZE)))
            },
            _ => None,
        }
    }

    /// The delay of the slave `s` (with its new receive times): from the
    /// loop through its parent and the loop through itself.
    fn delay_of(&self, pos: u16, s: DcSlave) -> (r: u32)
        requires
            delay_inputs_ok(*self, pos, s),
        ensures
            r == dc_delay_average_spec(
                s.delay,
                self.slaves@[parent_of(s) as int].delay,
                outer_loop(self.slaves@[parent_of(s) as int], parent_port_of(s)),
                inner_loop(s),
            ),
    {
        let first = match next_linked_exec(s.linked_ports, -1) {
            Some(f) => f,
            None => 0,
        };
        let inner = match last_linked_after_exec(s.linked_ports, first) {
            Some(last) => dc_port_interval(
                port_time_exec(s.received_port_time, first),
                port_time_exec(s.received_port_time, last),
            ),
            None => 0,
        };
        let (pp, pport) = match s.parent_port {
            Some(p) => p,
            None => (0, 0),
        };
        let parent = self.slaves[pp as usize];
        let next = match next_linked_exec(parent.linked_ports, pport as i16) {
            Some(n) => n,
            None => 0,
        };
        let outer = dc_port_interval(
            port_time_exec(parent.received_port_time, pport),
            port_time_exec(parent.received_port_time, next),
        );
        dc_delay_average(s.delay, parent.delay, outer, inner)
    }

    /// Takes the reply to the last command, or `None` where it was lost. A
    /// reply whose command differs from the command kept, or with another
    /// working counter than the state waits for, ends the initialization
    /// with an error; else the state reads it and moves on.
    pub fn recieve_and_process(&mut self, recv: Option<(Command, &[u8], u16)>)
        requires
            dc_init_wf(*old(self)),
            recv matches Some((cmd, data, wkc)) ==> dc_reply_ok(*old(self), cmd, data@, wkc),
        ensures
            dc_init_wf(*final(self)),
            final(self).sys_time == old(self).sys_time,
            final(self).command == old(self).command,
            final(self).first_dc_slave == old(self).first_dc_slave,
            final(self).dc_slave_count == old(self).dc_slave_count,
            recv is None ==> final(self).state == DcInitState::Error(EcError::LostPacket) && final(self).slaves@
                == old(self).slaves@,
            recv matches Some((cmd, data, wkc)) ==> {
                if !command_matches(*old(self), cmd) {
                    final(self).state == DcInitState::Error(EcError::UnexpectedCommand) && final(self).slaves@
                        == old(self).slaves@
                } else if !takes_replies(old(self).state) {
                    final(self).state == old(self).state && final(self).slaves@ == old(self).slaves@
                } else if !wkc_ok(*old(self), wkc) {
                    final(self).state == DcInitState::Error(EcError::UnexpectedWkc(wkc)) && final(self).slaves@
                        == old(self).slaves@
                } else {
                    final(self).state == dc_state_after(*old(self)) && final(self).slaves@ == dc_slaves_after(
                        *old(self),
                        data@,
                    )
                }
            },
    {
        let (cmd, data, wkc) = match recv {
            None => {
                self.state = DcInitState::Error(EcError::LostPacket);
                return;
            },
            Some(r) => r,
        };
        if !(cmd.c_type == self.command.c_type && cmd.ado == self.command.ado) {
            self.state = DcInitState::Error(EcError::UnexpectedCommand);
            return;
        }
        let n = self.slaves.len();
        match self.state {
            DcInitState::RequestToLatch(count) => {
                if wkc != n as u16 {
                    self.state = DcInitState::Error(EcError::UnexpectedWkc(wkc));
                } else {
                    self.state = DcInitState::CalculateOffset(count, 0);
                }
            },
            DcInitState::CalculateOffset(count, pos) => {
                if wkc != 1 {
                    self.state = DcInitState::Error(EcError::UnexpectedWkc(wkc));
                } else {
                    let master_time = self.sys_time;
                    let local = DcSystemTime::local_system_time(data);
                    let sample = dc_offset_sample(master_time, local);
                    let sl = self.slaves[pos as usize];
                    self.slaves.set(pos as usize, DcSlave { offset: dc_offset_average(sl.offset, sample), ..sl });
                    self.state = if n <= pos as usize + 1 {
                        DcInitState::CalculateOffset(count, pos + 1)
                    } else {
                        DcInitState::CalculateDelay(count, 0)
                    };
                }
            },
            DcInitState::CalculateDelay(count, pos) => {
                if wkc != 1 {
                    self.state = DcInitState::Error(EcError::UnexpectedWkc(wkc));
                } else {
                    let times = (read_le32(data, 0), read_le32(data, 4), read_le32(data, 8), read_le32(data, 12));
                    let sl = self.slaves[pos as usize];
                    let mut s = DcSlave { received_port_time: times, ..sl };
                    let computes = match self.first_dc_slave {
                        Some(f) => f < pos,
                        None => false,
                    };
                    if computes {
                        let d = self.delay_of(pos, s);
                        s.delay = d;
                    }
                    self.slaves.set(pos as usize, s);
                    self.state = if n <= pos as usize + 1 {
                        DcInitState::CalculateDelay(count, pos + 1)
                    } else if count < OFFSET_COUNT_MAX {
                        DcInitState::RequestToLatch(count)
                    } else {
                        match self.first_dc_slave {
                            Some(f) => DcInitState::SetOffset(f),
                            None => DcInitState::Complete,
                        }
                    };
                }
            },
            DcInitState::SetOffset(pos) => {
                if wkc != 1 {
                    self.state = DcInitState::Error(EcError::UnexpectedWkc(wkc));
                } else {
                    self.state = match find_next_dc(&self.slaves, pos) {
                        Some(next) => DcInitState::SetOffset(next),
                        None => match self.first_dc_slave {
                            Some(f) => DcInitState::SetDelay(f),
                            None => DcInitState::SetDelay(0),
                        },
                    };
                }
            },
            DcInitState::SetDelay(pos) => {
                if wkc != 1 {
                    self.state = DcInitState::Error(EcError::UnexpectedWkc(wkc));
                } else {
                    self.state = match find_next_dc(&self.slaves, pos) {
                        Some(next) => DcInitState::SetDelay(next),
                        None => DcInitState::CompensateDrift(0),
                    };
                }
            },
            DcInitState::CompensateDrift(count) => {
                if wkc != self.dc_slave_count as u16 {
                    self.state = DcInitState::Error(EcError::UnexpectedWkc(wkc));
                } else if count + 1 < DRIFT_COUNT_MAX {
                    self.state = DcInitState::CompensateDrift(count + 1);
                } else {
                    self.state = DcInitState::Complete;
                }
            },
            _ => {},
        }
    }

    /// Done, or failed with the error; `None` while in progress.
    pub fn wait(&self) -> (r: Option<Result<(), EcError<()>>>)
        ensures
            self.state is Complete ==> r == Some(Ok::<(), EcError<()>>(())),
            self.state matches DcInitState::Error(e) ==> r == Some(Err::<(), EcError<()>>(e)),
            !(self.state is Complete || self.state is Error) ==> r is None,
    {
        match self.state {
            DcInitState::Complete => Some(Ok(())),
            DcInitState::Error(e) => Some(Err(e)),
            _ => None,
        }
    }
}

/// The first slave after `pos` with a distributed clock.
fn find_next_dc(slaves: &Vec<DcSlave>, pos: u16) -> (r: Option<u16>)
    requires
        slaves@.len() <= 0xFFFF,
    ensures
        r == next_dc_slave(slaves@, pos as int, 0),
{
    let mut i: usize = 0;
    while i < slaves.len()
        invariant
            i <= slaves@.len(),
            slaves@.len() <= 0xFFFF,
            next_dc_slave(slaves@, pos as int, 0) == next_dc_slave(slaves@, pos as int, i as int),
        decreases slaves@.len() - i,
    {
        if slaves[i].support_dc && (pos as usize) < i {
            return Some(i as u16);
        }
        i = i + 1;
    }
    None
}

} // verus!
