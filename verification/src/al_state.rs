//! Application-layer states of a slave, and the frames that request a state
//! and read it back.
use crate::bytes::fits_buffer;
use crate::command::{get_ap_adp, get_ap_adp_spec};
use crate::ethercat_frame::{
    add_command_spec, init_spec, pdu_chain, EtherCATFrame, Error as FrameError, FIRST_PDU_OFFSET,
};
use crate::frame::{ec_length, ec_length_at, ETHERNET_HEADER_SIZE, PDU_HEADER_SIZE};
use vstd::prelude::*;
use vstd::slice::slice_to_vec;

verus! {

/// Register that requests a state (AL control).
pub const AL_CONTROL_REGISTER: u16 = 0x0120;

/// Register that reports the state (AL status, with the status code at +4).
pub const AL_STATUS_REGISTER: u16 = 0x0130;

/// Bytes read from the AL status register.
pub const AL_STATUS_READ_SIZE: usize = 6;

/// The state of a slave's application layer.
#[derive(Debug, Clone, Copy, PartialEq, Eq, Structural, Hash)]
pub enum AlState {
    Init,
    PreOperational,
    Bootstrap,
    SafeOperational,
    Operational,
    Invalid,
}

/// The state that a register value encodes; values that are no state give
/// `Invalid`.
pub open spec fn al_state_from_spec(v: int) -> AlState {
    if v == 1 {
        AlState::Init
    } else if v == 2 {
        AlState::PreOperational
    } else if v == 3 {
        AlState::Bootstrap
    } else if v == 4 {
        AlState::SafeOperational
    } else if v == 8 {
        AlState::Operational
    } else {
        AlState::Invalid
    }
}

impl AlState {
    /// The state's register value (`Invalid` follows `Operational`).
    pub open spec fn code_spec(self) -> u8 {
        match self {
            AlState::Init => 1,
            AlState::PreOperational => 2,
            AlState::Bootstrap => 3,
            AlState::SafeOperational => 4,
            AlState::Operational => 8,
            AlState::Invalid => 9,
        }
    }

    pub fn code(&self) -> (r: u8)
        ensures
            r == self.code_spec(),
    {
        match self {
            AlState::Init => 1,
            AlState::PreOperational => 2,
            AlState::Bootstrap => 3,
            AlState::SafeOperational => 4,
            AlState::Operational => 8,
            AlState::Invalid => 9,
        }
    }
}

/// The state that a register value encodes.
pub fn al_state_from_u16(v: u16) -> (r: AlState)
    ensures
        r == al_state_from_spec(v as int),
{
    if v == 1 {
        AlState::Init
    } else if v == 2 {
        AlState::PreOperational
    } else if v == 3 {
        AlState::Bootstrap
    } else if v == 4 {
        AlState::SafeOperational
    } else if v == 8 {
        AlState::Operational
    } else {
        AlState::Invalid
    }
}

impl From<u16> for AlState {
    fn from(v: u16) -> (r: Self) {
        al_state_from_u16(v)
    }
}

impl vstd::std_specs::convert::FromSpecImpl<u16> for AlState {
    open spec fn obeys_from_spec() -> bool {
        true
    }

    open spec fn from_spec(v: u16) -> AlState {
        al_state_from_spec(v as int)
    }
}

/// Reading a state's own register value gives the state back.
pub proof fn lemma_al_state_code_roundtrip(s: AlState)
    ensures
        al_state_from_spec(s.code_spec() as int) == s,
{
}

/// Two states with one register value are one state.
pub proof fn lemma_al_state_code_injective(a: AlState, b: AlState)
    requires
        a.code_spec() == b.code_spec(),
    ensures
        a == b,
{
}

/// Why requesting or reading a state failed.
#[derive(Debug, Clone, Copy, PartialEq, Eq, Structural)]
pub enum Error {
    /// The frame buffer, or the reply, is too small.
    SmallBuffer,
    /// The datagram does not fit in a frame.
    LargeData,
    /// The slave reports an error: its status code and its state.
    ALStateTransfer(u16, AlState),
    /// The slave did not reach the state in time: the timeout in
    /// nanoseconds and the state.
    ALStateTimeout(u64, AlState),
}

pub open spec fn from_frame_error_spec(e: FrameError) -> Error {
    match e {
        FrameError::SmallBuffer => Error::SmallBuffer,
        FrameError::LargeData => Error::LargeData,
    }
}

impl From<FrameError> for Error {
    fn from(e: FrameError) -> (r: Self) {
        match e {
            FrameError::SmallBuffer => Error::SmallBuffer,
            FrameError::LargeData => Error::LargeData,
        }
    }
}

impl vstd::std_specs::convert::FromSpecImpl<FrameError> for Error {
    open spec fn obeys_from_spec() -> bool {
        true
    }

    open spec fn from_spec(e: FrameError) -> Error {
        from_frame_error_spec(e)
    }
}

/// What a frame-building step gives: the frame error mapped to this
/// module's error.
pub open spec fn map_frame_result(r: Result<(), FrameError>) -> Result<(), Error> {
    match r {
        Ok(()) => Ok(()),
        Err(e) => Err(from_frame_error_spec(e)),
    }
}

fn map_frame_error(r: Result<(), FrameError>) -> (m: Result<(), Error>)
    ensures
        m == map_frame_result(r),
{
    match r {
        Ok(()) => Ok(()),
        Err(e) => Err(Error::from(e)),
    }
}

/// Frame buffers that the builders below accept: room for the headers and
/// far from the end of the address space.
pub open spec fn frame_buffer_ok(len: int) -> bool {
    FIRST_PDU_OFFSET <= len && fits_buffer(len)
}

/// Makes `ec_packet` a frame with one datagram that writes `state` into the
/// AL control register of the slave at `slave_number` (auto-increment
/// addressing).
pub fn al_state_request_frame(ec_packet: &mut EtherCATFrame, slave_number: u16, state: AlState) -> (r:
    Result<(), Error>)
    requires
        frame_buffer_ok(old(ec_packet).buffer@.len() as int),
    ensures
        ({
            let (res, s, fo) = add_command_spec(
                init_spec(old(ec_packet).buffer@.len()),
                FIRST_PDU_OFFSET as int,
                0,
                2,
                get_ap_adp_spec(slave_number) as int,
                AL_CONTROL_REGISTER as int,
                seq![state.code_spec()],
            );
            &&& r == map_frame_result(res)
            &&& final(ec_packet).buffer@ == s
            &&& final(ec_packet).free_offset == fo
            &&& final(ec_packet).index == 0
        }),
{
    ec_packet.init();
    let data: [u8; 1] = [state.code()];
    proof {
        assert(data@ =~= seq![state.code_spec()]);
    }
    let r = ec_packet.add_apwr(get_ap_adp(slave_number), AL_CONTROL_REGISTER, &data);
    map_frame_error(r)
}

/// Makes `ec_packet` a frame with one datagram that reads the AL status
/// registers of the slave at `slave_number`.
pub fn al_state_read_frame(ec_packet: &mut EtherCATFrame, slave_number: u16) -> (r: Result<(), Error>)
    requires
        frame_buffer_ok(old(ec_packet).buffer@.len() as int),
    ensures
        ({
            let (res, s, fo) = add_command_spec(
                init_spec(old(ec_packet).buffer@.len()),
                FIRST_PDU_OFFSET as int,
                0,
                1,
                get_ap_adp_spec(slave_number) as int,
                AL_STATUS_REGISTER as int,
                Seq::new(AL_STATUS_READ_SIZE as nat, |i: int| 0u8),
            );
            &&& r == map_frame_result(res)
            &&& final(ec_packet).buffer@ == s
            &&& final(ec_packet).free_offset == fo
            &&& final(ec_packet).index == 0
        }),
{
    ec_packet.init();
    let data: [u8; 6] = [0u8; 6];
    proof {
        assert(data@ =~= Seq::new(AL_STATUS_READ_SIZE as nat, |i: int| 0u8));
    }
    let r = ec_packet.add_aprd(get_ap_adp(slave_number), AL_STATUS_REGISTER, &data);
    map_frame_error(r)
}

/// A reply whose EtherCAT header does not claim more bytes than it has.
pub open spec fn reply_consistent(s: Seq<u8>) -> bool {
    s.len() >= FIRST_PDU_OFFSET ==> FIRST_PDU_OFFSET + ec_length(s, ETHERNET_HEADER_SIZE as int) <= s.len()
}

/// Checks `reply_consistent`.
pub fn reply_consistent_exec(s: &[u8]) -> (r: bool)
    ensures
        r == reply_consistent(s@),
{
    if s.len() < FIRST_PDU_OFFSET {
        true
    } else {
        (ec_length_at(s, ETHERNET_HEADER_SIZE) as usize) <= s.len() - FIRST_PDU_OFFSET
    }
}

/// What the AL status reply `s` says: the state in the low four bits of
/// the first datagram's first byte; with `check_error_code` and the error
/// bit (bit 4) set, the status code two bytes further on is reported as an
/// error.
pub open spec fn al_state_reply_spec(s: Seq<u8>, check_error_code: bool) -> Result<AlState, Error> {
    if s.len() < FIRST_PDU_OFFSET {
        Err(Error::SmallBuffer)
    } else {
        let fo = FIRST_PDU_OFFSET + ec_length(s, ETHERNET_HEADER_SIZE as int);
        let chain = pdu_chain(s, FIRST_PDU_OFFSET as int, fo);
        if chain.len() == 0 {
            Err(Error::SmallBuffer)
        } else {
            let off = chain[0] + PDU_HEADER_SIZE;
            if off >= fo {
                Err(Error::SmallBuffer)
            } else {
                let d = s[off];
                let state = al_state_from_spec((d % 16) as int);
                if check_error_code && (d / 16) % 2 == 1 {
                    if off + 5 >= fo {
                        Err(Error::SmallBuffer)
                    } else {
                        Err(Error::ALStateTransfer((s[off + 5] * 256 + s[off + 4]) as u16, state))
                    }
                } else {
                    Ok(state)
                }
            }
        }
    }
}

/// Reads the state from a reply to `al_state_read_frame`.
pub fn al_state_from_reply(recv_buffer: &[u8], check_error_code: bool) -> (r: Result<AlState, Error>)
    requires
        reply_consistent(recv_buffer@),
        fits_buffer(recv_buffer@.len() as int),
    ensures
        r == al_state_reply_spec(recv_buffer@, check_error_code),
{
    let packet = match EtherCATFrame::new(slice_to_vec(recv_buffer)) {
        Ok(p) => p,
        Err(e) => {
            return Err(Error::from(e));
        },
    };
    let mut offsets = packet.dlpdu_payload_offsets();
    let offset = match offsets.next() {
        Some(o) => o,
        None => {
            return Err(Error::SmallBuffer);
        },
    };
    let bytes = packet.packet();
    if offset >= bytes.len() {
        return Err(Error::SmallBuffer);
    }
    let data = bytes[offset];
    let slave_state = data % 16;
    if check_error_code && (data / 16) % 2 == 1 {
        if offset + 4 >= bytes.len() {
            return Err(Error::SmallBuffer);
        }
        let low = bytes[offset + 4];
        if offset + 5 >= bytes.len() {
            return Err(Error::SmallBuffer);
        }
        let high = bytes[offset + 5];
        let error_code = (high as u16) * 256 + (low as u16);
        return Err(Error::ALStateTransfer(error_code, al_state_from_u16(slave_state as u16)));
    }
    Ok(al_state_from_u16(slave_state as u16))
}

/// What to do next while waiting for a slave to reach a state.
#[derive(Debug, Clone, Copy, PartialEq, Eq, Structural)]
pub enum AlWaitAction {
    /// Read the state again; with `check_error_code`, a set error bit
    /// fails the read.
    Read { check_error_code: bool },
    /// The slave is in the target state.
    Reached,
    /// The wait failed.
    Failed(Error),
}

/// Waiting for one slave to reach `target`: the state is read until it is
/// the target; once `timeout_ns` has passed since `start_time`, one last
/// read that checks the error code decides.
#[derive(Debug, Clone, Copy, PartialEq, Eq, Structural)]
pub struct AlStateWaiter {
    pub target: AlState,
    pub start_time: u64,
    pub timeout_ns: u64,
    pub final_check: bool,
}

impl AlStateWaiter {
    pub fn new(target: AlState, start_time: u64, timeout_ns: u64) -> (r: Self)
        ensures
            r == (AlStateWaiter { target, start_time, timeout_ns, final_check: false }),
    {
        AlStateWaiter { target, start_time, timeout_ns, final_check: false }
    }

    /// The first read.
    pub fn first_action(&self) -> (r: AlWaitAction)
        ensures
            r == (AlWaitAction::Read { check_error_code: false }),
    {
        AlWaitAction::Read { check_error_code: false }
    }

    /// Takes the state just read at time `now` and says what comes next.
    pub fn on_read(&mut self, read: AlState, now: u64) -> (r: AlWaitAction)
        requires
            old(self).start_time <= now,
        ensures
            old(self).final_check ==> *final(self) == *old(self) && r == (if read == old(self).target {
                AlWaitAction::Reached
            } else {
                AlWaitAction::Failed(Error::ALStateTimeout(old(self).timeout_ns, old(self).target))
            }),
            !old(self).final_check && read == old(self).target ==> *final(self) == *old(self) && r
                == AlWaitAction::Reached,
            !old(self).final_check && read != old(self).target && now - old(self).start_time
                >= old(self).timeout_ns ==> *final(self) == (AlStateWaiter {
                final_check: true,
                ..*old(self)
            }) && r == (AlWaitAction::Read { check_error_code: true }),
            !old(self).final_check && read != old(self).target && now - old(self).start_time
                < old(self).timeout_ns ==> *final(self) == *old(self) && r == (AlWaitAction::Read {
                check_error_code: false,
            }),
    {
        if self.final_check {
            if read == self.target {
                AlWaitAction::Reached
            } else {
                AlWaitAction::Failed(Error::ALStateTimeout(self.timeout_ns, self.target))
            }
        } else if read == self.target {
            AlWaitAction::Reached
        } else if now - self.start_time >= self.timeout_ns {
            self.final_check = true;
            AlWaitAction::Read { check_error_code: true }
        } else {
            AlWaitAction::Read { check_error_code: false }
        }
    }
}

} // verus!
