//! Distributed clocks: reading the latched receive times from the replies,
//! and computing each slave's system time offset and its propagation delay
//! from the reference clock (a line of slaves, port 0 in, port 1 out).
use crate::al_state::{reply_consistent, reply_consistent_exec};
use crate::bytes::{fits_buffer, le16, le32, read_le16, read_le32};
use crate::command::{get_ap_adp, get_ap_adp_spec};
use crate::ethercat_frame::{pdu_chain, EtherCATFrame, Error, FIRST_PDU_OFFSET};
use crate::frame::{
    ec_length, ec_length_at, pdu_length, pdu_length_at, ETHERNET_HEADER_SIZE, PDU_HEADER_SIZE,
};
use vstd::prelude::*;
use vstd::slice::slice_to_vec;

verus! {

/// Time to wait for each reply, in nanoseconds.
pub const DC_RECV_TIMEOUT_NS: u64 = 1_000_000;

/// How many times the receive times are read and summed before averaging.
pub const DC_SAMPLES: u64 = 16;

/// Receive time of port 0 (port 1 follows at +4); a write latches them.
pub const DC_RECEIVE_TIME_REGISTER: u16 = 0x0900;

/// Local time at which the ESC latched the frame.
pub const DC_ESC_RECEIVE_TIME_REGISTER: u16 = 0x0918;

/// System time offset.
pub const DC_SYSTEM_TIME_OFFSET_REGISTER: u16 = 0x0920;

/// System time delay.
pub const DC_SYSTEM_TIME_DELAY_REGISTER: u16 = 0x0928;

/// Extra delay, in nanoseconds, for a slave with a further slave behind it.
pub const DC_COMPENSATION_NS: u64 = 40;

/// Offset of the first datagram's payload in a reply, where it has one.
pub open spec fn first_payload(s: Seq<u8>) -> Option<int> {
    if s.len() < FIRST_PDU_OFFSET {
        None
    } else {
        let fo = FIRST_PDU_OFFSET + ec_length(s, ETHERNET_HEADER_SIZE as int);
        let chain = pdu_chain(s, FIRST_PDU_OFFSET as int, fo);
        if chain.len() == 0 {
            None
        } else {
            Some(chain[0] + PDU_HEADER_SIZE)
        }
    }
}

/// A reply whose first payload, if any, has `n` bytes inside the frame.
pub open spec fn payload_readable(s: Seq<u8>, n: int) -> bool {
    &&& reply_consistent(s)
    &&& first_payload(s) matches Some(o) ==> o + n <= FIRST_PDU_OFFSET + ec_length(
        s,
        ETHERNET_HEADER_SIZE as int,
    )
}

/// Checks `payload_readable`.
pub fn payload_readable_exec(recv_buffer: &[u8], n: usize) -> (r: bool)
    requires
        fits_buffer(recv_buffer@.len() as int),
        fits_buffer(n as int),
    ensures
        r == payload_readable(recv_buffer@, n as int),
{
    if !reply_consistent_exec(recv_buffer) {
        return false;
    }
    match first_payload_offset(recv_buffer) {
        Ok(o) => {
            let fo = FIRST_PDU_OFFSET + ec_length_at(recv_buffer, ETHERNET_HEADER_SIZE) as usize;
            o + n <= fo
        },
        Err(_) => true,
    }
}

/// Checks that a reply's first datagram, if any, has its working counter
/// inside the frame.
pub fn wkc_readable_exec(recv_buffer: &[u8]) -> (r: bool)
    requires
        fits_buffer(recv_buffer@.len() as int),
    ensures
        r == (reply_consistent(recv_buffer@) && (first_payload(recv_buffer@) matches Some(o) ==> o
            + pdu_length(recv_buffer@, o - PDU_HEADER_SIZE) + 2 <= FIRST_PDU_OFFSET + ec_length(
            recv_buffer@,
            ETHERNET_HEADER_SIZE as int,
        ))),
{
    if !reply_consistent_exec(recv_buffer) {
        return false;
    }
    match first_payload_offset(recv_buffer) {
        Ok(o) => {
            proof {
                crate::ethercat_frame::lemma_chain_elements(
                    recv_buffer@,
                    FIRST_PDU_OFFSET as int,
                    FIRST_PDU_OFFSET + ec_length(recv_buffer@, ETHERNET_HEADER_SIZE as int),
                );
            }
            let fo = FIRST_PDU_OFFSET + ec_length_at(recv_buffer, ETHERNET_HEADER_SIZE) as usize;
            let len = pdu_length_at(recv_buffer, o - PDU_HEADER_SIZE) as usize;
            o + len + 2 <= fo
        },
        Err(_) => true,
    }
}

/// Little-endian 64-bit value at `o`.
pub open spec fn le64(s: Seq<u8>, o: int) -> int {
    le32(s, o) + 0x1_0000_0000 * le32(s, o + 4)
}

fn first_payload_offset(recv_buffer: &[u8]) -> (r: Result<usize, Error>)
    requires
        fits_buffer(recv_buffer@.len() as int),
        reply_consistent(recv_buffer@),
    ensures
        first_payload(recv_buffer@) is None ==> r == Err::<usize, Error>(Error::SmallBuffer),
        first_payload(recv_buffer@) matches Some(o) ==> r == Ok::<usize, Error>(o as usize),
{
    let packet = match EtherCATFrame::new(slice_to_vec(recv_buffer)) {
        Ok(p) => p,
        Err(e) => {
            return Err(e);
        },
    };
    let mut offsets = packet.dlpdu_payload_offsets();
    match offsets.next() {
        Some(o) => Ok(o),
        None => Err(Error::SmallBuffer),
    }
}

/// The working counter of a reply's first datagram.
pub fn first_wkc_from_reply(recv_buffer: &[u8]) -> (r: Result<u16, Error>)
    requires
        fits_buffer(recv_buffer@.len() as int),
        reply_consistent(recv_buffer@),
        first_payload(recv_buffer@) matches Some(o) ==> o + pdu_length(recv_buffer@, o - PDU_HEADER_SIZE) + 2
            <= FIRST_PDU_OFFSET + ec_length(recv_buffer@, ETHERNET_HEADER_SIZE as int),
    ensures
        first_payload(recv_buffer@) is None ==> r == Err::<u16, Error>(Error::SmallBuffer),
        first_payload(recv_buffer@) matches Some(o) ==> r == Ok::<u16, Error>(
            le16(recv_buffer@, o + pdu_length(recv_buffer@, o - PDU_HEADER_SIZE)) as u16,
        ),
{
    let offset = match first_payload_offset(recv_buffer) {
        Ok(o) => o,
        Err(e) => {
            return Err(e);
        },
    };
    proof {
        crate::ethercat_frame::lemma_chain_elements(
            recv_buffer@,
            FIRST_PDU_OFFSET as int,
            FIRST_PDU_OFFSET + ec_length(recv_buffer@, ETHERNET_HEADER_SIZE as int),
        );
    }
    let len = pdu_length_at(recv_buffer, offset - PDU_HEADER_SIZE) as usize;
    Ok(read_le16(recv_buffer, offset + len))
}

/// The receive times of port 0 and port 1 in a reply to a read of the
/// receive-time registers.
pub fn dc_port_times_from_reply(recv_buffer: &[u8]) -> (r: Result<(u32, u32), Error>)
    requires
        fits_buffer(recv_buffer@.len() as int),
        payload_readable(recv_buffer@, 8),
    ensures
        first_payload(recv_buffer@) is None ==> r == Err::<(u32, u32), Error>(Error::SmallBuffer),
        first_payload(recv_buffer@) matches Some(o) ==> r == Ok::<(u32, u32), Error>(
            (le32(recv_buffer@, o) as u32, le32(recv_buffer@, o + 4) as u32),
        ),
{
    let offset = match first_payload_offset(recv_buffer) {
        Ok(o) => o,
        Err(e) => {
            return Err(e);
        },
    };
    let port0 = read_le32(recv_buffer, offset);
    let port1 = read_le32(recv_buffer, offset + 4);
    Ok((port0, port1))
}

/// The ESC's latched local time in a reply to a read of its register.
pub fn dc_esc_time_from_reply(recv_buffer: &[u8]) -> (r: Result<u64, Error>)
    requires
        fits_buffer(recv_buffer@.len() as int),
        payload_readable(recv_buffer@, 8),
    ensures
        first_payload(recv_buffer@) is None ==> r == Err::<u64, Error>(Error::SmallBuffer),
        first_payload(recv_buffer@) matches Some(o) ==> r == Ok::<u64, Error>(le64(recv_buffer@, o) as u64),
{
    let offset = match first_payload_offset(recv_buffer) {
        Ok(o) => o,
        Err(e) => {
            return Err(e);
        },
    };
    let low = read_le32(recv_buffer, offset) as u64;
    let high = read_le32(recv_buffer, offset + 4) as u64;
    Ok(low + 0x1_0000_0000 * high)
}

/// The system time offset of a slave: the master's time less the average
/// of the slave's summed local times.
pub fn dc_system_time_offset(master_systime: u64, esc_time_sum: u128) -> (r: u64)
    requires
        (esc_time_sum as int) / (DC_SAMPLES as int) <= master_systime,
    ensures
        r == master_systime - (esc_time_sum as int) / (DC_SAMPLES as int),
{
    let average = esc_time_sum / (DC_SAMPLES as u128);
    master_systime - average as u64
}

/// The average of slave `i`'s summed receive times.
pub open spec fn avg(sums: Seq<u64>, i: int) -> int {
    (sums[i] as int) / (DC_SAMPLES as int)
}

/// The time a frame spends behind slave `i`: between its arrival at port 0
/// and its return at port 1.
pub open spec fn loop_time(p0: Seq<u64>, p1: Seq<u64>, i: int) -> int {
    avg(p1, i) - avg(p0, i)
}

/// The delay of slave `i` (not the first) from the one before it: half the
/// difference of their loop times, plus a compensation for a slave that is
/// not the last one; the last one's own loop time counts as zero.
pub open spec fn delay_from_parent(p0: Seq<u64>, p1: Seq<u64>, n: int, i: int) -> int {
    let parent = loop_time(p0, p1, i - 1);
    let own = if i + 1 != n {
        loop_time(p0, p1, i)
    } else {
        0
    };
    let comp = if i + 1 != n {
        DC_COMPENSATION_NS as int
    } else {
        0
    };
    if own < parent {
        (parent - own + comp) / 2
    } else {
        (own - parent + comp) / 2
    }
}

/// The delay of slave `i` from the reference clock: the delays from parent
/// summed along the line.
pub open spec fn delay_sum(p0: Seq<u64>, p1: Seq<u64>, n: int, i: int) -> int
    decreases i,
{
    if i <= 0 {
        0
    } else {
        delay_sum(p0, p1, n, i - 1) + delay_from_parent(p0, p1, n, i)
    }
}

/// Every loop time that the delays use is not negative: that of each slave
/// but the last.
pub open spec fn loop_times_ok(p0: Seq<u64>, p1: Seq<u64>, n: int) -> bool {
    forall|i: int| 0 <= i < n - 1 ==> #[trigger] avg(p0, i) <= avg(p1, i)
}

/// A slave further down the line is no closer to the reference clock.
pub proof fn lemma_delay_sum_monotone(p0: Seq<u64>, p1: Seq<u64>, n: int, i: int, j: int)
    requires
        0 <= i <= j < n,
        n <= p0.len(),
        n <= p1.len(),
        loop_times_ok(p0, p1, n),
    ensures
        delay_sum(p0, p1, n, i) <= delay_sum(p0, p1, n, j),
    decreases j - i,
{
    if i < j {
        lemma_delay_sum_monotone(p0, p1, n, i, j - 1);
        assert(delay_from_parent(p0, p1, n, j) >= 0);
    }
}

/// The delays of the slaves from the reference clock, from the summed
/// receive times of their ports; the first slave's is zero.
pub fn dc_delays(port0_sums: &[u64], port1_sums: &[u64], slave_count: u16) -> (r: Vec<u64>)
    requires
        slave_count <= port0_sums@.len(),
        slave_count <= port1_sums@.len(),
        loop_times_ok(port0_sums@, port1_sums@, slave_count as int),
        delay_sum(port0_sums@, port1_sums@, slave_count as int, slave_count as int - 1) <= u64::MAX,
    ensures
        r@.len() == slave_count,
        forall|i: int|
            0 <= i < slave_count ==> #[trigger] r@[i] == delay_sum(
                port0_sums@,
                port1_sums@,
                slave_count as int,
                i,
            ),
{
    let ghost p0 = port0_sums@;
    let ghost p1 = port1_sums@;
    let ghost n = slave_count as int;
    let mut delays: Vec<u64> = Vec::new();
    if slave_count == 0 {
        return delays;
    }
    delays.push(0);
    let mut delay: u64 = 0;
    let mut i: u16 = 1;
    while i < slave_count
        invariant
            1 <= i <= slave_count,
            p0 == port0_sums@,
            p1 == port1_sums@,
            n == slave_count,
            slave_count <= p0.len(),
            slave_count <= p1.len(),
            loop_times_ok(p0, p1, n),
            delay_sum(p0, p1, n, n - 1) <= u64::MAX,
            delays@.len() == i,
            delay == delay_sum(p0, p1, n, i - 1),
            forall|k: int| 0 <= k < i ==> #[trigger] delays@[k] == delay_sum(p0, p1, n, k),
        decreases slave_count - i,
    {
        let step = dc_delay_step(port0_sums, port1_sums, slave_count, i);
        proof {
            assert(step == delay_from_parent(p0, p1, n, i as int));
            lemma_delay_sum_monotone(p0, p1, n, i as int, n - 1);
        }
        delay = delay + step;
        delays.push(delay);
        i = i + 1;
    }
    delays
}

/// Reads of one slave's receive times in a sampling round: the port times
/// (32 bytes from the receive-time registers) or the ESC's local time
/// (8 bytes).
pub open spec fn dc_sample_read(slave: u16, esc: bool) -> (u16, u16, usize) {
    if esc {
        (get_ap_adp_spec(slave), DC_ESC_RECEIVE_TIME_REGISTER, 8usize)
    } else {
        (get_ap_adp_spec(slave), DC_RECEIVE_TIME_REGISTER, 32usize)
    }
}

/// Collects the latched receive times of `slave_count` slaves over
/// `DC_SAMPLES` rounds: in each round, slave after slave, its port 0 and
/// port 1 times and then its ESC time; it keeps their sums.
pub struct DcSampler {
    pub slave_count: u16,
    /// Rounds done.
    pub round: u64,
    /// The slave whose times are read next.
    pub slave: u16,
    /// The ESC time is read next (else the port times).
    pub esc: bool,
    pub port0_sums: Vec<u64>,
    pub port1_sums: Vec<u64>,
    pub esc_sums: Vec<u128>,
}

impl DcSampler {
    /// Every round is done, or there is no slave.
    pub open spec fn done_spec(&self) -> bool {
        self.round >= DC_SAMPLES || self.slave_count == 0
    }

    /// The port times of slave `i` read so far.
    pub open spec fn port_samples(&self, i: int) -> int {
        self.round + if i < self.slave || (i == self.slave && self.esc) {
            1int
        } else {
            0int
        }
    }

    /// The ESC times of slave `i` read so far.
    pub open spec fn esc_samples(&self, i: int) -> int {
        self.round + if i < self.slave {
            1int
        } else {
            0int
        }
    }

    /// One sum per slave, the position inside the rounds, and sums no larger
    /// than their samples allow.
    pub open spec fn wf(&self) -> bool {
        &&& self.port0_sums@.len() == self.slave_count
        &&& self.port1_sums@.len() == self.slave_count
        &&& self.esc_sums@.len() == self.slave_count
        &&& self.round <= DC_SAMPLES
        &&& self.round == DC_SAMPLES ==> self.slave == 0 && !self.esc
        &&& self.slave_count > 0 ==> self.slave < self.slave_count
        &&& self.slave_count == 0 ==> self.slave == 0 && !self.esc
        &&& forall|i: int|
            0 <= i < self.slave_count ==> {
                &&& #[trigger] self.port0_sums@[i] <= self.port_samples(i) * 0xFFFF_FFFF
                &&& self.port1_sums@[i] <= self.port_samples(i) * 0xFFFF_FFFF
                &&& self.esc_sums@[i] <= self.esc_samples(i) * 0xFFFF_FFFF_FFFF_FFFF
            }
    }

    /// Starts with zero sums, at the first slave's port times.
    pub fn new(slave_count: u16) -> (r: Self)
        ensures
            r.wf(),
            r.slave_count == slave_count,
            r.round == 0,
            r.slave == 0,
            !r.esc,
            forall|i: int| 0 <= i < slave_count ==> r.port0_sums@[i] == 0,
            forall|i: int| 0 <= i < slave_count ==> r.port1_sums@[i] == 0,
            forall|i: int| 0 <= i < slave_count ==> r.esc_sums@[i] == 0,
    {
        let mut port0_sums: Vec<u64> = Vec::new();
        let mut port1_sums: Vec<u64> = Vec::new();
        let mut esc_sums: Vec<u128> = Vec::new();
        let mut k: u16 = 0;
        while k < slave_count
            invariant
                k <= slave_count,
                port0_sums@.len() == k,
                port1_sums@.len() == k,
                esc_sums@.len() == k,
                forall|i: int| 0 <= i < k ==> port0_sums@[i] == 0,
                forall|i: int| 0 <= i < k ==> port1_sums@[i] == 0,
                forall|i: int| 0 <= i < k ==> esc_sums@[i] == 0,
            decreases slave_count - k,
        {
            port0_sums.push(0);
            port1_sums.push(0);
            esc_sums.push(0);
            k = k + 1;
        }
        let r = DcSampler { slave_count, round: 0, slave: 0, esc: false, port0_sums, port1_sums, esc_sums };
        assert forall|i: int| 0 <= i < slave_count implies {
            &&& #[trigger] r.port0_sums@[i] <= r.port_samples(i) * 0xFFFF_FFFF
            &&& r.port1_sums@[i] <= r.port_samples(i) * 0xFFFF_FFFF
            &&& r.esc_sums@[i] <= r.esc_samples(i) * 0xFFFF_FFFF_FFFF_FFFF
        } by {
            assert(r.port0_sums@[i] == 0 && r.port1_sums@[i] == 0 && r.esc_sums@[i] == 0);
        }
        r
    }

    pub fn is_done(&self) -> (r: bool)
        ensures
            r == self.done_spec(),
    {
        self.round >= DC_SAMPLES || self.slave_count == 0
    }

    /// The read to make next: the slave's auto-increment address, the
    /// register and the number of bytes; `None` once done.
    pub fn next_read(&self) -> (r: Option<(u16, u16, usize)>)
        ensures
            self.done_spec() ==> r is None,
            !self.done_spec() ==> r == Some(dc_sample_read(self.slave, self.esc)),
    {
        if self.is_done() {
            return None;
        }
        if self.esc {
            Some((get_ap_adp(self.slave), DC_ESC_RECEIVE_TIME_REGISTER, 8))
        } else {
            Some((get_ap_adp(self.slave), DC_RECEIVE_TIME_REGISTER, 32))
        }
    }

    /// Adds the port 0 and port 1 times of the current slave; its ESC time is
    /// read next.
    pub fn on_port_times(&mut self, port0: u32, port1: u32)
        requires
            old(self).wf(),
            !old(self).done_spec(),
            !old(self).esc,
        ensures
            final(self).wf(),
            final(self).port0_sums@ == old(self).port0_sums@.update(
                old(self).slave as int,
                (old(self).port0_sums@[old(self).slave as int] + port0) as u64,
            ),
            final(self).port1_sums@ == old(self).port1_sums@.update(
                old(self).slave as int,
                (old(self).port1_sums@[old(self).slave as int] + port1) as u64,
            ),
            final(self).esc_sums@ == old(self).esc_sums@,
            final(self).esc,
            final(self).slave == old(self).slave,
            final(self).round == old(self).round,
            final(self).slave_count == old(self).slave_count,
    {
        let i = self.slave as usize;
        assert(self.port0_sums@[i as int] <= self.port_samples(i as int) * 0xFFFF_FFFF);
        assert(self.port1_sums@[i as int] <= self.port_samples(i as int) * 0xFFFF_FFFF);
        let p0 = self.port0_sums[i] + port0 as u64;
        let p1 = self.port1_sums[i] + port1 as u64;
        self.port0_sums.set(i, p0);
        self.port1_sums.set(i, p1);
        self.esc = true;
        assert forall|j: int| 0 <= j < self.slave_count implies {
            &&& #[trigger] self.port0_sums@[j] <= self.port_samples(j) * 0xFFFF_FFFF
            &&& self.port1_sums@[j] <= self.port_samples(j) * 0xFFFF_FFFF
            &&& self.esc_sums@[j] <= self.esc_samples(j) * 0xFFFF_FFFF_FFFF_FFFF
        } by {
            assert(old(self).port0_sums@[j] <= old(self).port_samples(j) * 0xFFFF_FFFF);
            assert(old(self).port1_sums@[j] <= old(self).port_samples(j) * 0xFFFF_FFFF);
            assert(old(self).esc_sums@[j] <= old(self).esc_samples(j) * 0xFFFF_FFFF_FFFF_FFFF);
        }
    }

    /// Adds the ESC time of the current slave; the next slave's port times
    /// are read next, or, after the last slave, the first slave's in the next
    /// round.
    pub fn on_esc_time(&mut self, esc_time: u64)
        requires
            old(self).wf(),
            !old(self).done_spec(),
            old(self).esc,
        ensures
            final(self).wf(),
            final(self).esc_sums@ == old(self).esc_sums@.update(
                old(self).slave as int,
                (old(self).esc_sums@[old(self).slave as int] + esc_time) as u128,
            ),
            final(self).port0_sums@ == old(self).port0_sums@,
            final(self).port1_sums@ == old(self).port1_sums@,
            !final(self).esc,
            old(self).slave + 1 < old(self).slave_count ==> final(self).slave == old(self).slave + 1
                && final(self).round == old(self).round,
            old(self).slave + 1 == old(self).slave_count ==> final(self).slave == 0 && final(self).round
                == old(self).round + 1,
            final(self).slave_count == old(self).slave_count,
    {
        let i = self.slave as usize;
        assert(self.port0_sums@[i as int] <= self.port_samples(i as int) * 0xFFFF_FFFF);
        assert(self.esc_sums@[i as int] <= self.esc_samples(i as int) * 0xFFFF_FFFF_FFFF_FFFF);
        let e = self.esc_sums[i] + esc_time as u128;
        self.esc_sums.set(i, e);
        self.esc = false;
        if self.slave + 1 < self.slave_count {
            self.slave = self.slave + 1;
        } else {
            self.slave = 0;
            self.round = self.round + 1;
        }
        assert forall|j: int| 0 <= j < self.slave_count implies {
            &&& #[trigger] self.port0_sums@[j] <= self.port_samples(j) * 0xFFFF_FFFF
            &&& self.port1_sums@[j] <= self.port_samples(j) * 0xFFFF_FFFF
            &&& self.esc_sums@[j] <= self.esc_samples(j) * 0xFFFF_FFFF_FFFF_FFFF
        } by {
            assert(old(self).port0_sums@[j] <= old(self).port_samples(j) * 0xFFFF_FFFF);
            assert(old(self).port1_sums@[j] <= old(self).port_samples(j) * 0xFFFF_FFFF);
            assert(old(self).esc_sums@[j] <= old(self).esc_samples(j) * 0xFFFF_FFFF_FFFF_FFFF);
        }
    }
}

/// The offset that one reading gives: how far the slave's local time lies
/// behind the master's time, or zero where it does not.
pub open spec fn dc_offset_sample_spec(master_time: u64, local_time: u64) -> u64 {
    if master_time > local_time {
        (master_time - local_time) as u64
    } else {
        0
    }
}

pub fn dc_offset_sample(master_time: u64, local_time: u64) -> (r: u64)
    ensures
        r == dc_offset_sample_spec(master_time, local_time),
{
    if master_time > local_time {
        master_time - local_time
    } else {
        0
    }
}

/// A slave's offset after a new reading: the reading itself the first
/// time (while the offset is zero), else half the offset so far plus half
/// the reading.
pub open spec fn dc_offset_average_spec(offset: u64, sample: u64) -> u64 {
    if offset != 0 {
        (offset / 2 + sample / 2) as u64
    } else {
        sample
    }
}

pub fn dc_offset_average(offset: u64, sample: u64) -> (r: u64)
    ensures
        r == dc_offset_average_spec(offset, sample),
{
    if offset != 0 {
        offset / 2 + sample / 2
    } else {
        sample
    }
}

/// The time between two receive times of 32-bit local clocks, across a
/// wrap of the clock.
pub open spec fn dc_port_interval_spec(first: u32, second: u32) -> u32 {
    ((second as int - first as int) % 0x1_0000_0000) as u32
}

pub fn dc_port_interval(first: u32, second: u32) -> (r: u32)
    ensures
        r == dc_port_interval_spec(first, second),
{
    if first < second {
        second - first
    } else if first == second {
        0
    } else {
        let v: u64 = 0x1_0000_0000u64 + second as u64 - first as u64;
        assert(v == (second as int - first as int) % 0x1_0000_0000);
        v as u32
    }
}

/// A slave's delay after a new reading: half the difference between the
/// loop through its parent (`outer`) and the loop through itself
/// (`inner`), on top of the parent's delay; the first time (while the
/// delay is zero) that value, else half the delay so far plus half of it.
pub open spec fn dc_delay_average_spec(delay: u32, parent_delay: u32, outer: u32, inner: u32) -> u32 {
    let value = parent_delay + (outer - inner) / 2;
    if delay != 0 {
        (delay / 2 + value / 2) as u32
    } else {
        value as u32
    }
}

pub fn dc_delay_average(delay: u32, parent_delay: u32, outer: u32, inner: u32) -> (r: u32)
    requires
        inner <= outer,
        parent_delay + (outer - inner) / 2 <= u32::MAX,
    ensures
        r == dc_delay_average_spec(delay, parent_delay, outer, inner),
{
    let delta = (outer - inner) / 2;
    let value = parent_delay + delta;
    if delay != 0 {
        delay / 2 + value / 2
    } else {
        value
    }
}

/// The delay of slave `i` from the one before it, computed from the summed
/// receive times as `dc_delays` does.
fn dc_delay_step(port0_sums: &[u64], port1_sums: &[u64], slave_count: u16, i: u16) -> (r: u64)
    requires
        1 <= i < slave_count,
        slave_count <= port0_sums@.len(),
        slave_count <= port1_sums@.len(),
        loop_times_ok(port0_sums@, port1_sums@, slave_count as int),
    ensures
        r == delay_from_parent(port0_sums@, port1_sums@, slave_count as int, i as int),
{
    let ghost p0 = port0_sums@;
    let ghost p1 = port1_sums@;
    let parent_port0_time = port0_sums[(i - 1) as usize] / 16;
    let parent_port1_time = port1_sums[(i - 1) as usize] / 16;
    let port0_time = port0_sums[i as usize] / 16;
    let port1_time = port1_sums[i as usize] / 16;
    proof {
        assert(avg(p0, i - 1) <= avg(p1, i - 1));
    }
    let parent_loop_delay = parent_port1_time - parent_port0_time;
    let mut loop_delay: u64 = 0;
    let mut compensation_value: u64 = 0;
    if i + 1 != slave_count {
        proof {
            assert(avg(p0, i as int) <= avg(p1, i as int));
        }
        loop_delay = port1_time - port0_time;
        compensation_value = DC_COMPENSATION_NS;
    }
    if loop_delay < parent_loop_delay {
        (parent_loop_delay - loop_delay + compensation_value) / 2
    } else {
        (loop_delay - parent_loop_delay + compensation_value) / 2
    }
}

/// Whether the delay of the last slave from the reference clock fits 64
/// bits (the delays of the others are no larger).
pub fn dc_delays_fit(port0_sums: &[u64], port1_sums: &[u64], slave_count: u16) -> (r: bool)
    requires
        slave_count <= port0_sums@.len(),
        slave_count <= port1_sums@.len(),
        loop_times_ok(port0_sums@, port1_sums@, slave_count as int),
    ensures
        r == (delay_sum(port0_sums@, port1_sums@, slave_count as int, slave_count as int - 1) <= u64::MAX),
{
    let ghost p0 = port0_sums@;
    let ghost p1 = port1_sums@;
    let ghost n = slave_count as int;
    if slave_count == 0 {
        return true;
    }
    let mut total: u128 = 0;
    let mut i: u16 = 1;
    while i < slave_count
        invariant
            1 <= i <= slave_count,
            p0 == port0_sums@,
            p1 == port1_sums@,
            n == slave_count,
            slave_count <= p0.len(),
            slave_count <= p1.len(),
            loop_times_ok(p0, p1, n),
            total == delay_sum(p0, p1, n, i - 1),
            total <= i * 0x1_0000_0000_0000_0000,
        decreases slave_count - i,
    {
        let step = dc_delay_step(port0_sums, port1_sums, slave_count, i);
        total = total + step as u128;
        i = i + 1;
    }
    total <= u64::MAX as u128
}

/// A register write to one slave: its auto-increment address, the register
/// and the bytes.
#[derive(Debug)]
pub struct DcWrite {
    pub adp: u16,
    pub register: u16,
    pub data: Vec<u8>,
}

impl View for DcWrite {
    type V = (u16, u16, Seq<u8>);

    open spec fn view(&self) -> (u16, u16, Seq<u8>) {
        (self.adp, self.register, self.data@)
    }
}

/// The write of slave `i`'s system time offset: the master's time less the
/// average of the slave's summed local times, 64 bits little-endian.
pub open spec fn dc_offset_write(master_systime: u64, esc_sums: Seq<u128>, i: int) -> (u16, u16, Seq<u8>) {
    (
        get_ap_adp_spec(i as u16),
        DC_SYSTEM_TIME_OFFSET_REGISTER,
        crate::sync_mode::le64_bytes((master_systime - (esc_sums[i] as int) / (DC_SAMPLES as int)) as u64),
    )
}

/// The write of slave `i`'s delay from the reference clock, cut to 32 bits,
/// little-endian.
pub open spec fn dc_delay_write(p0: Seq<u64>, p1: Seq<u64>, n: int, i: int) -> (u16, u16, Seq<u8>) {
    (
        get_ap_adp_spec(i as u16),
        DC_SYSTEM_TIME_DELAY_REGISTER,
        crate::sync_mode::le32_bytes((delay_sum(p0, p1, n, i) as u64) as u32),
    )
}

/// The writes that set up the distributed clocks of `slave_count` slaves
/// in a line, in the order they are sent: each slave's system time offset,
/// position 0 first; then the delay of each slave after the first, from
/// position 1 on. Sending stops at the first write that fails.
pub fn dc_offset_and_delay_writes(
    master_systime: u64,
    esc_sums: &[u128],
    port0_sums: &[u64],
    port1_sums: &[u64],
    slave_count: u16,
) -> (r: Vec<DcWrite>)
    requires
        slave_count <= esc_sums@.len(),
        slave_count <= port0_sums@.len(),
        slave_count <= port1_sums@.len(),
        forall|i: int| 0 <= i < slave_count ==> (#[trigger] esc_sums@[i] as int) / (DC_SAMPLES as int) <= master_systime,
        loop_times_ok(port0_sums@, port1_sums@, slave_count as int),
        delay_sum(port0_sums@, port1_sums@, slave_count as int, slave_count as int - 1) <= u64::MAX,
    ensures
        slave_count == 0 ==> r@.len() == 0,
        slave_count > 0 ==> r@.len() == 2 * slave_count - 1,
        forall|i: int| 0 <= i < slave_count ==> #[trigger] r@[i]@ == dc_offset_write(master_systime, esc_sums@, i),
        forall|i: int|
            1 <= i < slave_count ==> #[trigger] r@[slave_count + i - 1]@ == dc_delay_write(
                port0_sums@,
                port1_sums@,
                slave_count as int,
                i,
            ),
{
    let mut writes: Vec<DcWrite> = Vec::new();
    let mut i: u16 = 0;
    while i < slave_count
        invariant
            i <= slave_count,
            slave_count <= esc_sums@.len(),
            forall|k: int| 0 <= k < slave_count ==> (#[trigger] esc_sums@[k] as int) / (DC_SAMPLES as int) <= master_systime,
            writes@.len() == i,
            forall|k: int| 0 <= k < i ==> #[trigger] writes@[k]@ == dc_offset_write(master_systime, esc_sums@, k),
        decreases slave_count - i,
    {
        assert((esc_sums@[i as int] as int) / (DC_SAMPLES as int) <= master_systime);
        let offset = dc_system_time_offset(master_systime, esc_sums[i as usize]);
        writes.push(DcWrite { adp: get_ap_adp(i), register: DC_SYSTEM_TIME_OFFSET_REGISTER, data: crate::sync_mode::le64_vec(offset) });
        i = i + 1;
    }
    if slave_count == 0 {
        return writes;
    }
    let delays = dc_delays(port0_sums, port1_sums, slave_count);
    let mut j: u16 = 1;
    while j < slave_count
        invariant
            1 <= j <= slave_count,
            delays@.len() == slave_count,
            forall|k: int|
                0 <= k < slave_count ==> #[trigger] delays@[k] == delay_sum(
                    port0_sums@,
                    port1_sums@,
                    slave_count as int,
                    k,
                ),
            writes@.len() == slave_count + j - 1,
            forall|k: int| 0 <= k < slave_count ==> #[trigger] writes@[k]@ == dc_offset_write(master_systime, esc_sums@, k),
            forall|k: int|
                1 <= k < j ==> #[trigger] writes@[slave_count + k - 1]@ == dc_delay_write(
                    port0_sums@,
                    port1_sums@,
                    slave_count as int,
                    k,
                ),
        decreases slave_count - j,
    {
        let d = delays[j as usize];
        writes.push(DcWrite { adp: get_ap_adp(j), register: DC_SYSTEM_TIME_DELAY_REGISTER, data: crate::sync_mode::le32_vec(d as u32) });
        j = j + 1;
    }
    writes
}

} // verus!
